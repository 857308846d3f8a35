//! A collection of utilities for working with Angular CLI projects:
//! header-template matching for source files, JSON Schema validation,
//! workspace manifest queries, and options for a local static file server.

pub mod angular;
pub mod files;
pub mod json;
pub mod serve;
pub mod templates;
pub mod utils;

//! JSON Schema validation: parsing JSON text and validating an instance
//! document against a schema document, delegated to external collaborators.

use vstd::prelude::*;

verus! {

#[verifier::external_type_specification]
#[verifier::external_body]
pub struct ExValue(serde_json::Value);

/// A compiled JSON Schema, opaque to this crate's reasoning. It holds the
/// external validator, whose type cannot be declared to the verifier
/// because its generics are bounded by an external trait.
#[verifier::external_body]
struct CompiledSchema {
    inner: jsonschema::Validator,
}

/// Whether a text is a well-formed JSON document.
pub uninterp spec fn is_json_text(s: Seq<char>) -> bool;

/// Relies on serde_json::from_str: a text parses to a JSON value exactly
/// when it is well-formed JSON, which depends on the text alone.
#[verifier::external_body]
fn parse_json(text: &str) -> (r: Option<serde_json::Value>)
    ensures
        r is Some <==> is_json_text(text@),
{
    serde_json::from_str::<serde_json::Value>(text).ok()
}

/// Relies on jsonschema::validator_for: compiles a schema document into a
/// validator; a document that is not a usable JSON Schema yields no
/// validator. Its result can depend on more than the document: the default
/// retriever resolves external references over the network and from the
/// filesystem, so nothing is promised of the outcome. The upstream
/// documentation says the call must not be made inside an async runtime
/// when a schema needs such retrieval, or it may panic; every call path in
/// this crate is synchronous.
#[verifier::external_body]
fn compile_schema(schema: &serde_json::Value) -> (r: Option<CompiledSchema>) {
    jsonschema::validator_for(schema).ok().map(|inner| CompiledSchema { inner })
}

/// Relies on jsonschema::Validator::is_valid: decides whether the instance
/// document satisfies the compiled schema.
#[verifier::external_body]
fn schema_accepts(validator: &CompiledSchema, instance: &serde_json::Value) -> bool {
    validator.inner.is_valid(instance)
}

/// Failures of JSON validation that are not a plain mismatch.
#[derive(PartialEq, Eq, Structural, Clone, Copy, Debug)]
pub enum JsonError {
    /// The supplied schema document is not a valid JSON Schema.
    InvalidSchema,
}

/// Validates a JSON document against a JSON Schema document, each given as
/// the text read from its file, or `None` for a file that was missing or
/// unreadable. A missing or unparseable document is a plain validation
/// failure, reported as `Ok(false)`; a schema that parses as JSON but does
/// not compile as a JSON Schema is the fatal `InvalidSchema`; otherwise the
/// result is the validator's verdict on the instance.
pub fn validate_json(instance_text: &Option<String>, schema_text: &Option<String>) -> (r: Result<
    bool,
    JsonError,
>)
    ensures
        instance_text is None ==> r == Ok::<bool, JsonError>(false),
        (instance_text matches Some(t) && !is_json_text(t@)) ==> r == Ok::<bool, JsonError>(false),
        (instance_text matches Some(t) && is_json_text(t@) && schema_text is None) ==> r == Ok::<
            bool,
            JsonError,
        >(false),
        (instance_text matches Some(t) && is_json_text(t@) && (schema_text matches Some(s)
            && !is_json_text(s@))) ==> r == Ok::<bool, JsonError>(false),
        (r is Err || r == Ok::<bool, JsonError>(true)) ==> ((instance_text matches Some(t)
            && is_json_text(t@)) && (schema_text matches Some(s) && is_json_text(s@))),
{
    let instance = match instance_text {
        Some(text) => match (parse_json(text.as_str())) {
            Some(value) => value,
            None => {
                return Ok(false);
            },
        },
        None => {
            return Ok(false);
        },
    };
    let schema = match schema_text {
        Some(text) => match (parse_json(text.as_str())) {
            Some(value) => value,
            None => {
                return Ok(false);
            },
        },
        None => {
            return Ok(false);
        },
    };
    let validator = match (compile_schema(&schema)) {
        Some(validator) => validator,
        None => {
            return Err(JsonError::InvalidSchema);
        },
    };
    Ok(schema_accepts(&validator, &instance))
}

} // verus!

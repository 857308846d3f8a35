//! Options for the local static file server: the bind address and the URL
//! that a browser can open.

use vstd::prelude::*;
use vstd::string::StringExecFns;

verus! {

/// Configuration of the static file server: where to bind, which directory
/// to serve, and whether to open a browser on the served URL.
#[derive(Clone)]
pub struct ServerOptions {
    pub host: String,
    pub port: String,
    pub root_dir: String,
    pub open: bool,
}

impl ServerOptions {
    /// The address to bind, `host:port`.
    pub fn get_addr(&self) -> (r: String)
        ensures
            r@ == self.host@ + ":"@ + self.port@,
    {
        let mut r = self.host.clone();
        r.append(":");
        r.append(self.port.as_str());
        r
    }

    /// The URL a browser can open, `http://host:port`.
    pub fn get_url(&self) -> (r: String)
        ensures
            r@ == "http://"@ + self.host@ + ":"@ + self.port@,
    {
        let mut r = String::from_str("http://");
        r.append(self.host.as_str());
        r.append(":");
        r.append(self.port.as_str());
        r
    }
}

} // verus!

//! Client configuration: the security policy for https connections.

use vstd::prelude::*;

verus! {

/// Configuration of a client.  The single knob is whether https
/// connections may skip server certificate validation; the default is
/// to validate.
#[derive(Clone, Copy)]
pub struct Config {
    allow_insecure_https: bool,
}

impl Config {
    /// True when the configuration allows insecure https connections.
    pub closed spec fn spec_allows_insecure_https(self) -> bool {
        self.allow_insecure_https
    }

    /// Returns a standard client configuration, only allowing http and valid https
    pub fn new() -> (r: Config)
        ensures
            !r.spec_allows_insecure_https(),
    {
        Config { allow_insecure_https: false }
    }

    /// Disables SSL/TLS certificate validation during requests
    pub fn disable_https_security(self) -> (r: Self)
        ensures
            r.spec_allows_insecure_https(),
    {
        let mut c = self;
        c.allow_insecure_https = true;
        c
    }

    /// Returns whether or not the configuration allows insecure https connections
    pub fn allows_insecure_https(&self) -> (r: bool)
        ensures
            r == self.spec_allows_insecure_https(),
    {
        self.allow_insecure_https
    }
}

} // verus!

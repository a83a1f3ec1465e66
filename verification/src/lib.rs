//! A minimal HTTP(S) client library.
//!
//! The crate serializes structured requests onto the wire, reassembles
//! raw received bytes into a structured response (status, headers, body),
//! and decodes both supported body framings: fixed content and chunked
//! transfer encoding.  Opening sockets and driving TLS sessions is left
//! to the embedding application; everything here is pure computation.

use vstd::prelude::*;

mod config;
mod constants;
pub mod headers;
pub mod laws;
mod request;
mod response;
pub mod text;
pub mod transports;

pub use config::Config;
pub use constants::HttpMethods;
pub use constants::ResponseCode;
pub use constants::TransferEncoding;
pub use request::Request;
pub use response::Response;

verus! {

/// The client facade: holds the configuration that transports are built from.
pub struct Hasty {
    config: Config,
}

impl Hasty {
    /// The configuration held by the client.
    pub closed spec fn spec_config(self) -> Config {
        self.config
    }

    /// Returns a default Hasty instance
    pub fn new() -> (r: Hasty)
        ensures
            !r.spec_config().spec_allows_insecure_https(),
    {
        Hasty { config: Config::new() }
    }

    /// Returns a Hasty instance with user defined configuration
    pub fn new_with_config(config: Config) -> (r: Hasty)
        ensures
            r.spec_config() == config,
    {
        Hasty { config }
    }

    /// Returns the configuration the client was built with.
    pub fn config(&self) -> (r: &Config)
        ensures
            r == self.spec_config(),
    {
        &self.config
    }
}

} // verus!

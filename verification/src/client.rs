//! What a connection to one stream is made from.

use crate::config::StreamConfig;
use vstd::prelude::*;

verus! {

/// A client for one configured stream, not yet connected.
pub struct GrpcClient {
    config: StreamConfig,
}

impl GrpcClient {
    /// The stream's configuration.
    pub closed spec fn config(&self) -> StreamConfig {
        self.config
    }

    /// A client for the stream.
    pub fn new(config: StreamConfig) -> (client: GrpcClient)
        ensures
            client.config() == config,
    {
        Self { config }
    }

    /// Where to connect to.
    pub fn endpoint(&self) -> (endpoint: &String)
        ensures
            *endpoint == self.config().endpoint,
    {
        &self.config.endpoint
    }

    /// The token to present, if the stream asks for one.
    pub fn access_token(&self) -> (token: &Option<String>)
        ensures
            *token == self.config().access_token,
    {
        &self.config.access_token
    }

    /// The stream's name.
    pub fn name(&self) -> (name: &String)
        ensures
            *name == self.config().name,
    {
        &self.config.name
    }
}

} // verus!

//! The REST API server and its description.

use vstd::prelude::*;

verus! {

/// The OpenAPI description of the REST API.
pub struct ApiDoc;

/// The REST API server.
#[derive(Debug, Clone, Copy, Default)]
pub struct Server;

impl Server {
    pub fn new() -> (s: Server)
        ensures
            s == Server,
    {
        Server
    }
}

} // verus!

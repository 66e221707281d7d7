//! The event type served over GraphQL.

use std::collections::HashMap;

use vstd::prelude::*;

verus! {

/// An event as the GraphQL schema serves it.
#[derive(Clone, Debug)]
pub struct Event {
    pub component_address: Option<[u8; 32]>,
    pub template_address: [u8; 32],
    pub tx_hash: [u8; 32],
    pub topic: String,
    pub payload: HashMap<String, String>,
}

/// The root of the event queries.
pub struct EventQuery;

} // verus!

//! Rows of the indexer store's substate table.

use vstd::prelude::*;

verus! {

/// A substate to store in the indexer store.
#[derive(Debug)]
pub struct NewSubstate {
    pub address: String,
    pub version: i64,
    pub data: String,
    pub template_address: Option<String>,
    pub module_name: Option<String>,
}

} // verus!

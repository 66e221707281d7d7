//! Rows of the substate and event tables, as they are read and written.

use vstd::prelude::*;

verus! {

/// A stored event.
#[derive(Debug)]
pub struct Event {
    pub id: i32,
    pub template_address: String,
    pub tx_hash: String,
    pub topic: String,
    pub payload: String,
    pub version: i32,
    pub substate_id: Option<String>,
}

/// An event to store.
#[derive(Debug, Clone)]
pub struct NewEvent {
    pub template_address: String,
    pub tx_hash: String,
    pub topic: String,
    pub payload: String,
    pub version: i32,
    pub substate_id: Option<String>,
}

/// One field of a stored event's payload, indexed for lookups by payload.
#[derive(Debug, Clone)]
pub struct NewEventPayloadField {
    pub payload_key: String,
    pub payload_value: String,
    pub event_id: i32,
}

/// An event as a raw query returns it.
#[derive(Debug, Clone)]
pub struct EventData {
    pub template_address: String,
    pub tx_hash: String,
    pub topic: String,
    pub payload: String,
    pub version: i32,
    pub substate_id: Option<String>,
}

/// The last block scanned for a shard at an epoch.
#[derive(Debug)]
pub struct ScannedBlockId {
    pub id: i32,
    pub epoch: i64,
    pub shard: i64,
    pub last_block_id: Vec<u8>,
}

/// A scanned block to record.
#[derive(Debug, Clone)]
pub struct NewScannedBlockId {
    pub epoch: i64,
    pub shard: i64,
    pub last_block_id: Vec<u8>,
}

/// A stored substate.
#[derive(Debug)]
pub struct Substate {
    pub id: i32,
    pub address: String,
    pub version: i64,
    pub data: String,
    pub tx_hash: String,
    pub template_address: Option<String>,
    pub module_name: Option<String>,
    pub timestamp: i64,
}

/// A substate to store.
#[derive(Debug)]
pub struct NewSubstate {
    pub address: String,
    pub version: i64,
    pub data: String,
    pub tx_hash: String,
    pub template_address: Option<String>,
    pub module_name: Option<String>,
    pub timestamp: i64,
}

} // verus!

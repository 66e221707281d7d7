use vstd::prelude::*;

pub mod types;
pub mod stream_order;
pub mod shard_watermarks;
pub mod substate_cache;
pub mod rate_limit;
pub mod cbor;
pub mod utxo_paging;
pub mod committee;
pub mod text;
pub mod lookup;
pub mod event_filter;
pub mod sqlite_models;
pub mod store_models;
pub mod graphql_model;
pub mod rest_api;
pub mod committee_round;
pub mod economics;
pub mod sync_stream;
pub mod update_routing;
pub mod watched;
pub mod cli;
pub mod event_scan;
pub mod store_setup;
pub mod retention;
pub mod event_rows;
pub mod substate_decoder;

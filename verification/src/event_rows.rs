//! Reading stored events back.
//!
//! The events table keeps each event's substate id, template address and transaction hash as
//! text. A row whose text does not parse is an inconsistency in the store, reported by the first
//! field found wrong, in the order substate id, template address, transaction hash.

use vstd::prelude::*;

use crate::event_filter::{
    canonical_substate_id, decode_fixed_hex, parse_hash32, substate_id_canonical, substate_id_parses,
};

verus! {

/// A stored event's fields, parsed: the substate id in canonical form, the template address and
/// transaction hash as their 32 bytes, and the topic.
#[derive(Debug, Clone, PartialEq, Eq)]
pub struct EventParts {
    pub substate_id: Option<String>,
    pub template_address: Vec<u8>,
    pub tx_hash: Vec<u8>,
    pub topic: String,
}

/// The field of a stored event that does not parse.
#[derive(Debug, Clone, Copy, PartialEq, Eq, Structural)]
pub enum RowError {
    InvalidSubstateId,
    InvalidTemplateAddress,
    InvalidTxHash,
}

/// Whether a stored substate id, if there is one, parses.
pub open spec fn substate_id_ok(substate_id: Option<String>) -> bool {
    substate_id matches Some(s) ==> substate_id_parses(s@)
}

/// The event a stored row holds: its substate id in canonical form, its template address and
/// transaction hash decoded from 64 hex digits each, and its topic as stored; or the first field,
/// in the order substate id, template address, transaction hash, that does not parse.
pub fn event_from_row(substate_id: Option<String>, template_address: String, tx_hash: String, topic: String) -> (r: Result<
    EventParts,
    RowError,
>)
    ensures
        r is Ok <==> (substate_id_ok(substate_id) && decode_fixed_hex(template_address@, 32) is Some
            && decode_fixed_hex(tx_hash@, 32) is Some),
        r matches Ok(e) ==> {
            &&& (substate_id matches Some(s) ==> (e.substate_id matches Some(t) && t@
                == substate_id_canonical(s@)))
            &&& (substate_id is None ==> e.substate_id is None)
            &&& decode_fixed_hex(template_address@, 32) == Some(e.template_address@)
            &&& decode_fixed_hex(tx_hash@, 32) == Some(e.tx_hash@)
            &&& e.topic == topic
        },
        r == Err::<EventParts, RowError>(RowError::InvalidSubstateId) <==> !substate_id_ok(substate_id),
        r == Err::<EventParts, RowError>(RowError::InvalidTemplateAddress) <==> (substate_id_ok(
            substate_id,
        ) && decode_fixed_hex(template_address@, 32) is None),
        r == Err::<EventParts, RowError>(RowError::InvalidTxHash) <==> (substate_id_ok(substate_id)
            && decode_fixed_hex(template_address@, 32) is Some && decode_fixed_hex(tx_hash@, 32) is None),
{
    let substate_id = match &substate_id {
        Some(s) => match canonical_substate_id(s) {
            Some(t) => Some(t),
            None => {
                return Err(RowError::InvalidSubstateId);
            },
        },
        None => None,
    };
    let template_address = match parse_hash32(&template_address) {
        Some(a) => a,
        None => {
            return Err(RowError::InvalidTemplateAddress);
        },
    };
    let tx_hash = match parse_hash32(&tx_hash) {
        Some(h) => h,
        None => {
            return Err(RowError::InvalidTxHash);
        },
    };
    Ok(EventParts { substate_id, template_address, tx_hash, topic })
}

} // verus!

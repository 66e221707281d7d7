//! Which events the indexer keeps.
//!
//! The operator configures a list of filters; an event is stored when any one of them matches it.
//! Every field a filter sets must match the event, and a filter that sets nothing matches every
//! event.

use std::str::FromStr;

use tari_engine_types::substate::SubstateId;
use tari_template_lib_types::{EntityId, Hash32};
use vstd::prelude::*;

verus! {

/// An event filter as configured: each field, where set, is the text the operator wrote.
#[derive(Debug, Clone, Default)]
pub struct EventFilterConfig {
    pub topic: Option<String>,
    pub entity_id: Option<String>,
    pub substate_id: Option<String>,
    pub template_address: Option<String>,
}

/// A filter on events. A field that is set must match the event.
#[derive(Debug, Clone)]
pub struct EventFilter {
    /// The event topic.
    pub topic: Option<String>,
    /// The entity the event's substate belongs to.
    pub entity_id: Option<u8>,
    /// The event's substate, by its canonical id.
    pub substate_id: Option<String>,
    /// The address of the template that emitted the event.
    pub template_address: Option<Vec<u8>>,
}

/// The value of a hexadecimal digit, upper or lower case.
pub open spec fn hex_value(c: char) -> Option<u8> {
    if '0' <= c <= '9' {
        Some((c as u8 - '0' as u8) as u8)
    } else if 'a' <= c <= 'f' {
        Some((c as u8 - 'a' as u8 + 10) as u8)
    } else if 'A' <= c <= 'F' {
        Some((c as u8 - 'A' as u8 + 10) as u8)
    } else {
        None
    }
}

/// `s` read as exactly `n` bytes in hexadecimal, two digits a byte, high digit first; `None` for
/// any other length or for a character that is not a hexadecimal digit.
pub open spec fn decode_fixed_hex(s: Seq<char>, n: nat) -> Option<Seq<u8>> {
    if s.len() == 2 * n && forall|i: int| 0 <= i < s.len() ==> (#[trigger] hex_value(s[i])).is_some() {
        Some(
            Seq::new(
                n,
                |i: int| (hex_value(s[2 * i]).unwrap() * 16 + hex_value(s[2 * i + 1]).unwrap()) as u8,
            ),
        )
    } else {
        None
    }
}

/// `EntityId::from_hex`, through `fixed_bytes_from_hex`: the single byte two hex digits spell.
#[verifier::external_body]
fn parse_entity_id(s: &String) -> (id: Option<u8>)
    ensures
        id == (match decode_fixed_hex(s@, 1) {
            Some(b) => Some(b[0]),
            None => None,
        }),
{
    EntityId::from_hex(s).ok().map(|e| e.into_array()[0])
}

/// `Hash32::from_hex`, through `fixed_bytes_from_hex` (also what `TemplateAddress::from_str` does, a
/// template address being a `Hash32`): the 32 bytes sixty-four hex digits spell.
#[verifier::external_body]
pub(crate) fn parse_hash32(s: &String) -> (hash: Option<Vec<u8>>)
    ensures
        match hash {
            Some(a) => decode_fixed_hex(s@, 32) == Some(a@),
            None => decode_fixed_hex(s@, 32).is_none(),
        },
{
    Hash32::from_hex(s).ok().map(|a| a.into_array().to_vec())
}

/// Whether `SubstateId::from_str` accepts the text: the engine's grammar of substate ids decides,
/// on the text alone.
pub uninterp spec fn substate_id_parses(s: Seq<char>) -> bool;

/// The canonical text of the substate id `s` names: `SubstateId`'s `Display` of what
/// `SubstateId::from_str` reads from it, a function of the text alone.
pub uninterp spec fn substate_id_canonical(s: Seq<char>) -> Seq<char>;

/// `SubstateId::from_str`, rendered back through `SubstateId`'s `Display`: the canonical text of
/// the substate id `s` names, or `None` when the engine's grammar does not accept `s`. It succeeds
/// exactly when [`substate_id_parses`] holds of the text, and the text is
/// [`substate_id_canonical`] of it.
#[verifier::external_body]
pub(crate) fn canonical_substate_id(s: &String) -> (id: Option<String>)
    ensures
        id.is_some() == substate_id_parses(s@),
        id matches Some(t) ==> t@ == substate_id_canonical(s@),
{
    SubstateId::from_str(s).ok().map(|id| id.to_string())
}

/// Which field of a configured filter does not parse.
#[derive(Debug, Clone, Copy, PartialEq, Eq, Structural)]
pub enum EventFilterError {
    InvalidEntityId,
    InvalidSubstateId,
    InvalidTemplateAddress,
}

impl EventFilter {
    /// The filter a configured one describes: the topic as written, the entity id as one byte of
    /// hex, the substate id in its canonical form, and the template address as 32 bytes of hex. The
    /// first field that does not parse, in that order, is the error.
    pub fn try_from_config(cfg: EventFilterConfig) -> (r: Result<EventFilter, EventFilterError>)
        ensures
            match r {
                Ok(f) => {
                    &&& f.topic == cfg.topic
                    &&& (cfg.entity_id matches Some(e) ==> (decode_fixed_hex(e@, 1) matches Some(b)
                        && f.entity_id == Some(b[0])))
                    &&& (cfg.entity_id is None ==> f.entity_id is None)
                    &&& (cfg.template_address matches Some(t) ==> (f.template_address matches Some(a)
                        && decode_fixed_hex(t@, 32) == Some(a@)))
                    &&& (cfg.template_address is None ==> f.template_address is None)
                    &&& (cfg.substate_id matches Some(s) ==> substate_id_parses(s@)
                        && (f.substate_id matches Some(t) && t@ == substate_id_canonical(s@)))
                    &&& (cfg.substate_id is None ==> f.substate_id is None)
                },
                Err(EventFilterError::InvalidEntityId) => cfg.entity_id matches Some(e) && decode_fixed_hex(
                    e@,
                    1,
                ) is None,
                Err(EventFilterError::InvalidSubstateId) => (cfg.substate_id matches Some(s)
                    && !substate_id_parses(s@)) && !(cfg.entity_id matches Some(e) && decode_fixed_hex(
                    e@,
                    1,
                ) is None),
                Err(EventFilterError::InvalidTemplateAddress) => (cfg.template_address matches Some(t)
                    && decode_fixed_hex(t@, 32) is None) && !(cfg.entity_id matches Some(e)
                    && decode_fixed_hex(e@, 1) is None) && !(cfg.substate_id matches Some(s)
                    && !substate_id_parses(s@)),
            },
    {
        let entity_id = match &cfg.entity_id {
            Some(s) => match parse_entity_id(s) {
                Some(b) => Some(b),
                None => {
                    return Err(EventFilterError::InvalidEntityId);
                },
            },
            None => None,
        };
        let substate_id = match &cfg.substate_id {
            Some(s) => match canonical_substate_id(s) {
                Some(id) => Some(id),
                None => {
                    return Err(EventFilterError::InvalidSubstateId);
                },
            },
            None => None,
        };
        let template_address = match &cfg.template_address {
            Some(s) => match parse_hash32(s) {
                Some(a) => Some(a),
                None => {
                    return Err(EventFilterError::InvalidTemplateAddress);
                },
            },
            None => None,
        };
        Ok(EventFilter { topic: cfg.topic, entity_id, substate_id, template_address })
    }
}

/// What a filter reads of an event: its topic, emitting template, substate (by canonical id) and,
/// for a component, resource or vault substate, the entity that substate belongs to.
#[derive(Debug, Clone)]
pub struct EventKey {
    pub topic: String,
    pub template_address: Vec<u8>,
    pub substate_id: Option<String>,
    pub entity_id: Option<u8>,
}

/// Whether `filter` matches `event`. A filter naming a substate or an entity matches no event
/// without a substate, and an entity only ever matches a component, resource or vault.
pub open spec fn spec_matches(filter: EventFilter, event: EventKey) -> bool {
    &&& (filter.topic matches Some(t) ==> t@ == event.topic@)
    &&& (filter.template_address matches Some(a) ==> a@ == event.template_address@)
    &&& (filter.substate_id matches Some(s) ==> event.substate_id matches Some(e) && e@ == s@)
    &&& (filter.entity_id matches Some(id) ==> event.entity_id == Some(id))
}

fn bytes_equal(a: &Vec<u8>, b: &Vec<u8>) -> (r: bool)
    ensures
        r == (a@ == b@),
{
    if a.len() != b.len() {
        return false;
    }
    let mut i: usize = 0;
    while i < a.len()
        invariant
            i <= a@.len() == b@.len(),
            forall|j: int| 0 <= j < i ==> a@[j] == b@[j],
        decreases a@.len() - i,
    {
        if a[i] != b[i] {
            return false;
        }
        i = i + 1;
    }
    assert(a@ =~= b@);
    true
}

/// Whether `filter` matches `event`.
pub fn event_matches_filter(filter: &EventFilter, event: &EventKey) -> (r: bool)
    ensures
        r == spec_matches(*filter, *event),
{
    let matches_topic = match &filter.topic {
        Some(t) => *t == event.topic,
        None => true,
    };
    let matches_template = match &filter.template_address {
        Some(a) => bytes_equal(a, &event.template_address),
        None => true,
    };
    let matches_substate_id = match &filter.substate_id {
        Some(s) => match &event.substate_id {
            Some(e) => *e == *s,
            None => false,
        },
        None => true,
    };
    let matches_entity_id = match filter.entity_id {
        Some(id) => match event.entity_id {
            Some(e) => e == id,
            None => false,
        },
        None => true,
    };
    matches_topic && matches_template && matches_substate_id && matches_entity_id
}

/// Whether some filter matches an event. With no filters, none does.
pub open spec fn spec_should_persist(filters: Seq<EventFilter>, event: EventKey) -> bool {
    exists|i: int| 0 <= i < filters.len() && spec_matches(#[trigger] filters[i], event)
}

/// Whether an event is stored: with no filters configured every event is, and otherwise those
/// that some filter matches.
pub open spec fn spec_event_stored(filters: Seq<EventFilter>, event: EventKey) -> bool {
    filters.len() == 0 || spec_should_persist(filters, event)
}

/// Whether some filter of `filters` matches `event`.
pub fn should_persist_event(filters: &Vec<EventFilter>, event: &EventKey) -> (r: bool)
    ensures
        r == spec_should_persist(filters@, *event),
{
    let mut i: usize = 0;
    while i < filters.len()
        invariant
            i <= filters@.len(),
            forall|j: int| 0 <= j < i ==> !spec_matches(#[trigger] filters@[j], *event),
        decreases filters@.len() - i,
    {
        if event_matches_filter(&filters[i], event) {
            return true;
        }
        i = i + 1;
    }
    false
}

/// Whether `event` is stored under the configured `filters`: every event when none is configured,
/// else one that some filter matches.
pub fn event_is_stored(filters: &Vec<EventFilter>, event: &EventKey) -> (r: bool)
    ensures
        r == spec_event_stored(filters@, *event),
{
    filters.len() == 0 || should_persist_event(filters, event)
}

/// The positions of the events of `events` that are stored under `filters`, in order.
pub fn filter_events(filters: &Vec<EventFilter>, events: &Vec<EventKey>) -> (kept: Vec<usize>)
    ensures
        kept@.len() <= events@.len(),
        forall|i: int| 0 <= i < kept@.len() ==> (#[trigger] kept@[i]) < events@.len(),
        forall|i: int, j: int| 0 <= i < j < kept@.len() ==> kept@[i] < kept@[j],
        forall|k: int|
            0 <= k < events@.len() ==> (spec_event_stored(filters@, #[trigger] events@[k])
                <==> kept@.contains(k as usize)),
{
    let mut kept: Vec<usize> = Vec::new();
    let mut k: usize = 0;
    while k < events.len()
        invariant
            k <= events@.len(),
            kept@.len() <= k,
            forall|i: int| 0 <= i < kept@.len() ==> (#[trigger] kept@[i]) < k,
            forall|i: int, j: int| 0 <= i < j < kept@.len() ==> kept@[i] < kept@[j],
            forall|m: int|
                0 <= m < k ==> (spec_event_stored(filters@, #[trigger] events@[m])
                    <==> kept@.contains(m as usize)),
        decreases events@.len() - k,
    {
        let keep = event_is_stored(filters, &events[k]);
        let ghost before = kept@;
        if keep {
            kept.push(k);
        }
        proof {
            assert forall|m: int|
                0 <= m < k + 1 implies (spec_event_stored(filters@, #[trigger] events@[m])
                <==> kept@.contains(m as usize)) by {
                if m < k {
                    if kept@.contains(m as usize) && !before.contains(m as usize) {
                        assert(kept@.last() == k);
                        let w = choose|w: int| 0 <= w < kept@.len() && kept@[w] == m as usize;
                        assert(w < before.len() ==> before[w] == kept@[w]);
                    }
                    if before.contains(m as usize) {
                        let w = choose|w: int| 0 <= w < before.len() && before[w] == m as usize;
                        assert(kept@[w] == before[w]);
                    }
                } else {
                    if keep {
                        assert(kept@[kept@.len() - 1] == k);
                    } else {
                        assert(!kept@.contains(k));
                    }
                }
            }
        }
        k = k + 1;
    }
    kept
}

/// A filter that sets nothing keeps every event.
pub proof fn lemma_empty_filter_keeps_everything(filter: EventFilter, event: EventKey)
    requires
        filter.topic.is_none(),
        filter.entity_id.is_none(),
        filter.substate_id.is_none(),
        filter.template_address.is_none(),
    ensures
        spec_matches(filter, event),
{
}

/// Without filters every event is stored.
pub proof fn lemma_without_filters_every_event_is_kept(event: EventKey)
    ensures
        spec_event_stored(Seq::empty(), event),
{
}

/// Adding a filter never drops an event some filter matched; so once some filter is configured,
/// adding another never drops an event that was stored.
pub proof fn lemma_more_filters_keep_more(filters: Seq<EventFilter>, extra: EventFilter, event: EventKey)
    requires
        spec_should_persist(filters, event),
    ensures
        spec_should_persist(filters.push(extra), event),
        spec_event_stored(filters.push(extra), event),
{
    let i = choose|i: int| 0 <= i < filters.len() && spec_matches(#[trigger] filters[i], event);
    assert(filters.push(extra)[i] == filters[i]);
}

/// A filter matches an event exactly when the event agrees with every field the filter sets: a
/// filter on one substate never matches an event of another substate or of none, and likewise for
/// the topic, the template and the entity.
pub proof fn lemma_a_filter_matches_only_what_it_names(filter: EventFilter, event: EventKey)
    ensures
        filter.substate_id matches Some(s) ==> (spec_matches(filter, event) ==> (event.substate_id matches Some(
            e,
        ) && e@ == s@)),
        filter.substate_id matches Some(s) ==> (event.substate_id matches Some(e) ==> (e@ != s@
            ==> !spec_matches(filter, event))),
        (filter.substate_id is Some && event.substate_id is None) ==> !spec_matches(filter, event),
        filter.topic matches Some(t) ==> (t@ != event.topic@ ==> !spec_matches(filter, event)),
        filter.template_address matches Some(a) ==> (a@ != event.template_address@ ==> !spec_matches(
            filter,
            event,
        )),
        filter.entity_id matches Some(id) ==> (event.entity_id != Some(id) ==> !spec_matches(filter, event)),
        ((filter.topic matches Some(t) ==> t@ == event.topic@) && (filter.template_address matches Some(a)
            ==> a@ == event.template_address@) && (filter.substate_id matches Some(s)
            ==> event.substate_id == Some(s)) && (filter.entity_id matches Some(id) ==> event.entity_id
            == Some(id))) ==> spec_matches(filter, event),
{
}

} // verus!

use tari_indexer::event_filter::{EventFilterConfig, EventFilterError};
use tari_indexer::event_filter::{EventFilter, EventKey, event_is_stored, event_matches_filter, filter_events, should_persist_event};

fn event(topic: &str, substate: Option<&str>, entity: Option<u8>) -> EventKey {
    EventKey {
        topic: topic.to_string(),
        template_address: vec![7; 32],
        substate_id: substate.map(|s| s.to_string()),
        entity_id: entity,
    }
}

fn filter() -> EventFilter {
    EventFilter { topic: None, entity_id: None, substate_id: None, template_address: None }
}

#[test]
fn an_empty_filter_matches_everything() {
    assert!(event_matches_filter(&filter(), &event("a", None, None)));
}

#[test]
fn every_set_field_must_match() {
    let f = EventFilter { topic: Some("transfer".to_string()), template_address: Some(vec![7; 32]), ..filter() };
    assert!(event_matches_filter(&f, &event("transfer", None, None)));
    assert!(!event_matches_filter(&f, &event("mint", None, None)));
    let f = EventFilter { template_address: Some(vec![8; 32]), ..filter() };
    assert!(!event_matches_filter(&f, &event("transfer", None, None)));
}

#[test]
fn a_substate_or_entity_filter_needs_a_substate() {
    let f = EventFilter { substate_id: Some("component_01".to_string()), ..filter() };
    assert!(event_matches_filter(&f, &event("t", Some("component_01"), Some(1))));
    assert!(!event_matches_filter(&f, &event("t", None, None)));
    let f = EventFilter { entity_id: Some(1), ..filter() };
    assert!(event_matches_filter(&f, &event("t", Some("component_01"), Some(1))));
    assert!(!event_matches_filter(&f, &event("t", Some("component_02"), Some(2))));
    assert!(!event_matches_filter(&f, &event("t", Some("txreceipt_01"), None)));
}

#[test]
fn an_event_is_kept_when_any_filter_matches() {
    let filters = vec![
        EventFilter { topic: Some("a".to_string()), ..filter() },
        EventFilter { topic: Some("b".to_string()), ..filter() },
    ];
    assert!(should_persist_event(&filters, &event("b", None, None)));
    assert!(!should_persist_event(&filters, &event("c", None, None)));
    // No filter matches where none is configured, yet with no filters configured every event is
    // stored.
    assert!(!should_persist_event(&vec![], &event("c", None, None)));
    assert!(event_is_stored(&vec![], &event("c", None, None)));
    assert!(!event_is_stored(&filters, &event("c", None, None)));
    assert_eq!(filter_events(&vec![], &vec![event("c", None, None), event("d", None, None)]), vec![0, 1]);
    let events = vec![event("c", None, None), event("a", None, None), event("b", None, None)];
    assert_eq!(filter_events(&filters, &events), vec![1, 2]);
}

#[test]
fn a_configured_filter_parses_its_fields() {
    let cfg = EventFilterConfig {
        topic: Some("t".to_string()),
        entity_id: Some("aB".to_string()),
        substate_id: Some(format!("component_{:064x}", 1)),
        template_address: Some("0f".repeat(32)),
    };
    let f = EventFilter::try_from_config(cfg).unwrap();
    assert_eq!(f.topic, Some("t".to_string()));
    assert_eq!(f.entity_id, Some(0xab));
    assert_eq!(f.substate_id, Some(format!("component_{:064x}", 1)));
    assert_eq!(f.template_address, Some(vec![0x0f; 32]));

    let bad_entity = EventFilterConfig { entity_id: Some("abc".to_string()), ..EventFilterConfig::default() };
    assert_eq!(EventFilter::try_from_config(bad_entity).unwrap_err(), EventFilterError::InvalidEntityId);
    let bad_substate = EventFilterConfig { substate_id: Some("nonsense".to_string()), ..EventFilterConfig::default() };
    assert_eq!(EventFilter::try_from_config(bad_substate).unwrap_err(), EventFilterError::InvalidSubstateId);
    let bad_template = EventFilterConfig { template_address: Some("zz".repeat(32)), ..EventFilterConfig::default() };
    assert_eq!(EventFilter::try_from_config(bad_template).unwrap_err(), EventFilterError::InvalidTemplateAddress);
}

#[test]
fn a_configured_substate_id_is_held_in_its_canonical_form() {
    let cfg = EventFilterConfig { substate_id: Some(format!("component_{}", "AB".repeat(32))), ..EventFilterConfig::default() };
    let f = EventFilter::try_from_config(cfg).unwrap();
    assert_eq!(f.substate_id, Some(format!("component_{}", "ab".repeat(32))));
}

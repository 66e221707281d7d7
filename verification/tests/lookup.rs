use tari_indexer::lookup::{
    IndexerError, LocalLookup, LookupResult, NetworkLookup, QueryStep, ResponseStatus, RpcErrorReason, StorageError,
    SubstateManagerError, after_local_lookup, after_network_lookup, gather_fetched, require_up,
    substate_lookup_error,
};

fn substate() -> String {
    format!("component_{:064x}", 1)
}

#[test]
fn a_spent_version_is_not_found() {
    let e = SubstateManagerError::InputSubstateIsDown { substate_id: substate(), version: 0 };
    let resp = substate_lookup_error(e);
    assert_eq!(resp.status, ResponseStatus::NotFound);
    assert!(resp.error.contains("v0"), "{}", resp.error);
}

#[test]
fn a_substate_that_does_not_exist_is_not_found() {
    let resp = substate_lookup_error(SubstateManagerError::InputSubstateDoesNotExist { substate_id: substate() });
    assert_eq!(resp.status, ResponseStatus::NotFound);
}

#[test]
fn a_shard_group_without_a_committee_is_unavailable() {
    let resp = substate_lookup_error(SubstateManagerError::IndexerError(IndexerError::NoCommitteeMembers {
        details: "no validators are assigned to ShardGroup(129-256)".to_string(),
    }));
    assert_eq!(resp.status, ResponseStatus::ServiceUnavailable);
    assert!(resp.error.contains("ShardGroup(129-256)"), "{}", resp.error);
}

#[test]
fn a_failure_to_answer_stays_a_server_error() {
    let resp = substate_lookup_error(SubstateManagerError::StorageError(StorageError::QueryError {
        reason: "boom".to_string(),
    }));
    assert_eq!(resp.status, ResponseStatus::InternalServerError);
}

#[test]
fn lookup_messages_name_what_was_asked_for() {
    let resp = substate_lookup_error(SubstateManagerError::InputSubstateIsDown {
        substate_id: "component_ab".to_string(),
        version: 1234567890,
    });
    assert_eq!(resp.error, "Input substate component_ab (v1234567890) is down");
    let resp = substate_lookup_error(SubstateManagerError::StorageError(StorageError::QueryError {
        reason: "boom".to_string(),
    }));
    assert_eq!(resp.error, "Error getting substate: Storage error: Query error: boom");
    assert_eq!(resp.status.code(), 500);
    let resp = substate_lookup_error(SubstateManagerError::StorageError(StorageError::NotFound {
        item: "substate".to_string(),
        key: "x".to_string(),
    }));
    assert_eq!(resp.status.code(), 404);
    let resp = substate_lookup_error(SubstateManagerError::IndexerError(IndexerError::Other {
        details: "timeout".to_string(),
    }));
    assert_eq!(resp.status, ResponseStatus::InternalServerError);
    assert_eq!(resp.error, "Error getting substate: Indexer error: timeout");
}

#[test]
fn a_held_substate_is_answered_and_a_missing_one_asks_the_network() {
    assert!(matches!(after_local_lookup(&substate(), None, LocalLookup::Held, true, true), QueryStep::Answer));
    assert!(matches!(
        after_local_lookup(&substate(), Some(3), LocalLookup::NotHeld, false, true),
        QueryStep::AskNetwork
    ));
}

#[test]
fn a_local_only_query_for_a_missing_substate_is_not_found() {
    match after_local_lookup(&"component_ab".to_string(), Some(3), LocalLookup::NotHeld, true, true) {
        QueryStep::Fail(e) => {
            assert_eq!(e.reason, RpcErrorReason::Application(404));
            assert_eq!(e.message, "Substate component_ab (version:>=3) not found");
        },
        _ => panic!("expected a failure"),
    }
}

#[test]
fn a_failed_local_lookup_is_an_internal_error() {
    let failure = LocalLookup::Failed(SubstateManagerError::StorageError(StorageError::QueryError {
        reason: "disk".to_string(),
    }));
    match after_local_lookup(&substate(), None, failure.clone(), false, true) {
        QueryStep::Fail(e) => {
            assert_eq!(e.reason, RpcErrorReason::InternalError);
            assert_eq!(e.message, "Error getting substate: Storage error: Query error: disk");
        },
        _ => panic!("expected a failure"),
    }
    match after_local_lookup(&substate(), None, failure, false, false) {
        QueryStep::Fail(e) => assert_eq!(e.message, "Something went wrong"),
        _ => panic!("expected a failure"),
    }
}

#[test]
fn the_network_answer_decides_the_reply() {
    let a = "component_ab".to_string();
    assert!(after_network_lookup(&a, None, NetworkLookup::Up).is_ok());
    let e = after_network_lookup(&a, None, NetworkLookup::DoesNotExist).unwrap_err();
    assert_eq!(e.reason, RpcErrorReason::Application(404));
    assert_eq!(e.message, "Substate component_ab (version:>=0) not found, and not found on network");
    let e = after_network_lookup(&a, Some(4), NetworkLookup::Down { version: 7 }).unwrap_err();
    assert_eq!(e.reason, RpcErrorReason::Application(301));
    assert_eq!(
        e.message,
        "Substate component_ab (version:>=5) not found, but found in a down state on network at version 7"
    );
    let e = after_network_lookup(&a, None, NetworkLookup::Failed { details: "timeout".to_string() }).unwrap_err();
    assert_eq!(e.reason, RpcErrorReason::Application(501));
    assert_eq!(e.message, "Error asking network for substate:timeout");
}

#[test]
fn a_required_substate_must_be_live() {
    assert_eq!(require_up(substate(), LookupResult::Up(7u8)).unwrap(), 7);
    match require_up::<u8>(substate(), LookupResult::Down { version: 3 }) {
        Err(SubstateManagerError::InputSubstateIsDown { substate_id, version }) => {
            assert_eq!(substate_id, substate());
            assert_eq!(version, 3);
        },
        other => panic!("unexpected {other:?}"),
    }
    assert!(matches!(
        require_up::<u8>(substate(), LookupResult::DoesNotExist),
        Err(SubstateManagerError::InputSubstateDoesNotExist { .. })
    ));
}

#[test]
fn a_batch_keeps_live_substates_skips_missing_ones_and_fails_on_a_spent_one() {
    let found = gather_fetched(vec![
        ("a".to_string(), LookupResult::Up(1u8)),
        ("b".to_string(), LookupResult::DoesNotExist),
        ("c".to_string(), LookupResult::Up(3u8)),
    ])
    .unwrap();
    assert_eq!(found, vec![("a".to_string(), 1), ("c".to_string(), 3)]);

    match gather_fetched(vec![
        ("a".to_string(), LookupResult::Up(1u8)),
        ("b".to_string(), LookupResult::Down { version: 4 }),
        ("c".to_string(), LookupResult::Down { version: 9 }),
    ]) {
        Err(SubstateManagerError::InputSubstateIsDown { substate_id, version }) => {
            assert_eq!(substate_id, "b");
            assert_eq!(version, 4);
        },
        other => panic!("unexpected {other:?}"),
    }
}

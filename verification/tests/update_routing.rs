use tari_indexer::economics::XtrTotals;
use tari_engine_types::substate::SubstateId;
use tari_indexer::update_routing::{
    Anomaly, CreatedValue, UpdateKind, UpdateRouting, UtxoChange, route_update, take_transition,
};

fn nothing() -> UpdateRouting {
    UpdateRouting { transition: false, template_catalogue: false, utxo: None, transaction: false, fee_pool: false, anomaly: None }
}

fn recorded() -> UpdateRouting {
    UpdateRouting { transition: true, ..nothing() }
}

#[test]
fn an_unselected_update_reaches_nothing() {
    let mut totals = XtrTotals::default();
    let kind = UpdateKind::Create(CreatedValue::ClaimedOutputTombstone { value: 5 });
    assert_eq!(route_update(kind, false, &mut totals), nothing());
    assert_eq!(totals, XtrTotals::default());
}

#[test]
fn receipts_and_claims_feed_the_totals() {
    let mut totals = XtrTotals::default();
    let receipt = UpdateKind::Create(CreatedValue::TransactionReceipt {
        address_valid: true,
        total_fees_paid: 100,
        exhaust_burn: 10,
    });
    assert_eq!(route_update(receipt, true, &mut totals), UpdateRouting { transaction: true, ..recorded() });
    let claim = UpdateKind::Create(CreatedValue::ClaimedOutputTombstone { value: 7 });
    assert_eq!(route_update(claim, true, &mut totals), recorded());
    assert_eq!(totals, XtrTotals { claimed: 7, fees: 100, receipt_burn: 10 });
    let bad = UpdateKind::Create(CreatedValue::TransactionReceipt {
        address_valid: false,
        total_fees_paid: 1,
        exhaust_burn: 1,
    });
    assert_eq!(
        route_update(bad, true, &mut totals),
        UpdateRouting { anomaly: Some(Anomaly::ReceiptWithInvalidAddress), ..recorded() }
    );
    assert_eq!(totals.fees, 100);
}

#[test]
fn utxos_are_indexed_when_created_with_an_output_and_when_spent() {
    let mut totals = XtrTotals::default();
    let created = UpdateKind::Create(CreatedValue::Utxo { address_valid: true, has_output: true });
    assert_eq!(route_update(created, true, &mut totals).utxo, Some(UtxoChange::Unspent));
    let empty = UpdateKind::Create(CreatedValue::Utxo { address_valid: true, has_output: false });
    assert_eq!(route_update(empty, true, &mut totals), recorded());
    let spent = UpdateKind::Destroy { is_utxo: true, is_read_only: false };
    assert_eq!(route_update(spent, true, &mut totals).utxo, Some(UtxoChange::Spent));
    let read_only = UpdateKind::Destroy { is_utxo: false, is_read_only: true };
    assert_eq!(route_update(read_only, true, &mut totals).anomaly, Some(Anomaly::DestroyedReadOnly));
}

#[test]
fn templates_and_fee_pools_go_to_their_own_tables() {
    let mut totals = XtrTotals::default();
    let template = UpdateKind::Create(CreatedValue::Template { has_metadata: true });
    assert_eq!(route_update(template, true, &mut totals), UpdateRouting { template_catalogue: true, ..recorded() });
    let pool = UpdateKind::Create(CreatedValue::ValidatorFeePool);
    assert_eq!(route_update(pool, true, &mut totals), UpdateRouting { fee_pool: true, ..recorded() });
    let absent = UpdateKind::Create(CreatedValue::Absent);
    assert_eq!(route_update(absent, true, &mut totals), recorded());
}

#[test]
fn every_transition_retires_cache_entries_even_when_unselected() {
    let id: SubstateId = format!("component_{:064x}", 7).parse().unwrap();
    let mut totals = XtrTotals::default();
    let claim = UpdateKind::Create(CreatedValue::ClaimedOutputTombstone { value: 5 });
    let (invalidation, routing) = take_transition(&id, 3, true, claim, false, &mut totals);
    let invalidation = invalidation.unwrap();
    assert_eq!(invalidation.retires_up_to(), Some(2));
    assert!(invalidation.retires_nonexistence());
    assert_eq!(*invalidation.substate_id(), id);
    assert_eq!(routing, nothing());
    assert_eq!(totals, XtrTotals::default());

    let (invalidation, routing) = take_transition(&id, 3, true, claim, true, &mut totals);
    assert!(invalidation.is_some());
    assert_eq!(routing, recorded());
    assert_eq!(totals.claimed, 5);

    let first = UpdateKind::Create(CreatedValue::Absent);
    let (invalidation, _) = take_transition(&id, 0, false, first, true, &mut totals);
    assert!(invalidation.is_none());

    let spend = UpdateKind::Destroy { is_utxo: true, is_read_only: false };
    let (invalidation, routing) = take_transition(&id, 4, true, spend, true, &mut totals);
    let invalidation = invalidation.unwrap();
    assert_eq!(invalidation.retires_up_to(), Some(4));
    assert!(!invalidation.retires_nonexistence());
    assert_eq!(routing.utxo, Some(UtxoChange::Spent));
}

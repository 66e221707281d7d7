use tari_indexer::economics::{SupplyUnderflow, XtrEconomics, XtrTotals, burn_after_checkpoint, total_supply};

#[test]
fn tari_total_supply_nets_receipt_burn_not_header() {
    let econ = XtrEconomics {
        total_claimed: 1_000,
        // Deliberately different from the receipt burn: the supply ignores the header total.
        total_exhaust_burned: 999,
        fee_volume: 0,
        receipt_exhaust_burned: 40,
        transaction_receipt_count: 0,
    };
    assert_eq!(total_supply(econ.total_claimed, econ.receipt_exhaust_burned), Ok(960));
    assert_eq!(total_supply(40, 40), Ok(0));
}

#[test]
fn a_burn_above_the_claims_is_an_inconsistency() {
    assert_eq!(total_supply(10, 11), Err(SupplyUnderflow { claimed: 10, burnt: 11 }));
}

#[test]
fn totals_accumulate_per_receipt_and_claim() {
    let mut totals = XtrTotals::default();
    totals.add_receipt(50, 5);
    totals.add_receipt(30, 3);
    totals.add_claim(1000);
    assert_eq!(totals, XtrTotals { claimed: 1000, fees: 80, receipt_burn: 8 });
}

#[test]
fn a_checkpoint_burn_is_counted_once() {
    assert_eq!(burn_after_checkpoint(false, Some(100), 7), Some(107));
    assert_eq!(burn_after_checkpoint(false, None, 7), Some(7));
    assert_eq!(burn_after_checkpoint(true, Some(107), 7), None);
}

use tari_indexer::retention::{is_pruned, retention_epoch};

const RETENTION_CEILING: u64 = 1_000_000;

#[test]
fn a_transaction_that_never_commits_is_retained_on_its_max_epoch() {
    let kept: Vec<u64> = [5u64, 20].iter().map(|m| retention_epoch(*m, RETENTION_CEILING, None)).collect();
    let pruned = kept.iter().filter(|e| is_pruned(**e, 10)).count();
    assert_eq!(pruned, 1);
    assert!(!is_pruned(kept[1], 10));
}

#[test]
fn indexing_a_receipt_moves_retention_to_the_commit_epoch() {
    // On its max_epoch alone this transaction is far from the cutoff.
    assert!(!is_pruned(retention_epoch(100, RETENTION_CEILING, None), 10));
    assert!(is_pruned(retention_epoch(100, RETENTION_CEILING, Some(2)), 10));
}

#[test]
fn a_distant_max_epoch_is_clamped_to_the_retention_ceiling() {
    let ceiling = 500;
    let pruned = [i64::MAX as u64, u64::MAX, 100_000]
        .iter()
        .filter(|m| is_pruned(retention_epoch(**m, ceiling, None), 501))
        .count();
    assert_eq!(pruned, 3);
}

#[test]
fn the_ceiling_does_not_move_a_transaction_that_is_already_under_it() {
    assert_eq!(retention_epoch(20, 500, None), 20);
    assert!(is_pruned(retention_epoch(20, 500, None), 21));
}

use tari_indexer::utxo_paging::{UtxoPageCut, cut_page, page_max_epoch, page_max_state_version};

/// The state versions of the stored UTXO updates, in order, `count` rows at each version.
fn table(groups: &[(u64, usize)]) -> Vec<u64> {
    groups.iter().flat_map(|&(v, n)| std::iter::repeat(v).take(n)).collect()
}

/// A read of the updates after `from`, at most `limit` of them unless one version is wider:
/// `(versions served, max state version, has more)`.
fn read_updates(rows: &[u64], from: u64, limit: u32) -> (Vec<u64>, u64, bool) {
    let after: Vec<u64> = rows.iter().copied().filter(|v| *v > from).collect();
    let read: Vec<u64> = after.iter().copied().take(limit as usize + 1).collect();
    let (served, has_more) = match cut_page(&read, limit) {
        UtxoPageCut::Complete => (read, false),
        UtxoPageCut::TruncateTo(n) => (read[..n].to_vec(), true),
        UtxoPageCut::WholeVersion(v) => (after.iter().copied().filter(|x| *x == v).collect(), true),
    };
    let max = if served.is_empty() { from } else { page_max_state_version(&served) };
    (served, max, has_more)
}

#[test]
fn a_read_stops_on_a_version_boundary_not_mid_version() {
    // Limit 4 falls inside the 3-row group at version 20.
    let rows = table(&[(10, 2), (20, 3), (30, 1)]);
    let (served, max, has_more) = read_updates(&rows, 0, 4);
    assert!(has_more);
    // Version 20 is held back whole rather than half-served.
    assert_eq!(max, 10);
    assert_eq!(served.len(), 2);
    assert_eq!(cut_page(&vec![10, 10, 20, 20, 20], 4), UtxoPageCut::TruncateTo(2));
}

#[test]
fn resuming_from_the_reported_version_loses_no_update() {
    let rows = table(&[(10, 2), (20, 3), (30, 1)]);
    let mut seen = 0;
    let mut cursor = 0;
    loop {
        let (served, max, has_more) = read_updates(&rows, cursor, 4);
        seen += served.len();
        cursor = max;
        if !has_more {
            break;
        }
    }
    assert_eq!(seen, 6);
}

#[test]
fn a_version_wider_than_the_limit_is_served_whole() {
    // No complete earlier version to stop at, so the limit gives way rather than the read
    // returning nothing and stranding the cursor.
    let rows = table(&[(10, 5), (20, 1)]);
    let (served, max, has_more) = read_updates(&rows, 0, 2);
    assert_eq!(served.len(), 5);
    assert_eq!(max, 10);
    assert!(has_more);
    assert_eq!(cut_page(&vec![10, 10, 10], 2), UtxoPageCut::WholeVersion(10));
}

#[test]
fn a_drained_read_reports_no_more() {
    let rows = table(&[(10, 2), (20, 1)]);
    let (served, max, has_more) = read_updates(&rows, 0, 10);
    assert!(!has_more);
    assert_eq!(served.len(), 3);
    assert_eq!(max, 20);
    assert_eq!(page_max_state_version(&vec![]), 0);
}

#[test]
fn a_page_reports_the_highest_epoch_it_read() {
    assert_eq!(page_max_epoch(&vec![]), 0);
    assert_eq!(page_max_epoch(&vec![4, 9, 2, 9, 7]), 9);
    assert_eq!(page_max_epoch(&vec![3]), 3);
}

use tari_indexer::event_scan::{follow_events_from, versions_missing_events};

#[test]
fn only_versions_without_stored_events_are_fetched() {
    assert_eq!(versions_missing_events(5, &vec![1, 3, 7]), vec![0, 2, 4]);
    assert_eq!(versions_missing_events(0, &vec![1]), Vec::<u32>::new());
    assert_eq!(versions_missing_events(3, &vec![]), vec![0, 1, 2]);
}

#[test]
fn later_events_are_followed_from_the_highest_known_version() {
    assert_eq!(follow_events_from(5, &vec![1, 3, 7]), 7);
    assert_eq!(follow_events_from(9, &vec![1, 3, 7]), 9);
    assert_eq!(follow_events_from(0, &vec![]), 0);
}

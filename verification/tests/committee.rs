use tari_indexer::committee::{ValidatorNode, committee_positions, epoch_range, is_epoch_valid, key_less_than};

fn vns(keys: &[u8]) -> Vec<ValidatorNode> {
    keys.iter()
        .map(|k| ValidatorNode { public_key: vec![*k], shard_key: vec![*k, 0] })
        .collect()
}

#[test]
fn a_small_epoch_serves_every_shard_with_everyone() {
    let nodes = vns(&[10, 20, 30]);
    assert_eq!(committee_positions(&nodes, &vec![25], 4), vec![0, 1, 2]);
}

#[test]
fn a_committee_is_centred_on_the_shard() {
    // Seven validators, committee of four: half is two, so one below the shard and two from it.
    let nodes = vns(&[10, 20, 30, 40, 50, 60, 70]);
    assert_eq!(committee_positions(&nodes, &vec![35], 4), vec![2, 3, 4]);
    assert_eq!(committee_positions(&nodes, &vec![35], 5), vec![1, 2, 3, 4, 5]);
}

#[test]
fn a_committee_wraps_around_the_ring() {
    let nodes = vns(&[10, 20, 30, 40, 50, 60, 70]);
    assert_eq!(committee_positions(&nodes, &vec![5], 4), vec![6, 0, 1]);
    assert_eq!(committee_positions(&nodes, &vec![65], 4), vec![5, 6, 0]);
}

#[test]
fn shard_keys_compare_lexicographically() {
    assert!(key_less_than(&[1, 2], &[1, 3]));
    assert!(key_less_than(&[1], &[1, 0]));
    assert!(!key_less_than(&[2], &[1, 9]));
    assert!(!key_less_than(&[1, 2], &[1, 2]));
}

#[test]
fn epochs_within_ten_are_valid() {
    assert!(is_epoch_valid(20, 10));
    assert!(is_epoch_valid(20, 30));
    assert!(!is_epoch_valid(20, 9));
    assert!(!is_epoch_valid(20, 31));
}

#[test]
fn registrations_expire_after_the_configured_epochs() {
    assert_eq!(epoch_range(10, 3), (7, 10));
    assert_eq!(epoch_range(2, 3), (0, 2));
}

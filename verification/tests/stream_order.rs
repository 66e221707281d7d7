use tari_indexer::stream_order::{
    EpochNotice, NetworkDescription, PlanReaction, ShardCursor, StreamOrder, StreamOrderError, SyncProgress,
    cursors_for, plan_absorbs_epoch, react_to_epoch_notice,
};
use tari_indexer::types::{Epoch, Shard, ShardGroup, StateVersion};

fn network(epoch: u64, groups: &[ShardGroup]) -> NetworkDescription {
    NetworkDescription { epoch: Epoch(epoch), shard_groups: groups.to_vec() }
}

fn partition(groups: &[ShardGroup]) -> Vec<ShardGroup> {
    groups.to_vec()
}

fn whole() -> ShardGroup {
    ShardGroup::new(1u32, 256)
}

#[test]
fn an_epoch_that_keeps_the_partition_is_absorbed() {
    assert!(plan_absorbs_epoch(Epoch(3), &partition(&[whole()]), &network(4, &[whole()])));
}

#[test]
fn a_changed_partition_draws_a_new_plan() {
    let split = [ShardGroup::new(1u32, 128), ShardGroup::new(129u32, 256)];
    assert!(!plan_absorbs_epoch(Epoch(3), &partition(&[whole()]), &network(4, &split)));
}

#[test]
fn a_plan_drawn_at_epoch_zero_never_absorbs_the_first_epoch() {
    assert!(!plan_absorbs_epoch(Epoch(0), &partition(&[whole()]), &network(1, &[whole()])));
}

#[test]
fn a_partition_is_compared_as_a_set() {
    let split = [ShardGroup::new(1u32, 128), ShardGroup::new(129u32, 256)];
    let reversed = [split[1], split[0], split[1]];
    assert!(plan_absorbs_epoch(Epoch(5), &partition(&reversed), &network(6, &split)));
    assert!(!plan_absorbs_epoch(Epoch(5), &partition(&split[..1]), &network(6, &split)));
}

const S1: Shard = Shard(1);
const S2: Shard = Shard(2);

fn order(cursors: &[(u32, u64)]) -> StreamOrder {
    let cursors = cursors
        .iter()
        .map(|&(shard, start_state_version)| ShardCursor { shard, start_state_version })
        .collect::<Vec<_>>();
    StreamOrder::new(&cursors)
}

fn v(n: u64) -> StateVersion {
    StateVersion::new(n)
}

#[test]
fn it_accepts_shards_streamed_one_after_another() {
    let mut o = order(&[(1, 1), (2, 1)]);
    o.accept_batch(S1, v(1), false).unwrap();
    o.accept_batch(S1, v(4), false).unwrap();
    o.accept_marker(S1).unwrap();
    o.accept_batch(S2, v(7), false).unwrap();
    o.accept_marker(S2).unwrap();
}

#[test]
fn it_accepts_a_version_split_across_chunks() {
    let mut o = order(&[(1, 1)]);
    o.accept_batch(S1, v(3), true).unwrap();
    o.accept_batch(S1, v(3), true).unwrap();
    o.accept_batch(S1, v(3), false).unwrap();
    o.accept_marker(S1).unwrap();
}

#[test]
fn it_rejects_a_version_below_the_cursor() {
    assert!(order(&[(1, 5)]).accept_batch(S1, v(3), false).is_err());
    assert!(order(&[(1, 5)]).accept_batch(S1, v(4), false).is_err());
    order(&[(1, 5)]).accept_batch(S1, v(5), false).unwrap();
}

#[test]
fn it_rejects_a_replayed_version() {
    let mut o = order(&[(1, 1)]);
    o.accept_batch(S1, v(9), false).unwrap();
    assert!(o.accept_batch(S1, v(9), false).is_err());
}

#[test]
fn it_rejects_a_regressing_version() {
    let mut o = order(&[(1, 1)]);
    o.accept_batch(S1, v(9), false).unwrap();
    assert!(o.accept_batch(S1, v(8), false).is_err());
}

#[test]
fn it_accepts_a_followed_shard_streamed_again_after_its_marker() {
    let mut o = order(&[(1, 1), (2, 1)]);
    o.accept_batch(S1, v(2), false).unwrap();
    o.accept_marker(S1).unwrap();
    o.accept_marker(S2).unwrap();
    o.accept_batch(S1, v(3), false).unwrap();
    o.accept_marker(S1).unwrap();
    o.accept_marker(S1).unwrap();
    assert!(o.accept_batch(S1, v(3), false).is_err());
}

#[test]
fn it_rejects_an_interleaved_shard_mid_version() {
    let mut o = order(&[(1, 1), (2, 1)]);
    o.accept_batch(S1, v(3), true).unwrap();
    assert!(o.accept_batch(S2, v(1), false).is_err());
}

#[test]
fn it_rejects_a_marker_while_a_version_is_incomplete() {
    let mut o = order(&[(1, 1)]);
    o.accept_batch(S1, v(3), true).unwrap();
    assert!(o.accept_marker(S1).is_err());
}

#[test]
fn it_rejects_unrequested_shards() {
    assert!(order(&[(1, 1)]).accept_batch(S2, v(1), false).is_err());
    assert!(order(&[(1, 1)]).accept_marker(S2).is_err());
}

#[test]
fn each_refusal_names_its_reason() {
    let mut o = order(&[(1, 5), (2, 1)]);
    assert_eq!(
        o.accept_batch(S1, v(4), false),
        Err(StreamOrderError::NotAhead { shard: 1, state_version: 4, committed_version: 4 })
    );
    assert_eq!(o.accept_batch(Shard(3), v(1), false), Err(StreamOrderError::UnrequestedBatch { shard: 3 }));
    o.accept_batch(S1, v(6), true).unwrap();
    assert_eq!(
        o.accept_batch(S2, v(2), false),
        Err(StreamOrderError::Interleaved { shard: 2, state_version: 2, pending_shard: 1, pending_version: 6 })
    );
    assert_eq!(
        o.accept_marker(S2),
        Err(StreamOrderError::MarkerWhileIncomplete { shard: 2, pending_shard: 1, pending_version: 6 })
    );
    assert_eq!(o.accept_marker(Shard(3)), Err(StreamOrderError::UnrequestedMarker { shard: 3 }));
}

#[test]
fn a_cursor_of_zero_holds_nothing_below_it() {
    let mut o = order(&[(1, 0)]);
    assert!(o.accept_batch(S1, v(0), false).is_err());
    o.accept_batch(S1, v(1), false).unwrap();
}

#[test]
fn cursors_resume_after_the_recorded_version() {
    let mut progress = SyncProgress::new();
    progress.set_last_state_version(Shard(2), StateVersion::new(41));
    let cursors = cursors_for(&[Shard(1), Shard(2)], &progress);
    assert_eq!(
        cursors,
        vec![
            ShardCursor { shard: 1, start_state_version: 1 },
            ShardCursor { shard: 2, start_state_version: 42 }
        ]
    );
    assert_eq!(progress.last_state_version(Shard(2)), Some(StateVersion::new(41)));
    assert_eq!(progress.last_state_version(Shard(1)), None);
}

#[test]
fn a_running_plan_meets_each_epoch_notice() {
    let halves = [ShardGroup::new(1u32, 128), ShardGroup::new(129u32, 256)];
    let plan = partition(&[whole()]);
    let same = EpochNotice::EpochChanged { description: Some(network(5, &[whole()])) };
    assert_eq!(react_to_epoch_notice(Epoch(4), &plan, &same), PlanReaction::Continue { epoch: Epoch(5) });
    let split = EpochNotice::EpochChanged { description: Some(network(5, &halves)) };
    assert_eq!(react_to_epoch_notice(Epoch(4), &plan, &split), PlanReaction::Replan);
    assert_eq!(react_to_epoch_notice(Epoch(0), &plan, &same), PlanReaction::Replan);
    let unread = EpochNotice::EpochChanged { description: None };
    assert_eq!(react_to_epoch_notice(Epoch(4), &plan, &unread), PlanReaction::Replan);
    assert_eq!(react_to_epoch_notice(Epoch(4), &plan, &EpochNotice::Lagged), PlanReaction::Replan);
    assert_eq!(react_to_epoch_notice(Epoch(4), &plan, &EpochNotice::Closed), PlanReaction::Stop);
}

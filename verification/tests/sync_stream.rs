use tari_indexer::stream_order::{ShardCursor, StreamOrderError};
use tari_indexer::sync_stream::{
    CheckpointCheck, NextRound, RoundOutcome, StreamAction, StreamConsumer, StreamEnd, StreamEvent, StreamFailure,
    checkpoint_check, checkpoint_range, follows_after_head_fetch, from_scratch_cursors, next_round,
};
use tari_indexer::types::{Epoch, Shard, StateVersion};

fn consumer(follow: bool) -> StreamConsumer {
    StreamConsumer::new(
        &[
            ShardCursor { shard: 1, start_state_version: 1 },
            ShardCursor { shard: 2, start_state_version: 5 },
        ],
        follow,
    )
}

fn batch(shard: u32, version: u64, has_more: bool) -> StreamEvent {
    StreamEvent::Batch {
        shard: Shard(shard),
        state_version: StateVersion(version),
        epoch: Some(Epoch(3)),
        has_more,
    }
}

fn complete(shard: u32, synced_to: u64, last_recorded: Option<u64>, is_final: bool) -> StreamEvent {
    StreamEvent::Complete {
        shard: Shard(shard),
        synced_to: StateVersion(synced_to),
        epoch: Some(Epoch(3)),
        is_final,
        last_recorded: last_recorded.map(StateVersion),
    }
}

#[test]
fn a_split_version_is_committed_once_whole() {
    let mut c = consumer(true);
    assert_eq!(
        c.consume(batch(1, 2, true)),
        StreamAction::ApplyBatch { shard: Shard(1), state_version: StateVersion(2), epoch: Epoch(3), commit: false }
    );
    assert_eq!(
        c.consume(batch(1, 2, false)),
        StreamAction::ApplyBatch { shard: Shard(1), state_version: StateVersion(2), epoch: Epoch(3), commit: true }
    );
    assert_eq!(
        c.consume(batch(1, 2, false)),
        StreamAction::Fail(StreamFailure::Unordered(StreamOrderError::NotAhead {
            shard: 1,
            state_version: 2,
            committed_version: 2
        }))
    );
}

#[test]
fn a_marker_persists_only_an_advance_and_levels_its_shard() {
    let mut c = consumer(true);
    assert_eq!(
        c.consume(complete(2, 4, Some(4), false)),
        StreamAction::CompleteShard {
            shard: Shard(2),
            synced_to: StateVersion(4),
            epoch: Epoch(3),
            persist: false,
            is_final: false
        }
    );
    assert_eq!(
        c.consume(complete(1, 9, Some(4), true)),
        StreamAction::CompleteShard {
            shard: Shard(1),
            synced_to: StateVersion(9),
            epoch: Epoch(3),
            persist: true,
            is_final: true
        }
    );
    assert_eq!(c.consume(StreamEvent::Keepalive), StreamAction::RefreshWatermarks(vec![2, 1]));
    c.consume(complete(2, 4, None, false));
    assert_eq!(c.level_shards(), vec![2, 1]);
}

#[test]
fn a_keepalive_before_any_marker_refreshes_nothing() {
    let mut c = consumer(true);
    c.consume(batch(1, 1, false));
    assert_eq!(c.consume(StreamEvent::Keepalive), StreamAction::RefreshWatermarks(vec![]));
}

#[test]
fn a_followed_stream_times_out_and_a_closed_one_fails() {
    let mut followed = consumer(true);
    assert_eq!(followed.consume(StreamEvent::Failed { timeout: true }), StreamAction::End(StreamEnd::TimedOut));
    assert_eq!(
        followed.consume(StreamEvent::Closed),
        StreamAction::Fail(StreamFailure::ClosedByResponder { followed: true })
    );
    let mut once = consumer(false);
    assert_eq!(once.consume(StreamEvent::Failed { timeout: true }), StreamAction::Fail(StreamFailure::Rpc));
    assert_eq!(once.consume(StreamEvent::Cancelled), StreamAction::End(StreamEnd::Cancelled));
    assert_eq!(once.consume(StreamEvent::EpochChanged), StreamAction::End(StreamEnd::EpochAdvanced));
    assert_eq!(once.consume(StreamEvent::EmptyResponse), StreamAction::Fail(StreamFailure::EmptyResponse));
}

#[test]
fn messages_without_an_epoch_fail_the_stream() {
    let mut c = consumer(true);
    let no_epoch = StreamEvent::Batch { shard: Shard(1), state_version: StateVersion(1), epoch: None, has_more: false };
    assert_eq!(c.consume(no_epoch), StreamAction::Fail(StreamFailure::BatchWithoutEpoch));
    let no_epoch = StreamEvent::Complete {
        shard: Shard(2),
        synced_to: StateVersion(1),
        epoch: None,
        is_final: false,
        last_recorded: None,
    };
    assert_eq!(c.consume(no_epoch), StreamAction::Fail(StreamFailure::CompletionWithoutEpoch));
}

#[test]
fn only_never_synced_shards_fetch_their_head() {
    let cursors = vec![
        ShardCursor { shard: 0, start_state_version: 1 },
        ShardCursor { shard: 1, start_state_version: 8 },
        ShardCursor { shard: 2, start_state_version: 1 },
    ];
    assert_eq!(from_scratch_cursors(&cursors), vec![cursors[0], cursors[2]]);
    assert!(follows_after_head_fetch(StreamEnd::Final));
    assert!(!follows_after_head_fetch(StreamEnd::Cancelled));
    assert!(!follows_after_head_fetch(StreamEnd::EpochAdvanced));
}

#[test]
fn a_group_reopens_pauses_or_stops_by_how_its_round_ended() {
    assert_eq!(next_round(RoundOutcome::Ended(StreamEnd::Cancelled)), NextRound::Stop);
    assert_eq!(next_round(RoundOutcome::Ended(StreamEnd::TimedOut)), NextRound::Reopen);
    assert_eq!(next_round(RoundOutcome::Ended(StreamEnd::EpochAdvanced)), NextRound::Reopen);
    assert_eq!(next_round(RoundOutcome::Ended(StreamEnd::Final)), NextRound::PauseThenReopen);
    assert_eq!(next_round(RoundOutcome::PeerFault), NextRound::PauseThenReopen);
    assert_eq!(next_round(RoundOutcome::OtherFailure), NextRound::Abort);
}

#[test]
fn checkpoints_are_synced_up_to_the_previous_epoch() {
    assert_eq!(checkpoint_range(Epoch(0), None), None);
    assert_eq!(checkpoint_range(Epoch(5), None), Some((Epoch(0), Epoch(4))));
    assert_eq!(checkpoint_range(Epoch(5), Some(Epoch(2))), Some((Epoch(2), Epoch(4))));
    assert_eq!(checkpoint_range(Epoch(5), Some(Epoch(4))), None);
    assert_eq!(checkpoint_check(Epoch(4), Epoch(4)), CheckpointCheck::AgainstCommittee);
    assert_eq!(checkpoint_check(Epoch(3), Epoch(4)), CheckpointCheck::WellFormedOnly);
}

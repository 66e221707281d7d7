//! The decisions of a shard group's state sync, apart from the network and storage work they order.
//!
//! A shard group syncs its checkpoints, opens a stream of its shards' transitions from a committee
//! member, follows it until it ends and goes round again. The stream's messages are taken one at a
//! time: each is answered with what to do next, and the caller does it. The ordering checks of
//! [`StreamOrder`] stand between every message and what it is allowed to change.

use vstd::prelude::*;

use crate::stream_order::{
    ShardCursor, StreamOrder, StreamOrderError, order_wf, spec_accept_batch, spec_accept_marker,
    StreamOrderView, lemma_accept_batch_keeps_order_consistent, lemma_committed_versions_strictly_advance,
    lemma_requested_shards_are_fixed,
};
use crate::types::{Epoch, Shard, StateVersion};

verus! {

/// How a stream ended without failing.
#[derive(Debug, Clone, Copy, PartialEq, Eq, Structural)]
pub enum StreamEnd {
    /// The responder closed it with a final completion marker: it streamed to its tip and does not
    /// follow.
    Final,
    /// A followed stream was abandoned by the responder after it had nothing to send for the
    /// deadline.
    TimedOut,
    /// The epoch moved while the stream was open.
    EpochAdvanced,
    /// The plan is being wound down.
    Cancelled,
}

/// Why a stream failed.
#[derive(Debug, Clone, Copy, PartialEq, Eq, Structural)]
pub enum StreamFailure {
    /// The responder broke the ordering the stream promises.
    Unordered(StreamOrderError),
    /// A completion marker carried no epoch.
    CompletionWithoutEpoch,
    /// A batch carried no epoch.
    BatchWithoutEpoch,
    /// A response had no variant set.
    EmptyResponse,
    /// The responder closed the stream without a final marker; `followed` says whether the stream
    /// was a followed one.
    ClosedByResponder { followed: bool },
    /// The stream itself failed.
    Rpc,
}

/// What happened on a stream, as the caller observed it.
#[derive(Debug, Clone, Copy, PartialEq, Eq, Structural)]
pub enum StreamEvent {
    /// The plan is being wound down.
    Cancelled,
    /// The epoch moved.
    EpochChanged,
    /// The responder says it is there and has nothing to send.
    Keepalive,
    /// The stream ended.
    Closed,
    /// The stream failed; `timeout` when it was abandoned for the deadline.
    Failed { timeout: bool },
    /// A response with no variant set.
    EmptyResponse,
    /// A completion marker: `shard` is synced to `synced_to` at `epoch`; `last_recorded` is the
    /// version recorded for the shard when the marker arrived.
    Complete {
        shard: Shard,
        synced_to: StateVersion,
        epoch: Option<Epoch>,
        is_final: bool,
        last_recorded: Option<StateVersion>,
    },
    /// A batch of `shard`'s transitions at `state_version`, continued in a later chunk if
    /// `has_more`.
    Batch { shard: Shard, state_version: StateVersion, epoch: Option<Epoch>, has_more: bool },
}

/// What the caller does next.
#[derive(Debug, Clone, PartialEq, Eq)]
pub enum StreamAction {
    /// End the stream.
    End(StreamEnd),
    /// Fail the stream.
    Fail(StreamFailure),
    /// Re-stamp the watermarks of these shards as confirmed now.
    RefreshWatermarks(Vec<u32>),
    /// `shard` is level with its committee at `synced_to`: record that as its progress if `persist`,
    /// confirm its watermark, and end the stream if `is_final`.
    CompleteShard { shard: Shard, synced_to: StateVersion, epoch: Epoch, persist: bool, is_final: bool },
    /// Take in the batch's updates; if `commit`, the version is whole: commit it with the shard's
    /// progress and start the next one afresh.
    ApplyBatch { shard: Shard, state_version: StateVersion, epoch: Epoch, commit: bool },
}

/// The abstract state of a stream's consumer: the ordering state and the shards closed off on
/// this stream, in the order they first were.
pub struct ConsumerView {
    pub order: StreamOrderView,
    pub level_shards: Seq<u32>,
    pub follow: bool,
}

/// Whether a completion marker at `synced_to` moves the recorded progress: it does unless the
/// shard is already recorded at or above it.
pub open spec fn marker_advances(synced_to: StateVersion, last_recorded: Option<StateVersion>) -> bool {
    !(last_recorded matches Some(v) && synced_to.0 <= v.0)
}

pub open spec fn add_level(level: Seq<u32>, shard: u32) -> Seq<u32> {
    if level.contains(shard) {
        level
    } else {
        level.push(shard)
    }
}

/// The consumer's answer to `event` in the state `v`, and the state after it.
pub open spec fn spec_consume(v: ConsumerView, event: StreamEvent) -> (ConsumerView, StreamAction) {
    match event {
        StreamEvent::Cancelled => (v, StreamAction::End(StreamEnd::Cancelled)),
        StreamEvent::EpochChanged => (v, StreamAction::End(StreamEnd::EpochAdvanced)),
        StreamEvent::Keepalive => (v, StreamAction::RefreshWatermarks(arbitrary())),
        StreamEvent::Closed => (
            v,
            StreamAction::Fail(StreamFailure::ClosedByResponder { followed: v.follow }),
        ),
        StreamEvent::Failed { timeout } => if v.follow && timeout {
            (v, StreamAction::End(StreamEnd::TimedOut))
        } else {
            (v, StreamAction::Fail(StreamFailure::Rpc))
        },
        StreamEvent::EmptyResponse => (v, StreamAction::Fail(StreamFailure::EmptyResponse)),
        StreamEvent::Complete { shard, synced_to, epoch, is_final, last_recorded } => {
            match spec_accept_marker(v.order, shard.0) {
                Some(e) => (v, StreamAction::Fail(StreamFailure::Unordered(e))),
                None => match epoch {
                    None => (v, StreamAction::Fail(StreamFailure::CompletionWithoutEpoch)),
                    Some(epoch) => (
                        ConsumerView { level_shards: add_level(v.level_shards, shard.0), ..v },
                        StreamAction::CompleteShard {
                            shard,
                            synced_to,
                            epoch,
                            persist: marker_advances(synced_to, last_recorded),
                            is_final,
                        },
                    ),
                },
            }
        },
        StreamEvent::Batch { shard, state_version, epoch, has_more } => {
            let (next, err) = spec_accept_batch(v.order, shard.0, state_version.0, has_more);
            match err {
                Some(e) => (v, StreamAction::Fail(StreamFailure::Unordered(e))),
                None => match epoch {
                    None => (
                        ConsumerView { order: next, ..v },
                        StreamAction::Fail(StreamFailure::BatchWithoutEpoch),
                    ),
                    Some(epoch) => (
                        ConsumerView { order: next, ..v },
                        StreamAction::ApplyBatch { shard, state_version, epoch, commit: !has_more },
                    ),
                },
            }
        },
    }
}

/// Consumes one shard-state stream, message by message.
pub struct StreamConsumer {
    order: StreamOrder,
    level_shards: Vec<u32>,
    follow: bool,
}

impl View for StreamConsumer {
    type V = ConsumerView;

    closed spec fn view(&self) -> ConsumerView {
        ConsumerView { order: self.order@, level_shards: self.level_shards@, follow: self.follow }
    }
}

pub open spec fn consumer_wf(v: ConsumerView) -> bool {
    &&& order_wf(v.order)
    &&& v.level_shards.no_duplicates()
    &&& forall|i: int| 0 <= i < v.level_shards.len() ==> v.order.committed.contains_key(
        #[trigger] v.level_shards[i],
    )
}

impl StreamConsumer {
    /// A consumer of a stream opened with `cursors`, following the responder's tip if `follow`.
    pub fn new(cursors: &[ShardCursor], follow: bool) -> (c: StreamConsumer)
        ensures
            c@.order.committed == crate::stream_order::seeded_versions(cursors@),
            c@.order.pending.is_none(),
            c@.level_shards.len() == 0,
            c@.follow == follow,
            consumer_wf(c@),
    {
        StreamConsumer { order: StreamOrder::new(cursors), level_shards: Vec::new(), follow }
    }

    /// The shards closed off on this stream so far.
    pub fn level_shards(&self) -> (shards: Vec<u32>)
        ensures
            shards@ == self@.level_shards,
    {
        self.level_shards.clone()
    }

    /// Answers `event` with what the caller does next. A keepalive re-stamps exactly the shards
    /// closed off on this stream; a shard still being caught up is not level, keepalive or not.
    pub fn consume(&mut self, event: StreamEvent) -> (action: StreamAction)
        requires
            consumer_wf(old(self)@),
        ensures
            consumer_wf(final(self)@),
            final(self)@ == spec_consume(old(self)@, event).0,
            event is Keepalive ==> (action matches StreamAction::RefreshWatermarks(shards)
                && shards@ == old(self)@.level_shards),
            !(event is Keepalive) ==> action == spec_consume(old(self)@, event).1,
    {
        match event {
            StreamEvent::Cancelled => StreamAction::End(StreamEnd::Cancelled),
            StreamEvent::EpochChanged => StreamAction::End(StreamEnd::EpochAdvanced),
            StreamEvent::Keepalive => StreamAction::RefreshWatermarks(self.level_shards.clone()),
            StreamEvent::Closed => StreamAction::Fail(
                StreamFailure::ClosedByResponder { followed: self.follow },
            ),
            StreamEvent::Failed { timeout } => {
                if self.follow && timeout {
                    StreamAction::End(StreamEnd::TimedOut)
                } else {
                    StreamAction::Fail(StreamFailure::Rpc)
                }
            },
            StreamEvent::EmptyResponse => StreamAction::Fail(StreamFailure::EmptyResponse),
            StreamEvent::Complete { shard, synced_to, epoch, is_final, last_recorded } => {
                if let Err(e) = self.order.accept_marker(shard) {
                    return StreamAction::Fail(StreamFailure::Unordered(e));
                }
                let epoch = match epoch {
                    Some(e) => e,
                    None => {
                        return StreamAction::Fail(StreamFailure::CompletionWithoutEpoch);
                    },
                };
                let persist = match last_recorded {
                    Some(v) => !(synced_to.0 <= v.0),
                    None => true,
                };
                self.add_level_shard(shard.0);
                StreamAction::CompleteShard { shard, synced_to, epoch, persist, is_final }
            },
            StreamEvent::Batch { shard, state_version, epoch, has_more } => {
                if let Err(e) = self.order.accept_batch(shard, state_version, has_more) {
                    return StreamAction::Fail(StreamFailure::Unordered(e));
                }
                match epoch {
                    Some(epoch) => StreamAction::ApplyBatch {
                        shard,
                        state_version,
                        epoch,
                        commit: !has_more,
                    },
                    None => StreamAction::Fail(StreamFailure::BatchWithoutEpoch),
                }
            },
        }
    }

    fn add_level_shard(&mut self, shard: u32)
        requires
            consumer_wf(old(self)@),
            old(self)@.order.committed.contains_key(shard),
        ensures
            final(self)@.order == old(self)@.order,
            final(self)@.follow == old(self)@.follow,
            final(self)@.level_shards == add_level(old(self)@.level_shards, shard),
            consumer_wf(final(self)@),
    {
        let mut i: usize = 0;
        while i < self.level_shards.len()
            invariant
                i <= self.level_shards@.len(),
                self@ == old(self)@,
                consumer_wf(self@),
                forall|j: int| 0 <= j < i ==> self.level_shards@[j] != shard,
            decreases self.level_shards@.len() - i,
        {
            if self.level_shards[i] == shard {
                assert(self.level_shards@.contains(shard));
                return;
            }
            i = i + 1;
        }
        self.level_shards.push(shard);
    }
}

/// Only a shard that was requested and is closed off on this stream is ever re-stamped by a
/// keepalive, and a shard stays level once it was: no later message takes it off the list.
pub proof fn lemma_level_shards_only_grow(v: ConsumerView, event: StreamEvent)
    requires
        consumer_wf(v),
    ensures
        forall|i: int| 0 <= i < v.level_shards.len() ==> spec_consume(v, event).0.level_shards.contains(
            #[trigger] v.level_shards[i],
        ),
        (event matches StreamEvent::Complete { shard, .. } ==> (spec_consume(v, event).1 is CompleteShard
            ==> spec_consume(v, event).0.level_shards.contains(shard.0))),
{
    let next = spec_consume(v, event).0;
    assert forall|i: int| 0 <= i < v.level_shards.len() implies next.level_shards.contains(
        #[trigger] v.level_shards[i],
    ) by {
        if next.level_shards != v.level_shards {
            assert(next.level_shards[i] == v.level_shards[i]);
        }
    }
    if let StreamEvent::Complete { shard, .. } = event {
        if spec_consume(v, event).1 is CompleteShard && !v.level_shards.contains(shard.0) {
            assert(next.level_shards[next.level_shards.len() - 1] == shard.0);
        }
    }
}

/// A batch is taken in only when the ordering accepts it, and committed exactly when its version is
/// whole; every committed version is strictly ahead of the one its shard had committed.
pub proof fn lemma_applied_batches_respect_the_order(v: ConsumerView, event: StreamEvent)
    requires
        consumer_wf(v),
        spec_consume(v, event).1 is ApplyBatch,
    ensures
        (event matches StreamEvent::Batch { shard, state_version, has_more, epoch } && {
            &&& spec_accept_batch(v.order, shard.0, state_version.0, has_more).1.is_none()
            &&& v.order.committed[shard.0] < state_version.0
            &&& spec_consume(v, event).1 == StreamAction::ApplyBatch {
                shard,
                state_version,
                epoch: epoch.unwrap(),
                commit: !has_more,
            }
        }),
{
}

/// Whether an action ends the stream: an end, a failure, or a shard closed off by the final
/// completion marker.
pub open spec fn ends_stream(a: StreamAction) -> bool {
    ||| a is End
    ||| a is Fail
    ||| (a matches StreamAction::CompleteShard { is_final, .. } && is_final)
}

/// The actions a consumer in state `v` answers the messages `events` with, in order, up to and
/// including the first that ends the stream.
pub open spec fn stream_actions(v: ConsumerView, events: Seq<StreamEvent>) -> Seq<StreamAction>
    decreases events.len(),
{
    if events.len() == 0 {
        Seq::empty()
    } else {
        let (next, a) = spec_consume(v, events[0]);
        if ends_stream(a) {
            seq![a]
        } else {
            seq![a] + stream_actions(next, events.drop_first())
        }
    }
}

/// Answering a message keeps a consumer consistent.
pub proof fn lemma_consume_keeps_consumer_wf(v: ConsumerView, event: StreamEvent)
    requires
        consumer_wf(v),
    ensures
        consumer_wf(spec_consume(v, event).0),
{
    let next = spec_consume(v, event).0;
    match event {
        StreamEvent::Batch { shard, state_version, epoch, has_more } => {
            lemma_accept_batch_keeps_order_consistent(v.order, shard.0, state_version.0, has_more);
            lemma_requested_shards_are_fixed(v.order, shard.0, state_version.0, has_more);
            assert forall|i: int| 0 <= i < next.level_shards.len() implies next.order.committed.contains_key(
                #[trigger] next.level_shards[i],
            ) by {
                assert(v.order.committed.contains_key(v.level_shards[i]));
            }
        },
        StreamEvent::Complete { shard, .. } => {
            if !v.level_shards.contains(shard.0) && next.level_shards != v.level_shards {
                assert forall|i: int, j: int|
                    0 <= i < j < next.level_shards.len() implies next.level_shards[i]
                    != next.level_shards[j] by {
                    if j == next.level_shards.len() - 1 {
                        assert(v.level_shards[i] == next.level_shards[i]);
                    }
                }
                assert forall|i: int| 0 <= i < next.level_shards.len() implies next.order.committed.contains_key(
                    #[trigger] next.level_shards[i],
                ) by {
                    if i < v.level_shards.len() {
                        assert(next.level_shards[i] == v.level_shards[i]);
                    }
                }
            }
        },
        _ => {},
    }
}

/// Every batch taken in over a stream is ahead of what its shard had committed when the stream
/// reached that state.
proof fn lemma_stream_batches_are_ahead(v: ConsumerView, events: Seq<StreamEvent>)
    requires
        consumer_wf(v),
    ensures
        forall|k: int|
            0 <= k < stream_actions(v, events).len() ==> (#[trigger] stream_actions(v, events)[k] matches StreamAction::ApplyBatch {
                shard,
                state_version,
                ..
            } ==> v.order.committed.contains_key(shard.0) && v.order.committed[shard.0] < state_version.0),
    decreases events.len(),
{
    if events.len() > 0 {
        let (next, a) = spec_consume(v, events[0]);
        let acts = stream_actions(v, events);
        if a is ApplyBatch {
            lemma_applied_batches_respect_the_order(v, events[0]);
        }
        if !ends_stream(a) {
            lemma_consume_keeps_consumer_wf(v, events[0]);
            lemma_stream_batches_are_ahead(next, events.drop_first());
            let rest = stream_actions(next, events.drop_first());
            if let StreamEvent::Batch { shard, state_version, epoch, has_more } = events[0] {
                lemma_committed_versions_strictly_advance(v.order, shard.0, state_version.0, has_more);
                lemma_requested_shards_are_fixed(v.order, shard.0, state_version.0, has_more);
            }
            assert forall|k: int| 0 <= k < acts.len() implies (#[trigger] acts[k] matches StreamAction::ApplyBatch {
                shard,
                state_version,
                ..
            } ==> v.order.committed.contains_key(shard.0) && v.order.committed[shard.0] < state_version.0) by {
                if k > 0 {
                    assert(acts[k] == rest[k - 1]);
                }
            }
        }
    }
}

/// Over a whole stream, a shard's versions are committed at most once each and in ascending order:
/// once a version of a shard is committed (a batch that completes it), every batch of that shard
/// taken in later is for a higher version. Nothing is answered after the action that ends the
/// stream.
pub proof fn lemma_a_stream_commits_each_version_once(v: ConsumerView, events: Seq<StreamEvent>)
    requires
        consumer_wf(v),
    ensures
        ({
            let acts = stream_actions(v, events);
            &&& forall|i: int, j: int|
                0 <= i < j < acts.len() ==> (#[trigger] acts[i] matches StreamAction::ApplyBatch {
                    shard: s1,
                    state_version: x,
                    commit: true,
                    ..
                } ==> (#[trigger] acts[j] matches StreamAction::ApplyBatch {
                    shard: s2,
                    state_version: y,
                    ..
                } ==> s1 != s2 || x.0 < y.0))
            &&& forall|i: int| 0 <= i < acts.len() - 1 ==> !ends_stream(#[trigger] acts[i])
            &&& acts.len() <= events.len()
        }),
    decreases events.len(),
{
    if events.len() > 0 {
        let (next, a) = spec_consume(v, events[0]);
        let acts = stream_actions(v, events);
        if !ends_stream(a) {
            lemma_consume_keeps_consumer_wf(v, events[0]);
            lemma_a_stream_commits_each_version_once(next, events.drop_first());
            lemma_stream_batches_are_ahead(next, events.drop_first());
            let rest = stream_actions(next, events.drop_first());
            if let StreamEvent::Batch { shard, state_version, epoch, has_more } = events[0] {
                lemma_committed_versions_strictly_advance(v.order, shard.0, state_version.0, has_more);
            }
            assert forall|i: int, j: int|
                0 <= i < j < acts.len() implies (#[trigger] acts[i] matches StreamAction::ApplyBatch {
                    shard: s1,
                    state_version: x,
                    commit: true,
                    ..
                } ==> (#[trigger] acts[j] matches StreamAction::ApplyBatch {
                    shard: s2,
                    state_version: y,
                    ..
                } ==> s1 != s2 || x.0 < y.0)) by {
                assert(acts[j] == rest[j - 1]);
                if i > 0 {
                    assert(acts[i] == rest[i - 1]);
                }
            }
            assert forall|i: int| 0 <= i < acts.len() - 1 implies !ends_stream(#[trigger] acts[i]) by {
                if i > 0 {
                    assert(acts[i] == rest[i - 1]);
                }
            }
        }
    }
}

/// The cursors of shards that were never synced: a stream for them asks only for the head state.
pub open spec fn is_from_scratch(c: ShardCursor) -> bool {
    c.start_state_version == 1
}

/// The cursors, in order, of the shards that were never synced.
pub fn from_scratch_cursors(cursors: &Vec<ShardCursor>) -> (fresh: Vec<ShardCursor>)
    ensures
        fresh@ == cursors@.filter(|c: ShardCursor| is_from_scratch(c)),
{
    let mut fresh: Vec<ShardCursor> = Vec::new();
    let mut i: usize = 0;
    while i < cursors.len()
        invariant
            i <= cursors@.len(),
            fresh@ == cursors@.take(i as int).filter(|c: ShardCursor| is_from_scratch(c)),
        decreases cursors@.len() - i,
    {
        proof {
            assert(cursors@.take(i + 1).drop_last() =~= cursors@.take(i as int));
            reveal(Seq::filter);
        }
        if cursors[i].start_state_version == 1 {
            fresh.push(cursors[i]);
        }
        i = i + 1;
    }
    assert(cursors@.take(cursors@.len() as int) =~= cursors@);
    fresh
}

/// Whether the followed stream is opened after the head-state stream of the never-synced shards
/// ended with `end`: not once the plan is wound down or the epoch has moved.
pub fn follows_after_head_fetch(end: StreamEnd) -> (r: bool)
    ensures
        r == !(end is Cancelled || end is EpochAdvanced),
{
    match end {
        StreamEnd::Cancelled | StreamEnd::EpochAdvanced => false,
        _ => true,
    }
}

/// What a shard group does after a round of its state sync.
#[derive(Debug, Clone, Copy, PartialEq, Eq, Structural)]
pub enum NextRound {
    /// The plan is wound down: stop following.
    Stop,
    /// Reopen at once: the stream ended for want of anything to send, or the epoch moved.
    Reopen,
    /// Wait the work interval first: the validator does not follow, or the peer failed.
    PauseThenReopen,
    /// Give up the whole plan: the failure is not the peer's alone.
    Abort,
}

/// How a round ended: with the stream ending, or failing with or without the peer at fault.
#[derive(Debug, Clone, Copy, PartialEq, Eq, Structural)]
pub enum RoundOutcome {
    Ended(StreamEnd),
    PeerFault,
    OtherFailure,
}

pub open spec fn spec_next_round(outcome: RoundOutcome) -> NextRound {
    match outcome {
        RoundOutcome::Ended(StreamEnd::Cancelled) => NextRound::Stop,
        RoundOutcome::Ended(StreamEnd::TimedOut) => NextRound::Reopen,
        RoundOutcome::Ended(StreamEnd::EpochAdvanced) => NextRound::Reopen,
        RoundOutcome::Ended(StreamEnd::Final) => NextRound::PauseThenReopen,
        RoundOutcome::PeerFault => NextRound::PauseThenReopen,
        RoundOutcome::OtherFailure => NextRound::Abort,
    }
}

/// What a shard group does after a round ended with `outcome`.
pub fn next_round(outcome: RoundOutcome) -> (next: NextRound)
    ensures
        next == spec_next_round(outcome),
{
    match outcome {
        RoundOutcome::Ended(StreamEnd::Cancelled) => NextRound::Stop,
        RoundOutcome::Ended(StreamEnd::TimedOut) => NextRound::Reopen,
        RoundOutcome::Ended(StreamEnd::EpochAdvanced) => NextRound::Reopen,
        RoundOutcome::Ended(StreamEnd::Final) => NextRound::PauseThenReopen,
        RoundOutcome::PeerFault => NextRound::PauseThenReopen,
        RoundOutcome::OtherFailure => NextRound::Abort,
    }
}

/// The checkpoints a shard group still needs at `epoch`, given the epoch it last recorded one for:
/// from that epoch (or zero) up to the epoch before `epoch`, and none at epoch zero or once it has
/// them all.
pub open spec fn spec_checkpoint_range(epoch: u64, recorded: Option<u64>) -> Option<(u64, u64)> {
    if epoch == 0 {
        None
    } else {
        let prev = (epoch - 1) as u64;
        let from = match recorded {
            Some(e) => e,
            None => 0,
        };
        if from >= prev {
            None
        } else {
            Some((from, prev))
        }
    }
}

pub fn checkpoint_range(epoch: Epoch, recorded: Option<Epoch>) -> (range: Option<(Epoch, Epoch)>)
    ensures
        match range {
            Some((from, prev)) => spec_checkpoint_range(
                epoch.0,
                match recorded {
                    Some(e) => Some(e.0),
                    None => None,
                },
            ) == Some((from.0, prev.0)),
            None => spec_checkpoint_range(
                epoch.0,
                match recorded {
                    Some(e) => Some(e.0),
                    None => None,
                },
            ).is_none(),
        },
{
    if epoch.0 == 0 {
        return None;
    }
    let prev = epoch.0 - 1;
    let from = match recorded {
        Some(e) => e.0,
        None => 0,
    };
    if from >= prev {
        None
    } else {
        Some((Epoch(from), Epoch(prev)))
    }
}

/// How a synced checkpoint is checked: the one for the epoch just before the current one against
/// its committee's quorum; older ones only for being well formed, as their committees are not held.
#[derive(Debug, Clone, Copy, PartialEq, Eq, Structural)]
pub enum CheckpointCheck {
    AgainstCommittee,
    WellFormedOnly,
}

pub fn checkpoint_check(checkpoint_epoch: Epoch, prev_epoch: Epoch) -> (check: CheckpointCheck)
    ensures
        check == (if checkpoint_epoch.0 == prev_epoch.0 {
            CheckpointCheck::AgainstCommittee
        } else {
            CheckpointCheck::WellFormedOnly
        }),
{
    if checkpoint_epoch.0 == prev_epoch.0 {
        CheckpointCheck::AgainstCommittee
    } else {
        CheckpointCheck::WellFormedOnly
    }
}

/// A completion marker that is taken in is recorded as its shard's progress exactly when it moves
/// that progress forward: always for a shard with no recorded progress, and otherwise only past the
/// recorded version. What it completes is the shard, version, epoch and finality the marker names.
pub proof fn lemma_a_completion_persists_exactly_when_it_advances(v: ConsumerView, event: StreamEvent)
    ensures
        event matches StreamEvent::Complete { shard, synced_to, epoch, is_final, last_recorded } ==> (
        spec_consume(v, event).1 matches StreamAction::CompleteShard {
            shard: s,
            synced_to: t,
            epoch: e,
            persist,
            is_final: f,
        } ==> {
            &&& s == shard
            &&& t == synced_to
            &&& epoch == Some(e)
            &&& f == is_final
            &&& (last_recorded is None ==> persist)
            &&& (last_recorded matches Some(r) ==> (persist <==> synced_to.0 > r.0))
        }),
{
}

} // verus!

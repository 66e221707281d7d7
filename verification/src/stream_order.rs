//! The ordering a shard-state stream promises, and the cursors a stream is opened with.
//!
//! A stream carries the transitions of several shards. Its consumer buffers one
//! `(shard, state version)` at a time and keeps running totals that are read, modified and written,
//! so a shard interleaved part-way through a version, or a version replayed after it was committed,
//! would corrupt what the consumer writes. [`StreamOrder`] refuses both.

use std::collections::HashMap;

use vstd::prelude::*;

use crate::types::{Epoch, Shard, ShardGroup, StateVersion};

verus! {

broadcast use vstd::std_specs::hash::group_hash_axioms;

/// Where a stream resumes for one shard: the first state version the caller does not hold yet.
#[derive(Debug, Clone, Copy, PartialEq, Eq, Structural)]
pub struct ShardCursor {
    pub shard: u32,
    pub start_state_version: u64,
}

/// The last state version committed per shard.
pub struct SyncProgress {
    pub last_state_versions: HashMap<u32, u64>,
}

impl SyncProgress {
    pub fn new() -> (p: SyncProgress)
        ensures
            p.last_state_versions@ == Map::<u32, u64>::empty(),
    {
        SyncProgress { last_state_versions: HashMap::new() }
    }

    /// Records `version` as the last one committed for `shard`.
    pub fn set_last_state_version(&mut self, shard: Shard, version: StateVersion)
        ensures
            final(self).last_state_versions@ == old(self).last_state_versions@.insert(
                shard.0,
                version.0,
            ),
    {
        self.last_state_versions.insert(shard.0, version.0);
    }

    /// The last state version committed for `shard`, if it was ever synced.
    pub fn last_state_version(&self, shard: Shard) -> (v: Option<StateVersion>)
        ensures
            v == (if self.last_state_versions@.contains_key(shard.0) {
                Some(StateVersion(self.last_state_versions@[shard.0]))
            } else {
                None
            }),
    {
        match self.last_state_versions.get(&shard.0) {
            Some(v) => Some(StateVersion(*v)),
            None => None,
        }
    }
}

/// The version a stream resumes at for a shard whose last committed version is `last`: the next
/// one, or version one for a shard never synced.
pub open spec fn resume_version(last: Option<u64>) -> int {
    match last {
        Some(v) => v + 1,
        None => 1,
    }
}

pub open spec fn spec_cursor_for(shard: Shard, progress: Map<u32, u64>) -> ShardCursor {
    ShardCursor {
        shard: shard.0,
        start_state_version: resume_version(
            if progress.contains_key(shard.0) {
                Some(progress[shard.0])
            } else {
                None
            },
        ) as u64,
    }
}

/// A cursor per shard resuming after the version recorded for it, in the order of `shards`. A shard
/// never synced resumes from version one.
///
/// A shard recorded at version `u64::MAX` leaves nothing to resume at and is outside what this
/// accepts.
pub fn cursors_for(shards: &[Shard], progress: &SyncProgress) -> (cursors: Vec<ShardCursor>)
    requires
        forall|i: int|
            0 <= i < shards@.len() && progress.last_state_versions@.contains_key(
                #[trigger] shards@[i].0,
            ) ==> progress.last_state_versions@[shards@[i].0] < u64::MAX,
    ensures
        cursors@.len() == shards@.len(),
        forall|i: int|
            0 <= i < shards@.len() ==> #[trigger] cursors@[i] == spec_cursor_for(
                shards@[i],
                progress.last_state_versions@,
            ),
{
    let mut cursors: Vec<ShardCursor> = Vec::new();
    let mut i: usize = 0;
    while i < shards.len()
        invariant
            i <= shards@.len(),
            cursors@.len() == i,
            forall|j: int|
                0 <= j < shards@.len() && progress.last_state_versions@.contains_key(
                    #[trigger] shards@[j].0,
                ) ==> progress.last_state_versions@[shards@[j].0] < u64::MAX,
            forall|j: int|
                0 <= j < i ==> #[trigger] cursors@[j] == spec_cursor_for(
                    shards@[j],
                    progress.last_state_versions@,
                ),
        decreases shards@.len() - i,
    {
        let shard = shards[i];
        let start = match progress.last_state_version(shard) {
            Some(v) => v.0 + 1,
            None => 1,
        };
        cursors.push(ShardCursor { shard: shard.0, start_state_version: start });
        i = i + 1;
    }
    cursors
}

/// The description of the network at an epoch: the groups its shards are partitioned into.
pub struct NetworkDescription {
    pub epoch: Epoch,
    pub shard_groups: Vec<ShardGroup>,
}

fn contains_group(groups: &Vec<ShardGroup>, group: ShardGroup) -> (r: bool)
    ensures
        r == groups@.contains(group),
{
    let mut i: usize = 0;
    while i < groups.len()
        invariant
            i <= groups@.len(),
            forall|j: int| 0 <= j < i ==> groups@[j] != group,
        decreases groups@.len() - i,
    {
        if groups[i] == group {
            return true;
        }
        i = i + 1;
    }
    false
}

fn includes_all(outer: &Vec<ShardGroup>, inner: &Vec<ShardGroup>) -> (r: bool)
    ensures
        r == (forall|g: ShardGroup| #[trigger] inner@.contains(g) ==> outer@.contains(g)),
{
    let mut i: usize = 0;
    while i < inner.len()
        invariant
            i <= inner@.len(),
            forall|j: int| 0 <= j < i ==> outer@.contains(#[trigger] inner@[j]),
        decreases inner@.len() - i,
    {
        if !contains_group(outer, inner[i]) {
            assert(inner@.contains(inner@[i as int]));
            return false;
        }
        i = i + 1;
    }
    assert forall|g: ShardGroup| #[trigger] inner@.contains(g) implies outer@.contains(g) by {
        let k = choose|k: int| 0 <= k < inner@.len() && inner@[k] == g;
        assert(outer@.contains(inner@[k]));
    }
    true
}

/// Whether a sync plan drawn at `plan_epoch` over the groups `partition` carries on through the
/// epoch `network` describes: only while the partition of shards into groups is unchanged, and never
/// for a plan drawn at epoch zero, which runs no group loops at all.
pub open spec fn spec_plan_absorbs_epoch(
    plan_epoch: Epoch,
    partition: Seq<ShardGroup>,
    network_groups: Seq<ShardGroup>,
) -> bool {
    plan_epoch.0 != 0 && network_groups.to_set() == partition.to_set()
}

pub fn plan_absorbs_epoch(
    plan_epoch: Epoch,
    partition: &Vec<ShardGroup>,
    network_desc: &NetworkDescription,
) -> (r: bool)
    ensures
        r == spec_plan_absorbs_epoch(plan_epoch, partition@, network_desc.shard_groups@),
{
    if plan_epoch.is_zero() {
        return false;
    }
    let a = includes_all(partition, &network_desc.shard_groups);
    let b = includes_all(&network_desc.shard_groups, partition);
    proof {
        let n = network_desc.shard_groups@;
        let p = partition@;
        if a && b {
            assert(n.to_set() =~= p.to_set());
        } else if !a {
            let g = choose|g: ShardGroup| #[trigger] n.contains(g) && !p.contains(g);
            assert(n.to_set().contains(g));
            assert(!p.to_set().contains(g));
        } else {
            let g = choose|g: ShardGroup| #[trigger] p.contains(g) && !n.contains(g);
            assert(p.to_set().contains(g));
            assert(!n.to_set().contains(g));
        }
    }
    a && b
}

/// What reaches a running sync plan from the epoch manager.
pub enum EpochNotice {
    /// The epoch changed; the network description at the new epoch, where it could be read.
    EpochChanged { description: Option<NetworkDescription> },
    /// Epoch events were missed.
    Lagged,
    /// The epoch manager stopped publishing events.
    Closed,
}

/// What a running sync plan does about an [`EpochNotice`].
#[derive(Debug, Clone, Copy, PartialEq, Eq, Structural)]
pub enum PlanReaction {
    /// Carry on with the running plan, its groups now at `epoch`.
    Continue { epoch: Epoch },
    /// Wind every stream of the plan down and draw a new plan.
    Replan,
    /// Wind every stream of the plan down and stop: no further epoch can be learnt of.
    Stop,
}

/// How a plan drawn at `plan_epoch` over the groups `partition` meets an epoch notice: an epoch
/// whose description keeps the partition is carried on with; one that changes it, one whose
/// description cannot be read, and missed events all have the plan drawn afresh; the end of the
/// events stops the sync.
pub fn react_to_epoch_notice(plan_epoch: Epoch, partition: &Vec<ShardGroup>, notice: &EpochNotice) -> (r:
    PlanReaction)
    ensures
        match notice {
            EpochNotice::EpochChanged { description: Some(d) } => if spec_plan_absorbs_epoch(
                plan_epoch,
                partition@,
                d.shard_groups@,
            ) {
                r == (PlanReaction::Continue { epoch: d.epoch })
            } else {
                r == PlanReaction::Replan
            },
            EpochNotice::EpochChanged { description: None } => r == PlanReaction::Replan,
            EpochNotice::Lagged => r == PlanReaction::Replan,
            EpochNotice::Closed => r == PlanReaction::Stop,
        },
{
    match notice {
        EpochNotice::EpochChanged { description: Some(d) } => {
            if plan_absorbs_epoch(plan_epoch, partition, d) {
                PlanReaction::Continue { epoch: d.epoch }
            } else {
                PlanReaction::Replan
            }
        },
        EpochNotice::EpochChanged { description: None } => PlanReaction::Replan,
        EpochNotice::Lagged => PlanReaction::Replan,
        EpochNotice::Closed => PlanReaction::Stop,
    }
}

/// Why a stream broke the ordering it promises.
#[derive(Debug, Clone, Copy, PartialEq, Eq, Structural)]
pub enum StreamOrderError {
    /// A batch for a shard the stream was not asked for.
    UnrequestedBatch { shard: u32 },
    /// A batch at a version that is not ahead of the one already committed for its shard.
    NotAhead { shard: u32, state_version: u64, committed_version: u64 },
    /// A batch for another `(shard, version)` while a version split across chunks is incomplete.
    Interleaved { shard: u32, state_version: u64, pending_shard: u32, pending_version: u64 },
    /// A completion marker for a shard the stream was not asked for.
    UnrequestedMarker { shard: u32 },
    /// A completion marker while a version split across chunks is incomplete.
    MarkerWhileIncomplete { shard: u32, pending_shard: u32, pending_version: u64 },
}

/// The abstract state of a [`StreamOrder`]: the highest version committed per requested shard, and
/// the `(shard, version)` split across chunks that is still incomplete, if any.
pub struct StreamOrderView {
    pub committed: Map<u32, u64>,
    pub pending: Option<(u32, u64)>,
}

/// Enforces the ordering a shard-state stream promises across the shards it carries: a shard's
/// versions strictly advance, and a version split across chunks is delivered whole before anything
/// else. A completion marker closes off what was streamed so far for a shard; a followed stream
/// carries more for it after, so a marker does not end a shard.
pub struct StreamOrder {
    committed_versions: HashMap<u32, u64>,
    pending_chunk: Option<(u32, u64)>,
}

/// The committed versions a stream opened with `cursors` starts from: each requested shard holds
/// everything below its cursor. A shard named twice takes its last cursor.
pub open spec fn seeded_versions(cursors: Seq<ShardCursor>) -> Map<u32, u64>
    decreases cursors.len(),
{
    if cursors.len() == 0 {
        Map::empty()
    } else {
        let last = cursors.last();
        seeded_versions(cursors.drop_last()).insert(
            last.shard,
            if last.start_state_version == 0 {
                0
            } else {
                (last.start_state_version - 1) as u64
            },
        )
    }
}

/// A stream state is consistent when the version being assembled is for a requested shard and ahead
/// of what that shard has committed.
pub open spec fn order_wf(v: StreamOrderView) -> bool {
    match v.pending {
        Some((shard, version)) => v.committed.contains_key(shard) && v.committed[shard] < version,
        None => true,
    }
}

/// The outcome of offering the batch `(shard, version)` to the state `v`: the next state and whether
/// the batch was accepted. A refused batch leaves the state as it was.
pub open spec fn spec_accept_batch(
    v: StreamOrderView,
    shard: u32,
    version: u64,
    has_more: bool,
) -> (StreamOrderView, Option<StreamOrderError>) {
    if !v.committed.contains_key(shard) {
        (v, Some(StreamOrderError::UnrequestedBatch { shard }))
    } else if version <= v.committed[shard] {
        (
            v,
            Some(
                StreamOrderError::NotAhead {
                    shard,
                    state_version: version,
                    committed_version: v.committed[shard],
                },
            ),
        )
    } else if v.pending.is_some() && v.pending != Some((shard, version)) {
        (
            v,
            Some(
                StreamOrderError::Interleaved {
                    shard,
                    state_version: version,
                    pending_shard: v.pending.unwrap().0,
                    pending_version: v.pending.unwrap().1,
                },
            ),
        )
    } else if has_more {
        (StreamOrderView { committed: v.committed, pending: Some((shard, version)) }, None)
    } else {
        (StreamOrderView { committed: v.committed.insert(shard, version), pending: None }, None)
    }
}

/// The answer to a completion marker for `shard` in the state `v`. A marker never changes the state.
pub open spec fn spec_accept_marker(v: StreamOrderView, shard: u32) -> Option<StreamOrderError> {
    if !v.committed.contains_key(shard) {
        Some(StreamOrderError::UnrequestedMarker { shard })
    } else if v.pending.is_some() {
        Some(
            StreamOrderError::MarkerWhileIncomplete {
                shard,
                pending_shard: v.pending.unwrap().0,
                pending_version: v.pending.unwrap().1,
            },
        )
    } else {
        None
    }
}

/// Every batch a stream accepts keeps its state consistent: a version being assembled stays ahead
/// of its shard's committed version, whatever is offered.
pub proof fn lemma_accept_batch_keeps_order_consistent(
    v: StreamOrderView,
    shard: u32,
    version: u64,
    has_more: bool,
)
    requires
        order_wf(v),
    ensures
        order_wf(spec_accept_batch(v, shard, version, has_more).0),
{
}

/// The set of shards a stream serves is fixed when it opens: no batch or marker adds or drops one.
pub proof fn lemma_requested_shards_are_fixed(
    v: StreamOrderView,
    shard: u32,
    version: u64,
    has_more: bool,
)
    ensures
        spec_accept_batch(v, shard, version, has_more).0.committed.dom() == v.committed.dom(),
{
    let next = spec_accept_batch(v, shard, version, has_more).0;
    if v.committed.contains_key(shard) {
        assert(next.committed.dom() =~= v.committed.dom());
    }
}

/// A shard's committed version only ever advances: an accepted batch is strictly ahead of what its
/// shard had committed, so a version already committed is never applied twice, and no shard's
/// committed version goes down.
pub proof fn lemma_committed_versions_strictly_advance(
    v: StreamOrderView,
    shard: u32,
    version: u64,
    has_more: bool,
)
    ensures
        ({
            let (next, err) = spec_accept_batch(v, shard, version, has_more);
            &&& err.is_none() ==> v.committed.contains_key(shard) && v.committed[shard] < version
            &&& forall|k: u32| #[trigger]
                v.committed.contains_key(k) ==> v.committed[k] <= next.committed[k]
            &&& err.is_none() && !has_more ==> next.committed[shard] == version
            &&& err.is_some() ==> next == v
        }),
{
}

/// Once a version of a shard is committed, the same version of that shard is refused if the stream
/// offers it again, complete or in part.
pub proof fn lemma_replayed_version_is_refused(
    v: StreamOrderView,
    shard: u32,
    version: u64,
    again_has_more: bool,
)
    requires
        spec_accept_batch(v, shard, version, false).1.is_none(),
    ensures
        spec_accept_batch(spec_accept_batch(v, shard, version, false).0, shard, version, again_has_more).1.is_some(),
{
}

/// While a version split across chunks is incomplete, nothing but more of that same version is
/// accepted, and no completion marker either.
pub proof fn lemma_pending_version_blocks_everything_else(
    v: StreamOrderView,
    shard: u32,
    version: u64,
    has_more: bool,
)
    requires
        v.pending.is_some(),
        v.pending != Some((shard, version)),
    ensures
        spec_accept_batch(v, shard, version, has_more).1.is_some(),
        spec_accept_marker(v, shard).is_some(),
{
}

impl View for StreamOrder {
    type V = StreamOrderView;

    closed spec fn view(&self) -> StreamOrderView {
        StreamOrderView { committed: self.committed_versions@, pending: self.pending_chunk }
    }
}

impl StreamOrder {
    /// The order of a stream opened with `cursors`: every requested shard starts with the version
    /// below its cursor committed, and nothing is being assembled.
    pub fn new(cursors: &[ShardCursor]) -> (order: StreamOrder)
        ensures
            order@.committed == seeded_versions(cursors@),
            order@.pending.is_none(),
            order_wf(order@),
    {
        let mut committed_versions: HashMap<u32, u64> = HashMap::new();
        let mut i: usize = 0;
        while i < cursors.len()
            invariant
                i <= cursors@.len(),
                committed_versions@ == seeded_versions(cursors@.take(i as int)),
            decreases cursors@.len() - i,
        {
            let c = cursors[i];
            let seed = c.start_state_version.saturating_sub(1);
            committed_versions.insert(c.shard, seed);
            proof {
                assert(cursors@.take(i + 1).drop_last() =~= cursors@.take(i as int));
            }
            i = i + 1;
        }
        proof {
            assert(cursors@.take(cursors@.len() as int) =~= cursors@);
        }
        StreamOrder { committed_versions, pending_chunk: None }
    }

    /// Accepts the batch at `state_version` of `shard`, with `has_more` set while the version
    /// continues in a later chunk, or says why the stream broke its ordering.
    pub fn accept_batch(&mut self, shard: Shard, state_version: StateVersion, has_more: bool) -> (r:
        Result<(), StreamOrderError>)
        ensures
            ({
                let (next, err) = spec_accept_batch(old(self)@, shard.0, state_version.0, has_more);
                &&& final(self)@ == next
                &&& r == match err {
                    Some(e) => Err(e),
                    None => Ok(()),
                }
            }),
    {
        let committed_version = match self.committed_versions.get(&shard.0) {
            Some(v) => *v,
            None => {
                return Err(StreamOrderError::UnrequestedBatch { shard: shard.0 });
            },
        };
        if state_version.0 <= committed_version {
            return Err(
                StreamOrderError::NotAhead {
                    shard: shard.0,
                    state_version: state_version.0,
                    committed_version,
                },
            );
        }
        if let Some(pending) = self.pending_chunk {
            if pending.0 != shard.0 || pending.1 != state_version.0 {
                return Err(
                    StreamOrderError::Interleaved {
                        shard: shard.0,
                        state_version: state_version.0,
                        pending_shard: pending.0,
                        pending_version: pending.1,
                    },
                );
            }
        }
        if has_more {
            self.pending_chunk = Some((shard.0, state_version.0));
        } else {
            self.pending_chunk = None;
            self.committed_versions.insert(shard.0, state_version.0);
        }
        Ok(())
    }

    /// Accepts a completion marker for `shard`, or says why the stream broke its ordering. A marker
    /// closes off what was streamed so far and changes nothing.
    pub fn accept_marker(&mut self, shard: Shard) -> (r: Result<(), StreamOrderError>)
        ensures
            final(self)@ == old(self)@,
            r == match spec_accept_marker(old(self)@, shard.0) {
                Some(e) => Err(e),
                None => Ok(()),
            },
    {
        if !self.committed_versions.contains_key(&shard.0) {
            return Err(StreamOrderError::UnrequestedMarker { shard: shard.0 });
        }
        if let Some((pending_shard, pending_version)) = self.pending_chunk {
            return Err(
                StreamOrderError::MarkerWhileIncomplete { shard: shard.0, pending_shard, pending_version },
            );
        }
        Ok(())
    }
}

} // verus!

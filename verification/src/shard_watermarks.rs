//! Per-shard completeness: the state version this indexer holds every transition up to, and when a
//! committee last confirmed that it does.
//!
//! A cached substate may only be served while the argument that nothing could have superseded it
//! holds, and that argument only holds up to a shard's watermark, and only while the watermark keeps
//! being confirmed. Confirmations belong to one run of the process: an indexer that has just started
//! has proven nothing about how far behind it is.

use std::collections::HashMap;
use std::time::{Duration, Instant};

use vstd::prelude::*;

use crate::types::{Shard, StateVersion};

verus! {

broadcast use vstd::std_specs::hash::group_hash_axioms;

#[verifier::external_type_specification]
#[verifier::external_body]
pub struct ExInstant(std::time::Instant);

/// `std::time::Instant::now`: the current reading of the monotonic clock. Nothing is claimed of
/// the reading.
#[verifier::external_body]
fn instant_now() -> (now: Instant) {
    Instant::now()
}

/// `std::time::Instant::elapsed`: how long ago `instant` was read. It depends on the clock, so
/// nothing is claimed of it.
#[verifier::external_body]
fn elapsed_since(instant: &Instant) -> (age: Duration) {
    instant.elapsed()
}

/// `std::time::Duration::as_nanos`. A `Duration` is opaque here, so nothing is claimed of the count.
#[verifier::external_body]
fn duration_nanos(duration: &Duration) -> (nanos: u128) {
    duration.as_nanos()
}

struct Watermark {
    state_version: u64,
    confirmed_at: Instant,
}

/// Per-shard watermarks, by shard number.
pub struct ShardWatermarks {
    inner: HashMap<u32, Watermark>,
}

/// The watermarks after `shard` is confirmed at `version`: the higher of the version it held and
/// `version`, or `version` for a shard confirmed for the first time.
pub open spec fn spec_confirm(m: Map<u32, u64>, shard: u32, version: u64) -> Map<u32, u64> {
    m.insert(
        shard,
        if m.contains_key(shard) && m[shard] > version {
            m[shard]
        } else {
            version
        },
    )
}

/// A watermark of `version` confirmed `age_nanos` ago counts only while it is no older than
/// `max_lag_nanos`.
pub open spec fn spec_fresh_watermark(version: u64, age_nanos: u128, max_lag_nanos: u128) -> Option<
    StateVersion,
> {
    if age_nanos <= max_lag_nanos {
        Some(StateVersion(version))
    } else {
        None
    }
}

/// The watermark `version`, if it was confirmed no longer than `max_lag_nanos` ago.
pub fn fresh_watermark(version: u64, age_nanos: u128, max_lag_nanos: u128) -> (r: Option<
    StateVersion,
>)
    ensures
        r == spec_fresh_watermark(version, age_nanos, max_lag_nanos),
{
    if age_nanos <= max_lag_nanos {
        Some(StateVersion(version))
    } else {
        None
    }
}

/// Confirming a shard never lowers a watermark: every shard keeps at least the version it held,
/// and the confirmed shard holds at least the version confirmed.
pub proof fn lemma_confirm_never_lowers_a_watermark(m: Map<u32, u64>, shard: u32, version: u64)
    ensures
        ({
            let next = spec_confirm(m, shard, version);
            &&& next.contains_key(shard)
            &&& next[shard] >= version
            &&& forall|k: u32| #[trigger] m.contains_key(k) ==> next.contains_key(k) && next[k] >= m[k]
            &&& next.dom() == m.dom().insert(shard)
        }),
{
    let next = spec_confirm(m, shard, version);
    assert(next.dom() =~= m.dom().insert(shard));
}

impl View for ShardWatermarks {
    type V = Map<u32, u64>;

    closed spec fn view(&self) -> Map<u32, u64> {
        Map::new(
            |k: u32| self.inner@.contains_key(k),
            |k: u32| self.inner@[k].state_version,
        )
    }
}

impl Default for ShardWatermarks {
    /// No shard confirmed.
    fn default() -> (w: ShardWatermarks)
        ensures
            w@ == Map::<u32, u64>::empty(),
    {
        ShardWatermarks::new()
    }
}

impl ShardWatermarks {
    /// No shard confirmed.
    pub fn new() -> (w: ShardWatermarks)
        ensures
            w@ == Map::<u32, u64>::empty(),
    {
        let w = ShardWatermarks { inner: HashMap::new() };
        assert(w@ =~= Map::<u32, u64>::empty());
        w
    }

    /// When each confirmed shard was last confirmed: the clock reading its watermark was stamped
    /// with.
    pub closed spec fn stamps(&self) -> Map<u32, Instant> {
        Map::new(
            |k: u32| self.inner@.contains_key(k),
            |k: u32| self.inner@[k].confirmed_at,
        )
    }

    /// Records that this indexer is level with `shard`'s committee at `state_version`, as confirmed
    /// at the clock reading `now`. The watermark keeps the higher of the version it held and
    /// `state_version`, and its stamp becomes `now`.
    pub fn confirm_at(&mut self, shard: Shard, state_version: StateVersion, now: Instant)
        ensures
            final(self)@ == spec_confirm(old(self)@, shard.0, state_version.0),
            final(self).stamps() == old(self).stamps().insert(shard.0, now),
    {
        let version = match self.inner.get(&shard.0) {
            Some(w) => if w.state_version > state_version.0 {
                w.state_version
            } else {
                state_version.0
            },
            None => state_version.0,
        };
        self.inner.insert(shard.0, Watermark { state_version: version, confirmed_at: now });
        assert(self@ =~= spec_confirm(old(self)@, shard.0, state_version.0));
        assert(self.stamps() =~= old(self).stamps().insert(shard.0, now));
    }

    /// Records that this indexer is level with `shard`'s committee at `state_version`, stamped as
    /// confirmed now. The watermark keeps the higher of the version it held and `state_version`;
    /// confirming a shard whose version did not move is what keeps a quiet shard from ageing out.
    /// The stamp is the clock reading taken in this call, of which nothing more is known.
    pub fn confirm(&mut self, shard: Shard, state_version: StateVersion)
        ensures
            final(self)@ == spec_confirm(old(self)@, shard.0, state_version.0),
            exists|now: Instant| final(self).stamps() == old(self).stamps().insert(shard.0, now),
    {
        let now = instant_now();
        self.confirm_at(shard, state_version, now);
    }

    /// Re-stamps `shard`'s watermark as confirmed at the clock reading `now`, at the version it
    /// already holds. A shard that was never confirmed stays unconfirmed.
    pub fn refresh_at(&mut self, shard: Shard, now: Instant)
        ensures
            final(self)@ == old(self)@,
            final(self).stamps() == (if old(self)@.contains_key(shard.0) {
                old(self).stamps().insert(shard.0, now)
            } else {
                old(self).stamps()
            }),
    {
        let version = match self.inner.get(&shard.0) {
            Some(w) => Some(w.state_version),
            None => None,
        };
        if let Some(version) = version {
            self.inner.insert(shard.0, Watermark { state_version: version, confirmed_at: now });
            assert(self.stamps() =~= old(self).stamps().insert(shard.0, now));
        }
        assert(self@ =~= old(self)@);
        assert(self.stamps() =~= (if old(self)@.contains_key(shard.0) {
            old(self).stamps().insert(shard.0, now)
        } else {
            old(self).stamps()
        }));
    }

    /// Re-stamps `shard`'s watermark as confirmed now, at the version it already holds: its stamp
    /// becomes the clock reading taken in this call. A shard that was never confirmed stays
    /// unconfirmed, and takes no reading.
    pub fn refresh(&mut self, shard: Shard)
        ensures
            final(self)@ == old(self)@,
            !old(self)@.contains_key(shard.0) ==> final(self).stamps() == old(self).stamps(),
            old(self)@.contains_key(shard.0) ==> exists|now: Instant|
                final(self).stamps() == old(self).stamps().insert(shard.0, now),
    {
        if self.inner.contains_key(&shard.0) {
            let now = instant_now();
            self.refresh_at(shard, now);
        } else {
            assert(self.stamps() =~= old(self).stamps());
        }
    }

    /// The stamp of `shard`'s watermark: the clock reading it was last confirmed at, or `None` if it
    /// was never confirmed in this run.
    pub fn confirmed_at(&self, shard: Shard) -> (r: Option<Instant>)
        ensures
            r.is_some() == self@.contains_key(shard.0),
            r.is_some() ==> r.unwrap() == self.stamps()[shard.0],
    {
        match self.inner.get(&shard.0) {
            Some(w) => Some(w.confirmed_at),
            None => None,
        }
    }

    /// The watermark for `shard`, or `None` if it was never confirmed in this run or was last
    /// confirmed more than `max_lag_nanos` nanoseconds ago: a stale shard closes the cache. How long
    /// ago that was is read from the clock, so the contract says what holds of every reading; the
    /// decision on the reading is [`fresh_watermark`]'s. Under the largest lag a confirmed shard is
    /// always open.
    pub fn get(&self, shard: Shard, max_lag_nanos: u128) -> (r: Option<StateVersion>)
        ensures
            !self@.contains_key(shard.0) ==> r.is_none(),
            self@.contains_key(shard.0) ==> exists|age: u128|
                r == spec_fresh_watermark(self@[shard.0], age, max_lag_nanos),
            self@.contains_key(shard.0) && max_lag_nanos == u128::MAX ==> r == Some(
                StateVersion(self@[shard.0]),
            ),
    {
        match self.inner.get(&shard.0) {
            Some(w) => {
                let age = elapsed_since(&w.confirmed_at);
                let age_nanos = duration_nanos(&age);
                let r = fresh_watermark(w.state_version, age_nanos, max_lag_nanos);
                assert(self@[shard.0] == w.state_version);
                assert(r == spec_fresh_watermark(self@[shard.0], age_nanos, max_lag_nanos));
                r
            },
            None => None,
        }
    }

    /// The watermark for `shard` and how long ago it was confirmed, read together, or `None` if it
    /// was never confirmed in this run.
    pub fn confirmed(&self, shard: Shard) -> (r: Option<(StateVersion, Duration)>)
        ensures
            r.is_some() == self@.contains_key(shard.0),
            r.is_some() ==> r.unwrap().0.0 == self@[shard.0],
    {
        match self.inner.get(&shard.0) {
            Some(w) => Some((StateVersion(w.state_version), elapsed_since(&w.confirmed_at))),
            None => None,
        }
    }
}

} // verus!

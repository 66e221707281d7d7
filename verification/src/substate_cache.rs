//! What the substate cache may keep, and what a synced transition retires from it.
//!
//! The cache answers reads on the argument that every commit which could supersede or destroy an
//! entry reaches it through that shard's transition stream. A transition therefore retires what it
//! settles, a write racing a transition yields to it, and a head already held is not walked back by
//! a committee member that is behind.

use std::time::{Duration, SystemTime, UNIX_EPOCH};

use tari_engine_types::substate::SubstateId;
use vstd::prelude::*;

verus! {

#[verifier::external_type_specification]
#[verifier::external_body]
pub struct ExSubstateId(tari_engine_types::substate::SubstateId);

#[verifier::external_type_specification]
#[verifier::external_body]
pub struct ExSystemTime(std::time::SystemTime);

/// `SubstateId::clone`, which `derive(Clone)` writes for the enum of addresses: the copy equals
/// the original.
pub assume_specification[ <SubstateId as Clone>::clone ](id: &SubstateId) -> (copy: SubstateId)
    ensures
        copy == *id,
;

/// `std::time::SystemTime::now`: the wall clock. Nothing is claimed of the reading.
#[verifier::external_body]
fn system_time_now() -> (now: SystemTime) {
    SystemTime::now()
}

/// `std::time::SystemTime::duration_since` the Unix epoch, or `None` for a clock set before 1970.
/// It reads the clock value it is given, so nothing is claimed of it.
#[verifier::external_body]
fn since_unix_epoch(t: &SystemTime) -> (elapsed: Option<Duration>) {
    t.duration_since(UNIX_EPOCH).ok()
}

/// `std::time::Duration::as_secs`: the whole seconds of a duration. A `Duration` is opaque here, so
/// nothing is claimed of the count.
#[verifier::external_body]
fn whole_secs(d: &Duration) -> (secs: u64) {
    d.as_secs()
}

/// The timestamp of a clock reading given as its whole seconds since the Unix epoch (`None` for a
/// reading before it): the seconds as an `i64`, or `0` before the epoch.
pub open spec fn spec_timestamp_from(secs: Option<u64>) -> i64 {
    match secs {
        Some(s) => s as i64,
        None => 0,
    }
}

/// The timestamp of a clock reading of `secs` whole seconds since the Unix epoch, or `0` for a
/// reading before it.
pub fn timestamp_from(secs: Option<u64>) -> (t: i64)
    ensures
        t == spec_timestamp_from(secs),
{
    match secs {
        Some(s) => s as i64,
        None => 0,
    }
}

/// Seconds since the Unix epoch by the wall clock, or `0` for a clock set before it. The reading
/// is the clock's; what is made of it is [`timestamp_from`].
pub fn unix_timestamp() -> (t: i64)
    ensures
        exists|secs: Option<u64>| t == spec_timestamp_from(secs),
{
    let now = system_time_now();
    let secs = match since_unix_epoch(&now) {
        Some(elapsed) => Some(whole_secs(&elapsed)),
        None => None,
    };
    timestamp_from(secs)
}

/// A substate a synced transition has retired cached entries for.
///
/// A creation retires the versions below it and the claim that the substate does not exist; a
/// destroy retires the version it names. Neither touches a head above, which a cached entry can
/// legitimately hold after being fetched straight from the committee.
#[derive(Debug, Clone)]
pub struct SubstateCacheInvalidation {
    pub(crate) substate_id: SubstateId,
    pub(crate) retires_up_to: Option<u32>,
    pub(crate) retires_nonexistence: bool,
}

impl SubstateCacheInvalidation {
    pub closed spec fn spec_substate_id(&self) -> SubstateId {
        self.substate_id
    }

    pub closed spec fn spec_retires_up_to(&self) -> Option<u32> {
        self.retires_up_to
    }

    pub closed spec fn spec_retires_nonexistence(&self) -> bool {
        self.retires_nonexistence
    }

    /// The substate was created at `version`, so every lower version is spent and it demonstrably
    /// exists; `caches_nonexistence` says whether the cache records that such a substate does not
    /// exist.
    ///
    /// A first creation retires no version, so all it carries is the retraction of a cached
    /// nonexistence. Where nothing caches that, it carries nothing and is `None`.
    pub fn created(substate_id: &SubstateId, version: u32, caches_nonexistence: bool) -> (r: Option<
        Self,
    >)
        ensures
            version == 0 && !caches_nonexistence ==> r.is_none(),
            !(version == 0 && !caches_nonexistence) ==> r.is_some() && r.unwrap().spec_substate_id()
                == *substate_id && r.unwrap().spec_retires_up_to() == (if version == 0 {
                None
            } else {
                Some((version - 1) as u32)
            }) && r.unwrap().spec_retires_nonexistence() == caches_nonexistence,
    {
        let retires_up_to = version.checked_sub(1);
        if retires_up_to.is_none() && !caches_nonexistence {
            return None;
        }
        Some(
            Self {
                substate_id: substate_id.clone(),
                retires_up_to,
                retires_nonexistence: caches_nonexistence,
            },
        )
    }

    /// `version` was destroyed, with or without a successor. A destroy leaves a cached
    /// nonexistence alone: it makes "the substate has no live version" more true, not less.
    pub fn destroyed(substate_id: SubstateId, version: u32) -> (r: Self)
        ensures
            r.spec_substate_id() == substate_id,
            r.spec_retires_up_to() == Some(version),
            !r.spec_retires_nonexistence(),
    {
        Self { substate_id, retires_up_to: Some(version), retires_nonexistence: false }
    }

    pub fn substate_id(&self) -> (id: &SubstateId)
        ensures
            *id == self.spec_substate_id(),
    {
        &self.substate_id
    }

    /// The highest cached head version this retires, if any.
    pub fn retires_up_to(&self) -> (v: Option<u32>)
        ensures
            v == self.spec_retires_up_to(),
    {
        self.retires_up_to
    }

    /// Whether a record that the substate does not exist may exist to be retired.
    pub fn retires_nonexistence(&self) -> (b: bool)
        ensures
            b == self.spec_retires_nonexistence(),
    {
        self.retires_nonexistence
    }
}

/// Whether a cached entry at `cached_version` (`None` for "does not exist") is retired by
/// `invalidation`.
pub open spec fn spec_retires(
    retires_up_to: Option<u32>,
    retires_nonexistence: bool,
    cached_version: Option<u32>,
) -> bool {
    match cached_version {
        Some(v) => retires_up_to.is_some() && v <= retires_up_to.unwrap(),
        None => retires_nonexistence,
    }
}

/// Whether `invalidation` retires a cached entry at `cached_version`: a version at or below the
/// highest it retires, or a record of nonexistence where it retracts one.
pub fn retires(invalidation: &SubstateCacheInvalidation, cached_version: Option<u32>) -> (r: bool)
    ensures
        r == spec_retires(
            invalidation.spec_retires_up_to(),
            invalidation.spec_retires_nonexistence(),
            cached_version,
        ),
{
    match cached_version {
        Some(v) => match invalidation.retires_up_to {
            Some(up_to) => v <= up_to,
            None => false,
        },
        None => invalidation.retires_nonexistence,
    }
}

/// A transition never retires a head above the version it settles: a creation at `version` leaves
/// `version` and everything above it cached, and a destroy of `version` leaves everything above it.
pub proof fn lemma_transitions_never_retire_a_higher_head(
    version: u32,
    caches_nonexistence: bool,
    head: u32,
)
    ensures
        head >= version ==> !spec_retires(
            if version == 0 {
                None
            } else {
                Some((version - 1) as u32)
            },
            caches_nonexistence,
            Some(head),
        ),
        head > version ==> !spec_retires(Some(version), false, Some(head)),
{
}

/// The head a cache entry holds: its version (`None` for "does not exist"), whether it was proven
/// against the committee, and when it was written, in Unix seconds.
#[derive(Debug, Clone, Copy, PartialEq, Eq, Structural)]
pub struct CachedHead {
    pub version: Option<u32>,
    pub verified: bool,
    pub cached_at: i64,
}

/// What becomes of an attempt to write a fetched entry into the cache.
#[derive(Debug, Clone, Copy, PartialEq, Eq, Structural)]
pub enum CacheWriteDecision {
    /// The entry is written.
    Write,
    /// A record that the substate does not exist, for a substate whose creation no transition
    /// would retract it.
    RefusedUnretractableNonexistence,
    /// The substate's shard advanced past the fetch: a transition may already have retired what was
    /// fetched.
    DiscardedStale,
    /// The cache holds a higher head that the entry does not outrank.
    KeptHigherHead,
}

/// `Option`'s order: nonexistence ranks below every version.
pub open spec fn version_above(a: Option<u32>, b: Option<u32>) -> bool {
    match (a, b) {
        (Some(x), Some(y)) => x > y,
        (Some(_), None) => true,
        (None, _) => false,
    }
}

pub open spec fn spec_saturating_sub_i64(a: i64, b: i64) -> int {
    let d = a - b;
    if d > i64::MAX {
        i64::MAX as int
    } else if d < i64::MIN {
        i64::MIN as int
    } else {
        d
    }
}

/// The decision on writing an entry at `entry_version`, fetched at `watermark`, into the cache.
///
/// A proof attests that a version existed, never that it is current, so a verified head is a lower
/// bound on the real one and nothing walks it back. An unverified head yields to a proven result,
/// and to time (`head_ttl_secs`) when there is nothing better.
pub open spec fn spec_cache_write_decision(
    entry_version: Option<u32>,
    entry_verified: bool,
    caches_nonexistence: bool,
    invalidated_at_version: Option<i64>,
    watermark: u64,
    cached: Option<CachedHead>,
    now: i64,
    head_ttl_secs: u64,
) -> CacheWriteDecision {
    if entry_version.is_none() && !caches_nonexistence {
        CacheWriteDecision::RefusedUnretractableNonexistence
    } else if invalidated_at_version.is_some() && (invalidated_at_version.unwrap() as u64)
        > watermark {
        CacheWriteDecision::DiscardedStale
    } else {
        match cached {
            Some(head) => {
                let outranked = entry_verified && !head.verified;
                let aged_out = !head.verified && spec_saturating_sub_i64(now, head.cached_at) > (
                head_ttl_secs as i64);
                if version_above(head.version, entry_version) && !outranked && !aged_out {
                    CacheWriteDecision::KeptHigherHead
                } else {
                    CacheWriteDecision::Write
                }
            },
            None => CacheWriteDecision::Write,
        }
    }
}

/// `a - b`, clamped to the range of `i64`.
pub fn saturating_sub_i64(a: i64, b: i64) -> (r: i64)
    ensures
        r == spec_saturating_sub_i64(a, b),
{
    let d = (a as i128) - (b as i128);
    if d > i64::MAX as i128 {
        i64::MAX
    } else if d < i64::MIN as i128 {
        i64::MIN
    } else {
        d as i64
    }
}

fn version_above_exec(a: Option<u32>, b: Option<u32>) -> (r: bool)
    ensures
        r == version_above(a, b),
{
    match (a, b) {
        (Some(x), Some(y)) => x > y,
        (Some(_), None) => true,
        (None, _) => false,
    }
}

/// Decides whether a fetched entry may be written into the cache, from what the cache holds for the
/// substate: the state version its last retiring transition landed at (`invalidated_at_version`),
/// and its current head.
pub fn cache_write_decision(
    entry_version: Option<u32>,
    entry_verified: bool,
    caches_nonexistence: bool,
    invalidated_at_version: Option<i64>,
    watermark: u64,
    cached: Option<CachedHead>,
    now: i64,
    head_ttl_secs: u64,
) -> (d: CacheWriteDecision)
    ensures
        d == spec_cache_write_decision(
            entry_version,
            entry_verified,
            caches_nonexistence,
            invalidated_at_version,
            watermark,
            cached,
            now,
            head_ttl_secs,
        ),
{
    if entry_version.is_none() && !caches_nonexistence {
        return CacheWriteDecision::RefusedUnretractableNonexistence;
    }
    if let Some(v) = invalidated_at_version {
        if v as u64 > watermark {
            return CacheWriteDecision::DiscardedStale;
        }
    }
    match cached {
        Some(head) => {
            let outranked = entry_verified && !head.verified;
            let aged_out = !head.verified && saturating_sub_i64(now, head.cached_at) > (
            head_ttl_secs as i64);
            if version_above_exec(head.version, entry_version) && !outranked && !aged_out {
                CacheWriteDecision::KeptHigherHead
            } else {
                CacheWriteDecision::Write
            }
        },
        None => CacheWriteDecision::Write,
    }
}

/// A verified head is never walked back: a write at a lower version (or of nonexistence) over a
/// verified head is never admitted, however old the head is.
pub proof fn lemma_verified_head_is_never_walked_back(
    entry_version: Option<u32>,
    entry_verified: bool,
    caches_nonexistence: bool,
    invalidated_at_version: Option<i64>,
    watermark: u64,
    head: CachedHead,
    now: i64,
    head_ttl_secs: u64,
)
    requires
        head.verified,
        version_above(head.version, entry_version),
    ensures
        spec_cache_write_decision(
            entry_version,
            entry_verified,
            caches_nonexistence,
            invalidated_at_version,
            watermark,
            Some(head),
            now,
            head_ttl_secs,
        ) != CacheWriteDecision::Write,
{
}

/// A write never lowers what the cache records as the substate's version unless the head it
/// replaces was unverified and either outranked by a proof or aged out.
pub proof fn lemma_cache_write_only_lowers_an_unverified_head(
    entry_version: Option<u32>,
    entry_verified: bool,
    caches_nonexistence: bool,
    invalidated_at_version: Option<i64>,
    watermark: u64,
    head: CachedHead,
    now: i64,
    head_ttl_secs: u64,
)
    requires
        spec_cache_write_decision(
            entry_version,
            entry_verified,
            caches_nonexistence,
            invalidated_at_version,
            watermark,
            Some(head),
            now,
            head_ttl_secs,
        ) == CacheWriteDecision::Write,
        version_above(head.version, entry_version),
    ensures
        !head.verified,
        entry_verified || spec_saturating_sub_i64(now, head.cached_at) > (head_ttl_secs as i64),
{
}

/// How many cache entries exceed the cap of `max_entries`, which pruning evicts oldest first.
pub fn cache_excess(count: i64, max_entries: usize) -> (excess: i64)
    ensures
        excess == spec_saturating_sub_i64(count, max_entries as i64),
{
    saturating_sub_i64(count, max_entries as i64)
}

} // verus!

//! The plain values the indexer's bookkeeping works with: shards, the state versions a shard's
//! transition stream advances through, epochs and groups of shards.

use vstd::prelude::*;

verus! {

/// The highest shard number: the network is split into at most this many preshards.
pub const MAX_SHARD: u32 = 256;

/// A shard of the substate address space, by its number. Shard `0` holds the global substates.
#[derive(Debug, Clone, Copy, PartialEq, Eq, Structural, Hash)]
pub struct Shard(pub u32);

impl Shard {
    pub fn from_u32(number: u32) -> (shard: Shard)
        ensures
            shard.0 == number,
    {
        Shard(number)
    }

    pub fn as_u32(self) -> (number: u32)
        ensures
            number == self.0,
    {
        self.0
    }
}

/// The position of a shard's transition stream: every transition of the shard up to a state version
/// is committed once that version is.
#[derive(Debug, Clone, Copy, PartialEq, Eq, Structural, Hash)]
pub struct StateVersion(pub u64);

impl StateVersion {
    pub fn new(version: u64) -> (v: StateVersion)
        ensures
            v.0 == version,
    {
        StateVersion(version)
    }

    pub fn zero() -> (v: StateVersion)
        ensures
            v.0 == 0,
    {
        StateVersion(0)
    }

    pub fn as_u64(self) -> (version: u64)
        ensures
            version == self.0,
    {
        self.0
    }
}

/// A network epoch.
#[derive(Debug, Clone, Copy, PartialEq, Eq, Structural, Hash)]
pub struct Epoch(pub u64);

impl Epoch {
    pub fn zero() -> (e: Epoch)
        ensures
            e.0 == 0,
    {
        Epoch(0)
    }

    pub fn is_zero(self) -> (zero: bool)
        ensures
            zero == (self.0 == 0),
    {
        self.0 == 0
    }

    pub fn as_u64(self) -> (epoch: u64)
        ensures
            epoch == self.0,
    {
        self.0
    }
}

/// A contiguous run of shards, `start..=end_inclusive`, served by one committee.
#[derive(Debug, Clone, Copy, PartialEq, Eq, Structural, Hash)]
pub struct ShardGroup {
    pub start: u32,
    pub end_inclusive: u32,
}

impl ShardGroup {
    /// A group is well formed when it is not empty and ends no later than the last preshard.
    pub open spec fn spec_valid(start: u32, end_inclusive: u32) -> bool {
        start <= end_inclusive && end_inclusive <= MAX_SHARD
    }

    /// The group `start..=end_inclusive`; the bounds must satisfy [`ShardGroup::spec_valid`].
    pub fn new(start: u32, end_inclusive: u32) -> (group: ShardGroup)
        requires
            Self::spec_valid(start, end_inclusive),
        ensures
            group.start == start,
            group.end_inclusive == end_inclusive,
    {
        ShardGroup { start, end_inclusive }
    }

    /// The group `start..=end_inclusive`, or `None` unless the bounds satisfy
    /// [`ShardGroup::spec_valid`].
    pub fn new_checked(start: u32, end_inclusive: u32) -> (group: Option<ShardGroup>)
        ensures
            group == (if Self::spec_valid(start, end_inclusive) {
                Some(ShardGroup { start, end_inclusive })
            } else {
                None
            }),
    {
        if start > end_inclusive || end_inclusive > MAX_SHARD {
            None
        } else {
            Some(ShardGroup { start, end_inclusive })
        }
    }

    pub open spec fn spec_contains(self, shard: Shard) -> bool {
        self.start <= shard.0 <= self.end_inclusive
    }

    pub fn contains(&self, shard: Shard) -> (r: bool)
        ensures
            r == self.spec_contains(shard),
    {
        self.start <= shard.0 && shard.0 <= self.end_inclusive
    }
}

} // verus!

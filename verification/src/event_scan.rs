//! Which versions of a substate the indexer asks the network for events of.
//!
//! The store holds the events of some versions of a substate already. Scanning a substate up to a
//! version fetches the events of every lower version the store does not hold, then follows the
//! substate's later events from the highest version known, asked for or stored.

use vstd::prelude::*;

verus! {

/// The versions below `version` that `stored` does not hold, in ascending order.
pub open spec fn missing_below(version: nat, stored: Seq<u32>) -> Seq<u32>
    decreases version,
{
    if version == 0 {
        Seq::empty()
    } else {
        let v = (version - 1) as nat;
        let below = missing_below(v, stored);
        if stored.contains(v as u32) {
            below
        } else {
            below.push(v as u32)
        }
    }
}

/// The versions of a substate below `version` whose events the store does not hold, in ascending
/// order: the ones to fetch from the network.
pub fn versions_missing_events(version: u32, stored: &Vec<u32>) -> (missing: Vec<u32>)
    ensures
        missing@ == missing_below(version as nat, stored@),
{
    let mut missing: Vec<u32> = Vec::new();
    let mut v: u32 = 0;
    while v < version
        invariant
            v <= version,
            missing@ == missing_below(v as nat, stored@),
        decreases version - v,
    {
        let mut held = false;
        let mut i: usize = 0;
        while i < stored.len()
            invariant
                i <= stored@.len(),
                held == stored@.take(i as int).contains(v),
            decreases stored@.len() - i,
        {
            proof {
                let before = stored@.take(i as int);
                let after = stored@.take(i + 1);
                assert(after =~= before.push(stored@[i as int]));
                if before.contains(v) {
                    let w = choose|w: int| 0 <= w < before.len() && before[w] == v;
                    assert(after[w] == v);
                }
                if after.contains(v) && stored@[i as int] != v {
                    let w = choose|w: int| 0 <= w < after.len() && after[w] == v;
                    assert(before[w] == v);
                }
                if stored@[i as int] == v {
                    assert(after[i as int] == v);
                }
            }
            if stored[i] == v {
                held = true;
            }
            i = i + 1;
        }
        proof {
            assert(stored@.take(stored@.len() as int) =~= stored@);
        }
        if !held {
            missing.push(v);
        }
        v = v + 1;
    }
    missing
}

/// The highest of `stored`, or zero when it is empty.
pub open spec fn highest(stored: Seq<u32>) -> u32
    decreases stored.len(),
{
    if stored.len() == 0 {
        0
    } else {
        let rest = highest(stored.drop_last());
        if stored.last() > rest {
            stored.last()
        } else {
            rest
        }
    }
}

/// `highest` is the largest stored version: no stored version is above it, and it is one of them
/// where any is stored.
pub proof fn lemma_highest_is_the_largest_stored(stored: Seq<u32>)
    ensures
        forall|i: int| 0 <= i < stored.len() ==> #[trigger] stored[i] <= highest(stored),
        stored.len() > 0 ==> stored.contains(highest(stored)),
        stored.len() == 0 ==> highest(stored) == 0,
    decreases stored.len(),
{
    if stored.len() > 0 {
        let rest = stored.drop_last();
        lemma_highest_is_the_largest_stored(rest);
        assert forall|i: int| 0 <= i < stored.len() implies #[trigger] stored[i] <= highest(stored) by {
            if i < stored.len() - 1 {
                assert(stored[i] == rest[i]);
            }
        }
        if stored.last() > highest(rest) {
            assert(stored[stored.len() - 1] == highest(stored));
        } else if rest.len() > 0 {
            let w = choose|w: int| 0 <= w < rest.len() && rest[w] == highest(rest);
            assert(stored[w] == rest[w]);
        } else {
            assert(stored[0] == stored.last());
        }
    }
}

/// Events are followed from past every version already known: the version followed from is at
/// least the version asked for and every stored version, and it is one of them.
pub proof fn lemma_following_skips_no_known_version(version: u32, stored: Seq<u32>)
    ensures
        ({
            let from = if version > highest(stored) {
                version
            } else {
                highest(stored)
            };
            &&& from >= version
            &&& forall|i: int| 0 <= i < stored.len() ==> #[trigger] stored[i] <= from
            &&& (from == version || stored.contains(from))
        }),
{
    lemma_highest_is_the_largest_stored(stored);
}

/// The version from which the substate's later events are followed: the higher of the version
/// asked for and the highest version the store holds events of.
pub fn follow_events_from(version: u32, stored: &Vec<u32>) -> (from: u32)
    ensures
        from == (if version > highest(stored@) {
            version
        } else {
            highest(stored@)
        }),
        from >= version,
        forall|i: int| 0 <= i < stored@.len() ==> #[trigger] stored@[i] <= from,
        from == version || stored@.contains(from),
{
    proof {
        lemma_highest_is_the_largest_stored(stored@);
    }
    let mut latest: u32 = 0;
    let mut i: usize = 0;
    while i < stored.len()
        invariant
            i <= stored@.len(),
            latest == highest(stored@.take(i as int)),
        decreases stored@.len() - i,
    {
        proof {
            assert(stored@.take(i + 1).drop_last() =~= stored@.take(i as int));
        }
        if stored[i] > latest {
            latest = stored[i];
        }
        i = i + 1;
    }
    proof {
        assert(stored@.take(stored@.len() as int) =~= stored@);
    }
    if version > latest {
        version
    } else {
        latest
    }
}

/// Every version fetched is below the one asked for and holds no stored events, and every such
/// version is fetched, each once, in ascending order.
pub proof fn lemma_missing_versions_are_exactly_the_gaps(version: nat, stored: Seq<u32>)
    requires
        version <= u32::MAX + 1,
    ensures
        forall|i: int|
            0 <= i < missing_below(version, stored).len() ==> (#[trigger] missing_below(
                version,
                stored,
            )[i]) < version && !stored.contains(missing_below(version, stored)[i]),
        forall|i: int, j: int|
            0 <= i < j < missing_below(version, stored).len() ==> (#[trigger] missing_below(
                version,
                stored,
            )[i]) < #[trigger] missing_below(version, stored)[j],
        forall|v: u32| v < version && !stored.contains(v) ==> #[trigger] missing_below(
            version,
            stored,
        ).contains(v),
    decreases version,
{
    if version > 0 {
        let w = (version - 1) as nat;
        lemma_missing_versions_are_exactly_the_gaps(w, stored);
        let below = missing_below(w, stored);
        let all = missing_below(version, stored);
        assert forall|v: u32| v < version && !stored.contains(v) implies #[trigger] all.contains(v) by {
            if v < w {
                assert(below.contains(v));
                let k = choose|k: int| 0 <= k < below.len() && below[k] == v;
                assert(all[k] == v);
            } else {
                assert(all[all.len() - 1] == v);
            }
        }
    }
}

} // verus!

//! Which validators serve a shard, and which epochs a node accepts.
//!
//! The validators registered for an epoch are ordered by shard key and treated as a ring. A shard's
//! committee is the run of validators on that ring around the point where the shard's key would
//! fall: the validators just below it and those from it on.

use vstd::prelude::*;

verus! {

/// `a < b` in the lexicographic order of byte strings: the first differing byte decides, and a
/// proper prefix is below the longer string.
pub open spec fn lex_lt(a: Seq<u8>, b: Seq<u8>) -> bool
    decreases a.len(),
{
    if a.len() == 0 {
        b.len() > 0
    } else if b.len() == 0 {
        false
    } else if a[0] != b[0] {
        a[0] < b[0]
    } else {
        lex_lt(a.drop_first(), b.drop_first())
    }
}

/// Compares two byte strings lexicographically, as the shard keys' ordering does.
pub fn key_less_than(a: &[u8], b: &[u8]) -> (r: bool)
    ensures
        r == lex_lt(a@, b@),
{
    let mut i: usize = 0;
    assert(a@.skip(0) =~= a@);
    assert(b@.skip(0) =~= b@);
    while i < a.len() && i < b.len() && a[i] == b[i]
        invariant
            i <= a@.len(),
            i <= b@.len(),
            lex_lt(a@, b@) == lex_lt(a@.skip(i as int), b@.skip(i as int)),
        decreases a@.len() - i,
    {
        proof {
            assert(a@.skip(i as int).drop_first() =~= a@.skip(i + 1));
            assert(b@.skip(i as int).drop_first() =~= b@.skip(i + 1));
        }
        i = i + 1;
    }
    if i == a.len() {
        i < b.len()
    } else if i == b.len() {
        false
    } else {
        a[i] < b[i]
    }
}

/// A validator registered for an epoch, by its public key and the shard key it was assigned.
#[derive(Debug, Clone)]
pub struct ValidatorNode {
    pub public_key: Vec<u8>,
    pub shard_key: Vec<u8>,
}

/// The number of validators in `vns` whose shard key is below `shard`.
pub open spec fn keys_below(vns: Seq<ValidatorNode>, shard: Seq<u8>) -> int
    decreases vns.len(),
{
    if vns.len() == 0 {
        0
    } else {
        keys_below(vns.drop_last(), shard) + if lex_lt(vns.last().shard_key@, shard) {
            1int
        } else {
            0int
        }
    }
}

proof fn lemma_keys_below_bounded(vns: Seq<ValidatorNode>, shard: Seq<u8>)
    ensures
        0 <= keys_below(vns, shard) <= vns.len(),
    decreases vns.len(),
{
    if vns.len() > 0 {
        lemma_keys_below_bounded(vns.drop_last(), shard);
    }
}

/// Half a committee, rounded up.
pub open spec fn half_committee(committee_size: u32) -> int {
    if committee_size % 2 > 0 {
        committee_size / 2 + 1
    } else {
        (committee_size / 2) as int
    }
}

/// Where the committee starts on the ring of `n` validators when `mid_point` of them lie below the
/// shard: `half - 1` positions before the mid point, wrapping around.
pub open spec fn window_start(n: int, mid_point: int, half: int) -> int {
    (n + mid_point - (half - 1)) % n
}

/// Where the committee ends (exclusive): `half` positions from the mid point, wrapping around.
pub open spec fn window_end(n: int, mid_point: int, half: int) -> int {
    (mid_point + half) % n
}

pub open spec fn range_seq(from: int, to: int) -> Seq<usize> {
    Seq::new((to - from) as nat, |i: int| (from + i) as usize)
}

/// The positions in the epoch's validator list that make up the committee of the shard with
/// `mid_point` validators below it: all of them when there are fewer than two half committees,
/// else the run from [`window_start`] to the mid point and on from it to [`window_end`], each
/// wrapping around the end of the list.
pub open spec fn spec_committee_positions(n: int, mid_point: int, committee_size: u32) -> Seq<
    usize,
> {
    let half = half_committee(committee_size);
    if n < half * 2 {
        range_seq(0, n)
    } else {
        let begin = window_start(n, mid_point, half);
        let end = window_end(n, mid_point, half);
        let before = if begin > mid_point {
            range_seq(begin, n) + range_seq(0, mid_point)
        } else {
            range_seq(begin, mid_point)
        };
        let after = if end < mid_point {
            range_seq(mid_point, n) + range_seq(0, end)
        } else {
            range_seq(mid_point, end)
        };
        before + after
    }
}

fn push_range(out: &mut Vec<usize>, from: usize, to: usize)
    requires
        from <= to,
    ensures
        final(out)@ == old(out)@ + range_seq(from as int, to as int),
{
    let mut i = from;
    while i < to
        invariant
            from <= i <= to,
            out@ == old(out)@ + range_seq(from as int, i as int),
        decreases to - i,
    {
        proof {
            assert(range_seq(from as int, i + 1) =~= range_seq(from as int, i as int).push(i));
        }
        out.push(i);
        i = i + 1;
    }
}

/// The positions in `vns` of the committee serving `shard`, for a committee of `committee_size`.
/// `vns` holds the validators of the epoch ordered by shard key; a list of `2^62` or more validators
/// is outside what this accepts, as its positions are computed in `i64`.
pub fn committee_positions(
    vns: &Vec<ValidatorNode>,
    shard: &Vec<u8>,
    committee_size: u32,
) -> (positions: Vec<usize>)
    requires
        vns@.len() < 0x4000_0000_0000_0000,
        committee_size > 0 || vns@.len() > 0,
    ensures
        positions@ == spec_committee_positions(
            vns@.len() as int,
            keys_below(vns@, shard@),
            committee_size,
        ),
{
    let n = vns.len();
    let half: u64 = if committee_size % 2 > 0 {
        (committee_size / 2) as u64 + 1
    } else {
        (committee_size / 2) as u64
    };
    let mut out: Vec<usize> = Vec::new();
    if (n as u64) < half * 2 {
        push_range(&mut out, 0, n);
        assert(out@ =~= range_seq(0, n as int));
        return out;
    }
    let mut mid_point: usize = 0;
    let mut i: usize = 0;
    while i < n
        invariant
            i <= n == vns@.len(),
            mid_point == keys_below(vns@.take(i as int), shard@),
            mid_point <= i,
        decreases n - i,
    {
        proof {
            assert(vns@.take(i + 1).drop_last() =~= vns@.take(i as int));
        }
        if key_less_than(vns[i].shard_key.as_slice(), shard.as_slice()) {
            mid_point = mid_point + 1;
        }
        i = i + 1;
    }
    assert(vns@.take(n as int) =~= vns@);
    let ni = n as i64;
    let begin = ((ni + mid_point as i64 - (half as i64 - 1)) % ni) as usize;
    let end = ((mid_point as i64 + half as i64) % ni) as usize;
    if begin > mid_point {
        push_range(&mut out, begin, n);
        push_range(&mut out, 0, mid_point);
    } else {
        push_range(&mut out, begin, mid_point);
    }
    if end < mid_point {
        push_range(&mut out, mid_point, n);
        push_range(&mut out, 0, end);
    } else {
        push_range(&mut out, mid_point, end);
    }
    proof {
        let h = half as int;
        let m = mid_point as int;
        assert(begin as int == window_start(n as int, m, h));
        assert(end as int == window_end(n as int, m, h));
    }
    out
}

proof fn lemma_mod_below_twice(x: int, n: int)
    requires
        0 <= x < 2 * n,
        n > 0,
    ensures
        x % n == (if x < n {
            x
        } else {
            x - n
        }),
{
    if x < n {
        vstd::arithmetic::div_mod::lemma_small_mod(x as nat, n as nat);
    } else {
        vstd::arithmetic::div_mod::lemma_small_mod((x - n) as nat, n as nat);
        vstd::arithmetic::div_mod::lemma_mod_add_multiples_vanish(x - n, n);
    }
}

/// A shard's committee is a run of `2 * half - 1` consecutive validators on the ring, starting
/// `half - 1` before the shard's position, so no validator appears in it twice. It does not hold
/// where every validator lies below the shard and a committee is one or two strong: the run then
/// wraps the whole ring and takes the first validator twice.
pub proof fn lemma_committee_is_a_ring_window(n: int, mid_point: int, committee_size: u32)
    requires
        0 <= mid_point <= n <= usize::MAX,
        committee_size > 0,
        n >= 2 * half_committee(committee_size),
        !(mid_point == n && half_committee(committee_size) == 1),
    ensures
        ({
            let h = half_committee(committee_size);
            let s = spec_committee_positions(n, mid_point, committee_size);
            &&& s.len() == 2 * h - 1
            &&& forall|p: int|
                0 <= p < 2 * h - 1 ==> #[trigger] s[p] as int == (window_start(n, mid_point, h) + p)
                    % n
            &&& s.no_duplicates()
        }),
{
    let h = half_committee(committee_size);
    let m = mid_point;
    let b = window_start(n, m, h);
    let e = window_end(n, m, h);
    lemma_mod_below_twice(n + m - (h - 1), n);
    lemma_mod_below_twice(m + h, n);
    assert(b == if m >= h - 1 {
        m - (h - 1)
    } else {
        n + m - (h - 1)
    });
    assert(e == if m + h < n {
        m + h
    } else {
        m + h - n
    });
    let before = if b > m {
        range_seq(b, n) + range_seq(0, m)
    } else {
        range_seq(b, m)
    };
    let after = if e < m {
        range_seq(m, n) + range_seq(0, e)
    } else {
        range_seq(m, e)
    };
    let s = spec_committee_positions(n, m, committee_size);
    assert(s == before + after);
    assert(before.len() == h - 1);
    assert(after.len() == h);
    assert forall|p: int| 0 <= p < 2 * h - 1 implies #[trigger] s[p] as int == (b + p) % n by {
        lemma_mod_below_twice(b + p, n);
        if p < h - 1 {
            assert(s[p] == before[p]);
            if b > m {
                if p < n - b {
                    assert(before[p] == (range_seq(b, n))[p]);
                } else {
                    assert(before[p] == (range_seq(0, m))[p - (n - b)]);
                }
            }
        } else {
            let q = p - (h - 1);
            assert(s[p] == after[q]);
            if e < m {
                if q < n - m {
                    assert(after[q] == (range_seq(m, n))[q]);
                } else {
                    assert(after[q] == (range_seq(0, e))[q - (n - m)]);
                }
            }
        }
    }
    assert forall|p: int, q: int| 0 <= p < s.len() && 0 <= q < s.len() && p != q implies s[p]
        != s[q] by {
        lemma_mod_below_twice(b + p, n);
        lemma_mod_below_twice(b + q, n);
    }
}

/// The indexer's choice of types for the epoch manager: it names peers by their network address
/// and learns of epochs from the base layer. It carries no data.
#[derive(Debug, Clone, Copy, PartialEq, Eq)]
pub struct IndexerEpochManagerSpec;

/// Whether `epoch` is within ten epochs of `current_epoch`, either way. An epoch within ten of
/// `u64::MAX`, and a current epoch there that the first comparison lets through, are outside what
/// this accepts.
pub fn is_epoch_valid(current_epoch: u64, epoch: u64) -> (valid: bool)
    requires
        epoch <= u64::MAX - 10,
        current_epoch <= epoch + 10 ==> current_epoch <= u64::MAX - 10,
    ensures
        valid == (current_epoch <= epoch + 10 && epoch <= current_epoch + 10),
{
    current_epoch <= epoch + 10 && epoch <= current_epoch + 10
}

/// The epochs whose registrations are live at `end_epoch`: those from `expiry` epochs before it
/// (or from zero) up to it.
pub fn epoch_range(end_epoch: u64, expiry: u64) -> (range: (u64, u64))
    ensures
        range.0 == (if end_epoch >= expiry {
            (end_epoch - expiry) as u64
        } else {
            0
        }),
        range.1 == end_epoch,
{
    (end_epoch.saturating_sub(expiry), end_epoch)
}

} // verus!

//! Where a page of UTXO updates ends.
//!
//! One state version covers a whole synced batch, so every UTXO touched by the same block on a
//! shard shares it, and a caller's cursor can only say "everything after version V". A page that
//! ended part-way through a version would strand the rest of it below the cursor the caller resumes
//! from, so a version is either wholly in a page or wholly absent. One row beyond the limit is read
//! to find where that boundary falls.

use vstd::prelude::*;

verus! {

/// How a read of at most `limit + 1` rows, ordered by state version, becomes a page.
#[derive(Debug, Clone, Copy, PartialEq, Eq, Structural)]
pub enum UtxoPageCut {
    /// Fewer rows than the overshoot: every row is served and nothing more follows.
    Complete,
    /// More follows; the first `n` rows, every complete version below the last one read, are served.
    TruncateTo(usize),
    /// More follows, but every row read sits at this one version: it is served whole, past the
    /// limit, since stopping before it would leave the caller no way forward.
    WholeVersion(u64),
}

pub open spec fn sorted(v: Seq<u64>) -> bool {
    forall|i: int, j: int| 0 <= i <= j < v.len() ==> v[i] <= v[j]
}

/// The number of leading rows below `bound`.
pub open spec fn count_below(v: Seq<u64>, bound: u64) -> int
    decreases v.len(),
{
    if v.len() == 0 {
        0
    } else if v[0] < bound {
        1 + count_below(v.drop_first(), bound)
    } else {
        0
    }
}

pub open spec fn spec_cut_page(versions: Seq<u64>, limit: u32) -> UtxoPageCut {
    if versions.len() != limit + 1 {
        UtxoPageCut::Complete
    } else {
        let partial = versions.last();
        let complete = count_below(versions, partial);
        if complete > 0 {
            UtxoPageCut::TruncateTo(complete as usize)
        } else {
            UtxoPageCut::WholeVersion(partial)
        }
    }
}

proof fn lemma_count_below(v: Seq<u64>, bound: u64)
    requires
        sorted(v),
    ensures
        0 <= count_below(v, bound) <= v.len(),
        forall|i: int| 0 <= i < count_below(v, bound) ==> v[i] < bound,
        forall|i: int| count_below(v, bound) <= i < v.len() ==> v[i] >= bound,
    decreases v.len(),
{
    if v.len() > 0 && v[0] < bound {
        let rest = v.drop_first();
        assert(sorted(rest)) by {
            assert forall|i: int, j: int| 0 <= i <= j < rest.len() implies rest[i] <= rest[j] by {
                assert(rest[i] == v[i + 1] && rest[j] == v[j + 1]);
            }
        }
        lemma_count_below(rest, bound);
        assert forall|i: int| 0 <= i < count_below(v, bound) implies v[i] < bound by {
            if i > 0 {
                assert(v[i] == rest[i - 1]);
            }
        }
        assert forall|i: int| count_below(v, bound) <= i < v.len() implies v[i] >= bound by {
            assert(v[i] == rest[i - 1]);
        }
    }
}

/// Decides where the page over `versions` ends, the state versions of the rows read in order, at
/// most `limit + 1` of them.
pub fn cut_page(versions: &Vec<u64>, limit: u32) -> (cut: UtxoPageCut)
    requires
        sorted(versions@),
        versions@.len() <= limit + 1,
    ensures
        cut == spec_cut_page(versions@, limit),
{
    if versions.len() as u64 != limit as u64 + 1 {
        return UtxoPageCut::Complete;
    }
    let partial = versions[versions.len() - 1];
    proof {
        lemma_count_below(versions@, partial);
    }
    let mut complete: usize = 0;
    while complete < versions.len() && versions[complete] < partial
        invariant
            complete <= versions@.len(),
            sorted(versions@),
            partial == versions@.last(),
            forall|i: int| 0 <= i < complete ==> versions@[i] < partial,
            0 <= count_below(versions@, partial) <= versions@.len(),
            forall|i: int| 0 <= i < count_below(versions@, partial) ==> versions@[i] < partial,
            forall|i: int|
                count_below(versions@, partial) <= i < versions@.len() ==> versions@[i] >= partial,
        decreases versions@.len() - complete,
    {
        complete = complete + 1;
    }
    proof {
        let c = count_below(versions@, partial);
        if complete < c {
            assert(versions@[complete as int] < partial);
        }
        if complete > c {
            assert(versions@[c] >= partial);
            assert(versions@[c] < partial);
        }
    }
    assert(complete == count_below(versions@, partial));
    if complete > 0 {
        UtxoPageCut::TruncateTo(complete)
    } else {
        UtxoPageCut::WholeVersion(partial)
    }
}

/// A page never ends part-way through a version: when a read is truncated, every row it keeps is
/// below the version it holds back and every row it drops is at that version, so a caller resuming
/// after the highest version it was served receives every dropped row.
pub proof fn lemma_truncation_keeps_versions_whole(versions: Seq<u64>, limit: u32)
    requires
        sorted(versions),
        versions.len() <= limit + 1,
    ensures
        spec_cut_page(versions, limit) matches UtxoPageCut::TruncateTo(n) ==> {
            &&& 0 < n < versions.len()
            &&& forall|i: int| 0 <= i < n ==> versions[i] < versions.last()
            &&& forall|i: int| n <= i < versions.len() ==> versions[i] == versions.last()
            &&& forall|i: int| n <= i < versions.len() ==> #[trigger] versions[i] > versions[n - 1]
        },
        spec_cut_page(versions, limit) matches UtxoPageCut::WholeVersion(v) ==> {
            &&& v == versions.last()
            &&& forall|i: int| 0 <= i < versions.len() ==> versions[i] == v
        },
{
    if versions.len() == limit + 1 {
        lemma_count_below(versions, versions.last());
    }
}

/// The highest state version a page serves, the cursor the caller resumes from: that of its last
/// row, or zero for an empty page.
pub fn page_max_state_version(versions: &Vec<u64>) -> (v: u64)
    ensures
        v == (if versions@.len() == 0 {
            0
        } else {
            versions@.last()
        }),
{
    if versions.len() == 0 {
        0
    } else {
        versions[versions.len() - 1]
    }
}

/// The highest of `epochs`, zero for none.
pub open spec fn highest_epoch(epochs: Seq<u64>) -> u64
    decreases epochs.len(),
{
    if epochs.len() == 0 {
        0
    } else {
        let rest = highest_epoch(epochs.drop_last());
        if epochs.last() > rest {
            epochs.last()
        } else {
            rest
        }
    }
}

/// The highest epoch among the rows read for a page, zero where none was read. It is taken over
/// every row the reads returned, those later cut off the page included.
pub fn page_max_epoch(epochs: &Vec<u64>) -> (e: u64)
    ensures
        e == highest_epoch(epochs@),
        forall|i: int| 0 <= i < epochs@.len() ==> #[trigger] epochs@[i] <= e,
        epochs@.len() > 0 ==> epochs@.contains(e),
{
    let mut e: u64 = 0;
    let mut i: usize = 0;
    while i < epochs.len()
        invariant
            i <= epochs@.len(),
            e == highest_epoch(epochs@.take(i as int)),
            forall|j: int| 0 <= j < i ==> #[trigger] epochs@[j] <= e,
            i > 0 ==> epochs@.take(i as int).contains(e),
        decreases epochs@.len() - i,
    {
        proof {
            assert(epochs@.take(i + 1).drop_last() =~= epochs@.take(i as int));
            assert(epochs@.take(i + 1).last() == epochs@[i as int]);
            if i > 0 {
                let w = choose|w: int| 0 <= w < i && epochs@.take(i as int)[w] == e;
                assert(epochs@.take(i + 1)[w] == e);
            }
            assert(epochs@.take(i + 1)[i as int] == epochs@[i as int]);
        }
        if epochs[i] > e {
            e = epochs[i];
        }
        i = i + 1;
    }
    assert(epochs@.take(epochs@.len() as int) =~= epochs@);
    e
}

/// The number of leading rows at or below `bound`.
pub open spec fn count_upto(v: Seq<u64>, bound: u64) -> int
    decreases v.len(),
{
    if v.len() == 0 {
        0
    } else if v[0] <= bound {
        1 + count_upto(v.drop_first(), bound)
    } else {
        0
    }
}

proof fn lemma_count_upto(v: Seq<u64>, bound: u64)
    requires
        sorted(v),
    ensures
        0 <= count_upto(v, bound) <= v.len(),
        forall|i: int| 0 <= i < count_upto(v, bound) ==> v[i] <= bound,
        forall|i: int| count_upto(v, bound) <= i < v.len() ==> v[i] > bound,
    decreases v.len(),
{
    if v.len() > 0 && v[0] <= bound {
        let rest = v.drop_first();
        assert(sorted(rest)) by {
            assert forall|i: int, j: int| 0 <= i <= j < rest.len() implies rest[i] <= rest[j] by {
                assert(rest[i] == v[i + 1] && rest[j] == v[j + 1]);
            }
        }
        lemma_count_upto(rest, bound);
        assert forall|i: int| 0 <= i < count_upto(v, bound) implies v[i] <= bound by {
            if i > 0 {
                assert(v[i] == rest[i - 1]);
            }
        }
        assert forall|i: int| count_upto(v, bound) <= i < v.len() implies v[i] > bound by {
            assert(v[i] == rest[i - 1]);
        }
    }
}

/// A page of UTXO updates read from `rows`, the state versions of every stored row after the
/// caller's cursor in ascending order: at most `limit + 1` rows are read and cut with
/// [`spec_cut_page`], and a version wider than the limit is read again whole. The rows served, and
/// whether more follow.
pub open spec fn page_read(rows: Seq<u64>, limit: u32) -> (Seq<u64>, bool) {
    if rows.len() <= limit {
        (rows, false)
    } else {
        let first = rows.take(limit + 1);
        match spec_cut_page(first, limit) {
            UtxoPageCut::TruncateTo(n) => (first.take(n as int), true),
            UtxoPageCut::WholeVersion(v) => (rows.take(count_upto(rows, v)), true),
            UtxoPageCut::Complete => (first, true),
        }
    }
}

/// The cursor a page hands back: the highest version it serves, or the cursor it was read from
/// when it serves nothing.
pub open spec fn page_cursor(served: Seq<u64>, from: u64) -> u64 {
    if served.len() == 0 {
        from
    } else {
        served.last()
    }
}

/// Over all the rows stored after the cursor, a page serves exactly the rows up to the version it
/// reports, in order, so a caller resuming from that version receives every other row; more follows
/// exactly when the rows outnumber the limit; a page of a non-empty store moves the cursor forward;
/// and a page past the limit holds a single version.
pub proof fn lemma_pages_serve_every_row_once(rows: Seq<u64>, limit: u32, from: u64)
    requires
        sorted(rows),
        forall|i: int| 0 <= i < rows.len() ==> #[trigger] rows[i] > from,
    ensures
        ({
            let (served, has_more) = page_read(rows, limit);
            let cursor = page_cursor(served, from);
            &&& has_more == (rows.len() > limit)
            &&& served.len() <= rows.len()
            &&& served == rows.take(served.len() as int)
            &&& forall|i: int| 0 <= i < rows.len() ==> (i < served.len() <==> #[trigger] rows[i] <= cursor)
            &&& rows.len() > 0 ==> served.len() > 0 && cursor > from
            &&& served.len() <= limit || forall|i: int| 0 <= i < served.len() ==> #[trigger] served[i] == cursor
        }),
{
    let (served, has_more) = page_read(rows, limit);
    let cursor = page_cursor(served, from);
    if rows.len() <= limit {
        assert(rows.take(rows.len() as int) =~= rows);
    } else {
        let first = rows.take(limit + 1);
        assert(sorted(first));
        lemma_truncation_keeps_versions_whole(first, limit);
        let partial = first.last();
        match spec_cut_page(first, limit) {
            UtxoPageCut::TruncateTo(n) => {
                assert(served =~= rows.take(n as int));
                assert(cursor == rows[n - 1]);
                assert forall|i: int| 0 <= i < rows.len() implies (i < served.len() <==> #[trigger] rows[i]
                    <= cursor) by {
                    if i >= n {
                        if i <= limit {
                            assert(first[i] == rows[i]);
                            assert(first[n as int - 1] == rows[n - 1]);
                        } else {
                            assert(rows[limit as int] == partial);
                            assert(first[n as int - 1] < partial);
                        }
                    } else {
                        assert(rows[i] <= rows[n - 1]);
                    }
                }
            },
            UtxoPageCut::WholeVersion(v) => {
                lemma_count_upto(rows, v);
                assert(first[0] == v);
                assert(rows[0] == v);
                let c = count_upto(rows, v);
                assert(c >= 1);
                assert(served =~= rows.take(c));
                assert(cursor == rows[c - 1]);
                assert(rows[c - 1] == v);
                assert forall|i: int| 0 <= i < c implies #[trigger] rows[i] == v by {
                    assert(rows[0] <= rows[i]);
                }
                assert(served.len() > limit ==> forall|i: int| 0 <= i < served.len() ==> #[trigger] served[i]
                    == cursor);
            },
            UtxoPageCut::Complete => {},
        }
    }
}

proof fn lemma_count_upto_is_the_prefix(rows: Seq<u64>, bound: u64, k: int)
    requires
        sorted(rows),
        0 <= k <= rows.len(),
        forall|i: int| 0 <= i < rows.len() ==> (i < k <==> #[trigger] rows[i] <= bound),
    ensures
        count_upto(rows, bound) == k,
{
    lemma_count_upto(rows, bound);
    let c = count_upto(rows, bound);
    if c < k {
        assert(rows[c] <= bound);
    }
    if c > k {
        assert(rows[k] <= bound);
    }
}

/// When more rows follow, the version a page reports is the largest whose rows, with all those
/// before them, fit within the limit; or, when not even the lowest version fits, that lowest
/// version, served whole.
pub proof fn lemma_page_cursor_is_the_largest_version_that_fits(rows: Seq<u64>, limit: u32, from: u64)
    requires
        sorted(rows),
        forall|i: int| 0 <= i < rows.len() ==> #[trigger] rows[i] > from,
        rows.len() > limit,
    ensures
        ({
            let cursor = page_cursor(page_read(rows, limit).0, from);
            ||| (count_upto(rows, cursor) <= limit && forall|i: int|
                0 <= i < rows.len() && #[trigger] rows[i] > cursor ==> count_upto(rows, rows[i]) > limit)
            ||| (cursor == rows[0] && count_upto(rows, rows[0]) > limit)
        }),
{
    lemma_pages_serve_every_row_once(rows, limit, from);
    let (served, has_more) = page_read(rows, limit);
    let cursor = page_cursor(served, from);
    let k = served.len() as int;
    lemma_count_upto_is_the_prefix(rows, cursor, k);
    let first = rows.take(limit + 1);
    assert(sorted(first));
    lemma_truncation_keeps_versions_whole(first, limit);
    match spec_cut_page(first, limit) {
        UtxoPageCut::TruncateTo(n) => {
            assert forall|i: int| 0 <= i < rows.len() && #[trigger] rows[i] > cursor implies count_upto(
                rows,
                rows[i],
            ) > limit by {
                lemma_count_upto(rows, rows[i]);
                if i <= limit {
                    assert(first[i] == rows[i]);
                    assert(first[limit as int] == rows[limit as int]);
                    assert(i >= n);
                } else {
                    assert(rows[limit as int] <= rows[i]);
                }
                assert(rows[limit as int] <= rows[i]);
            }
        },
        UtxoPageCut::WholeVersion(v) => {
            assert(served[0] == cursor);
            assert(served[0] == rows.take(k)[0]);
        },
        UtxoPageCut::Complete => {},
    }
}

} // verus!

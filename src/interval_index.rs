use vstd::prelude::*;

verus! {

/// Every knot key is strictly below the next one.
pub open spec fn strictly_increasing(x: Seq<i64>) -> bool {
    forall|i: int, j: int| 0 <= i < j < x.len() ==> x[i] < x[j]
}

/// Least index whose key is at least `q`, starting the search at `from`;
/// `x.len()` when there is none.
pub open spec fn lower_bound_from(x: Seq<i64>, q: i64, from: int) -> int
    decreases x.len() - from,
{
    if from >= x.len() {
        x.len() as int
    } else if q <= x[from] {
        from
    } else {
        lower_bound_from(x, q, from + 1)
    }
}

/// The bracketing pair `(left, left + 1)` for query `q`: the first interval
/// when `q` lies at or before the first knot, the last one when it lies at
/// or after the last knot, and otherwise the interval whose right end is the
/// first knot at or above `q` (a query equal to an interior knot `k` gives
/// `(k - 1, k)`).
pub open spec fn bracket_of(x: Seq<i64>, q: i64) -> (usize, usize) {
    if q <= x[0] {
        (0, 1)
    } else if q >= x[x.len() - 1] {
        ((x.len() - 2) as usize, (x.len() - 1) as usize)
    } else {
        let k = lower_bound_from(x, q, 0);
        ((k - 1) as usize, k as usize)
    }
}

proof fn lemma_lower_bound_props(x: Seq<i64>, q: i64, from: int)
    requires
        0 <= from <= x.len(),
    ensures
        from <= lower_bound_from(x, q, from) <= x.len(),
        forall|i: int| from <= i < lower_bound_from(x, q, from) ==> x[i] < q,
        lower_bound_from(x, q, from) < x.len() ==> q <= x[lower_bound_from(x, q, from)],
    decreases x.len() - from,
{
    if from < x.len() && !(q <= x[from]) {
        lemma_lower_bound_props(x, q, from + 1);
    }
}

/// The first index at or after `from` whose key is at least `q`, and below
/// which every key from `from` on is below `q`, is the lower bound.
proof fn lemma_lower_bound_unique(x: Seq<i64>, q: i64, from: int, k: int)
    requires
        0 <= from <= k <= x.len(),
        forall|i: int| from <= i < k ==> x[i] < q,
        k < x.len() ==> q <= x[k],
    ensures
        lower_bound_from(x, q, from) == k,
    decreases k - from,
{
    if from < k {
        lemma_lower_bound_unique(x, q, from + 1, k);
    }
}

/// For a query strictly inside the knot range, the bracket encloses it:
/// `x[left] < q <= x[right]`; outside the range it is the first or the last
/// interval.
pub proof fn lemma_bracket_encloses(x: Seq<i64>, q: i64)
    requires
        2 <= x.len() <= usize::MAX,
        strictly_increasing(x),
    ensures
        bracket_of(x, q).1 == bracket_of(x, q).0 + 1,
        bracket_of(x, q).1 < x.len(),
        x[0] < q < x[x.len() - 1] ==> x[bracket_of(x, q).0 as int] < q <= x[bracket_of(
            x,
            q,
        ).1 as int],
        q <= x[0] ==> bracket_of(x, q) == (0usize, 1usize),
        q >= x[x.len() - 1] ==> bracket_of(x, q).1 == x.len() - 1,
{
    lemma_lower_bound_props(x, q, 0);
    let k = lower_bound_from(x, q, 0);
    if x[0] < q < x[x.len() - 1] {
        if k == x.len() {
            assert(x[x.len() - 1] < q);
        }
        assert(k != 0);
        assert(x[k - 1] < q);
    }
}

/// The bracket found by scanning the interior knots from index `i` on: the
/// first `i` with `q <= x[i]` gives `(i - 1, i)`; past the interior knots it
/// is the last interval.
pub open spec fn scan_from(x: Seq<i64>, q: i64, i: int) -> (usize, usize)
    decreases x.len() - i,
{
    if i >= x.len() - 1 {
        ((x.len() - 2) as usize, (x.len() - 1) as usize)
    } else if q <= x[i] {
        ((i - 1) as usize, i as usize)
    } else {
        scan_from(x, q, i + 1)
    }
}

/// The bracket found by scanning, defined for any keys.
pub open spec fn scan_bracket_of(x: Seq<i64>, q: i64) -> (usize, usize) {
    scan_from(x, q, 1)
}

proof fn lemma_scan_from_is_bracket(x: Seq<i64>, q: i64, i: int)
    requires
        2 <= x.len() <= usize::MAX,
        1 <= i <= x.len() - 1,
        strictly_increasing(x),
        forall|j: int| 0 < j < i ==> x[j] < q,
    ensures
        scan_from(x, q, i) == bracket_of(x, q),
    decreases x.len() - i,
{
    let n = x.len() as int;
    if i >= n - 1 {
        if q <= x[0] {
            assert(x[0] < x[1]);
            if n > 2 {
                assert(x[1] < q);
            }
        } else if q < x[n - 1] {
            assert(forall|j: int| 0 <= j < n - 1 ==> x[j] < q);
            lemma_lower_bound_unique(x, q, 0, n - 1);
        }
    } else if q <= x[i] {
        if i > 1 {
            assert(x[0] < x[1]);
        }
        assert(x[i] < x[n - 1]);
        if q > x[0] {
            assert(forall|j: int| 0 <= j < i ==> x[j] < q);
            lemma_lower_bound_unique(x, q, 0, i);
        }
    } else {
        lemma_scan_from_is_bracket(x, q, i + 1);
    }
}

/// Over strictly increasing knots, scanning for the bracket gives the same
/// pair as the lower-bound rule of [`bracket_of`], for every query.
pub proof fn lemma_scan_agrees_with_search(x: Seq<i64>, q: i64)
    requires
        2 <= x.len() <= usize::MAX,
        strictly_increasing(x),
    ensures
        scan_bracket_of(x, q) == bracket_of(x, q),
{
    lemma_scan_from_is_bracket(x, q, 1);
}

/// Finds the bracketing pair by scanning the interior knots in order: the
/// first interior knot at or above the query closes the bracket.
pub fn interval_bracket(x: &[i64], xval: i64) -> (r: (usize, usize))
    requires
        x@.len() >= 2,
    ensures
        r == scan_bracket_of(x@, xval),
{
    let n = x.len();
    let mut i: usize = 1;
    while i < n - 1
        invariant
            n == x@.len(),
            n >= 2,
            1 <= i <= n - 1,
            scan_from(x@, xval, i as int) == scan_bracket_of(x@, xval),
        decreases n - i,
    {
        if xval <= x[i] {
            return (i - 1, i);
        }
        i = i + 1;
    }
    (n - 2, n - 1)
}

/// Finds the bracketing pair by a binary search for the first knot at or
/// above the query.
pub fn interval_bracket_binarysearch(x: &[i64], xval: i64) -> (r: (usize, usize))
    requires
        x@.len() >= 2,
        strictly_increasing(x@),
    ensures
        r == bracket_of(x@, xval),
{
    let n = x.len();
    if xval <= x[0] {
        return (0, 1);
    } else if xval >= x[n - 1] {
        return (n - 2, n - 1);
    }
    // x[lo] < xval <= x[hi]
    let mut lo: usize = 0;
    let mut hi: usize = n - 1;
    while hi - lo > 1
        invariant
            n == x@.len(),
            0 <= lo < hi <= n - 1,
            strictly_increasing(x@),
            x@[lo as int] < xval <= x@[hi as int],
        decreases hi - lo,
    {
        let mid = lo + (hi - lo) / 2;
        if x[mid] < xval {
            lo = mid;
        } else {
            hi = mid;
        }
    }
    proof {
        assert(forall|j: int| 0 <= j < hi ==> x@[j] < xval) by {
            assert forall|j: int| 0 <= j < hi implies x@[j] < xval by {
                if j < lo {
                    assert(x@[j] < x@[lo as int]);
                }
            }
        }
        lemma_lower_bound_unique(x@, xval, 0, hi as int);
    }
    (lo, hi)
}

} // verus!

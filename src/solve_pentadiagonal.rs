use vstd::prelude::*;
use crate::error::SplineError;
use crate::scalar::{zero_seq, zeros, Scalar};

verus! {

/// A banded system: row `i` holds `a1[i]..a5[i]` in columns `i - 2 ..= i + 2`,
/// with right-hand side `b[i]`.
pub struct Bands<T> {
    pub a1: Seq<T>,
    pub a2: Seq<T>,
    pub a3: Seq<T>,
    pub a4: Seq<T>,
    pub a5: Seq<T>,
    pub b: Seq<T>,
}

/// The five bands and the right-hand side all have the same length, at
/// least two.
pub open spec fn band_shape_ok<T>(s: Bands<T>) -> bool {
    s.b.len() >= 2 && s.a1.len() == s.b.len() && s.a2.len() == s.b.len() && s.a3.len()
        == s.b.len() && s.a4.len() == s.b.len() && s.a5.len() == s.b.len()
}

/// Column `i - 1` eliminates the sub-diagonal of row `i` and the
/// sub-sub-diagonal of row `i + 1`; `None` when its pivot is negligible.
pub open spec fn elim_step<T: Scalar>(s: Bands<T>, i: int) -> Option<Bands<T>> {
    let p = s.a3[i - 1];
    if p.spec_negligible() {
        None
    } else {
        let m1 = s.a2[i].spec_over(p);
        let m2 = s.a1[i + 1].spec_over(p);
        Some(
            Bands {
                a1: s.a1,
                a2: s.a2.update(i + 1, s.a2[i + 1].spec_minus(m2.spec_times(s.a4[i - 1]))),
                a3: s.a3.update(i, s.a3[i].spec_minus(m1.spec_times(s.a4[i - 1]))).update(
                    i + 1,
                    s.a3[i + 1].spec_minus(m2.spec_times(s.a5[i - 1])),
                ),
                a4: s.a4.update(i, s.a4[i].spec_minus(m1.spec_times(s.a5[i - 1]))),
                a5: s.a5,
                b: s.b.update(i, s.b[i].spec_minus(m1.spec_times(s.b[i - 1]))).update(
                    i + 1,
                    s.b[i + 1].spec_minus(m2.spec_times(s.b[i - 1])),
                ),
            },
        )
    }
}

/// The forward sweep over rows `i ..= n - 2`.
pub open spec fn forward_from<T: Scalar>(s: Bands<T>, i: int) -> Option<Bands<T>>
    decreases s.b.len() - 1 - i,
{
    if i >= s.b.len() - 1 || i < 1 {
        Some(s)
    } else {
        match elim_step(s, i) {
            None => None,
            Some(s2) => forward_from(s2, i + 1),
        }
    }
}

/// Back substitution for rows `k - 1` down to `0`, over the solution `x`
/// whose later entries are known.
pub open spec fn back_from<T: Scalar>(s: Bands<T>, x: Seq<T>, k: int) -> Option<Seq<T>>
    decreases k,
{
    if k <= 0 {
        Some(x)
    } else {
        let i = k - 1;
        if s.a3[i].spec_negligible() {
            None
        } else {
            let num = s.b[i].spec_minus(s.a4[i].spec_times(x[i + 1])).spec_minus(
                s.a5[i].spec_times(x[i + 2]),
            );
            back_from(s, x.update(i, num.spec_over(s.a3[i])), k - 1)
        }
    }
}

/// Solves an eliminated system: the last two rows directly, then back
/// substitution.
pub open spec fn solve_eliminated<T: Scalar>(s: Bands<T>) -> Option<Seq<T>> {
    let n = s.b.len() as int;
    let p = s.a3[n - 2];
    if p.spec_negligible() {
        None
    } else {
        let m = s.a2[n - 1].spec_over(p);
        let d = s.a3[n - 1].spec_minus(m.spec_times(s.a4[n - 2]));
        if d.spec_negligible() {
            None
        } else {
            let xl = s.b[n - 1].spec_minus(m.spec_times(s.b[n - 2])).spec_over(d);
            let xp = s.b[n - 2].spec_minus(s.a4[n - 2].spec_times(xl)).spec_over(p);
            back_from(s, zero_seq::<T>(n as nat).update(n - 1, xl).update(n - 2, xp), n - 2)
        }
    }
}

/// The solution that banded elimination without pivoting gives, or `None`
/// when a divisor it meets is negligible.
pub open spec fn penta_spec<T: Scalar>(s: Bands<T>) -> Option<Seq<T>> {
    match forward_from(s, 1) {
        None => None,
        Some(e) => solve_eliminated(e),
    }
}

pub open spec fn bands_of<T>(
    a1: Seq<T>,
    a2: Seq<T>,
    a3: Seq<T>,
    a4: Seq<T>,
    a5: Seq<T>,
    b: Seq<T>,
) -> Bands<T> {
    Bands { a1, a2, a3, a4, a5, b }
}

/// `a / d`, or `SingularSystem` where `d` is too small to divide by.
pub(crate) fn divide<T: Scalar>(a: &T, d: &T) -> (r: Result<T, SplineError>)
    ensures
        r is Err <==> d.spec_negligible(),
        r is Err ==> r == Err::<T, SplineError>(SplineError::SingularSystem),
        r is Ok ==> r == Ok::<T, SplineError>(a.spec_over(*d)),
{
    if d.is_negligible() {
        Err(SplineError::SingularSystem)
    } else {
        Ok(a.over(d))
    }
}

/// Solves the pentadiagonal system `A x = b` by banded Gaussian elimination
/// without pivoting. Row `i` of `A` holds `a1[i]..a5[i]` in columns
/// `i - 2 ..= i + 2`; entries that fall outside the matrix are ignored.
///
/// The bands and `b` are working storage: they keep their lengths, and their
/// contents are overwritten by the elimination. Mismatched or too short
/// inputs are refused before anything is touched; a negligible divisor ends
/// the solve with `SingularSystem`, and otherwise the result is
/// [`penta_spec`] of the system.
pub fn penta<T: Scalar>(
    a1: &mut Vec<T>,
    a2: &mut Vec<T>,
    a3: &mut Vec<T>,
    a4: &mut Vec<T>,
    a5: &mut Vec<T>,
    b: &mut Vec<T>,
) -> (r: Result<Vec<T>, SplineError>)
    ensures
        final(a1)@.len() == old(a1)@.len(),
        final(a2)@.len() == old(a2)@.len(),
        final(a3)@.len() == old(a3)@.len(),
        final(a4)@.len() == old(a4)@.len(),
        final(a5)@.len() == old(a5)@.len(),
        final(b)@.len() == old(b)@.len(),
        !band_shape_ok(bands_of(old(a1)@, old(a2)@, old(a3)@, old(a4)@, old(a5)@, old(b)@))
            ==> r == Err::<Vec<T>, SplineError>(SplineError::InvalidInputSize) && *final(a1)
            == *old(a1) && *final(a2) == *old(a2) && *final(a3) == *old(a3) && *final(a4)
            == *old(a4) && *final(a5) == *old(a5) && *final(b) == *old(b),
        band_shape_ok(bands_of(old(a1)@, old(a2)@, old(a3)@, old(a4)@, old(a5)@, old(b)@))
            ==> match penta_spec(bands_of(old(a1)@, old(a2)@, old(a3)@, old(a4)@, old(a5)@, old(b)@)) {
            Some(x) => r is Ok && r->Ok_0@ == x,
            None => r == Err::<Vec<T>, SplineError>(SplineError::SingularSystem),
        },
{
    let n = b.len();
    if n < 2 || a1.len() != n || a2.len() != n || a3.len() != n || a4.len() != n || a5.len() != n {
        return Err(SplineError::InvalidInputSize);
    }
    let ghost s0 = bands_of(a1@, a2@, a3@, a4@, a5@, b@);
    // Forward elimination of the two sub-diagonals, one column at a time.
    let mut i: usize = 1;
    while i < n - 1
        invariant
            n == b@.len(),
            n >= 2,
            1 <= i <= n - 1,
            band_shape_ok(bands_of(a1@, a2@, a3@, a4@, a5@, b@)),
            forward_from(bands_of(a1@, a2@, a3@, a4@, a5@, b@), i as int) == forward_from(s0, 1),
            s0 == bands_of(old(a1)@, old(a2)@, old(a3)@, old(a4)@, old(a5)@, old(b)@),
            old(a1)@.len() == n,
            old(a2)@.len() == n,
            old(a3)@.len() == n,
            old(a4)@.len() == n,
            old(a5)@.len() == n,
            old(b)@.len() == n,
        decreases n - i,
    {
        let ghost s = bands_of(a1@, a2@, a3@, a4@, a5@, b@);
        let xmult = divide(&a2[i], &a3[i - 1])?;
        let v = a3[i].minus(&xmult.times(&a4[i - 1]));
        a3.set(i, v);
        let v = a4[i].minus(&xmult.times(&a5[i - 1]));
        a4.set(i, v);
        let v = b[i].minus(&xmult.times(&b[i - 1]));
        b.set(i, v);

        let xmult = divide(&a1[i + 1], &a3[i - 1])?;
        let v = a2[i + 1].minus(&xmult.times(&a4[i - 1]));
        a2.set(i + 1, v);
        let v = a3[i + 1].minus(&xmult.times(&a5[i - 1]));
        a3.set(i + 1, v);
        let v = b[i + 1].minus(&xmult.times(&b[i - 1]));
        b.set(i + 1, v);
        proof {
            let e = elim_step(s, i as int)->Some_0;
            assert(a2@ =~= e.a2);
            assert(a3@ =~= e.a3);
            assert(a4@ =~= e.a4);
            assert(b@ =~= e.b);
            assert(bands_of(a1@, a2@, a3@, a4@, a5@, b@) == e);
        }
        i = i + 1;
    }
    let ghost e = bands_of(a1@, a2@, a3@, a4@, a5@, b@);
    assert(forward_from(s0, 1) == Some(e));
    // The last row keeps its diagonal and the sub-diagonal left by row n - 2.
    let xmult = divide(&a2[n - 1], &a3[n - 2])?;
    let d = a3[n - 1].minus(&xmult.times(&a4[n - 2]));
    let xl = divide(&b[n - 1].minus(&xmult.times(&b[n - 2])), &d)?;
    let xp = divide(&b[n - 2].minus(&a4[n - 2].times(&xl)), &a3[n - 2])?;
    let mut x: Vec<T> = zeros(n);
    x.set(n - 1, xl);
    x.set(n - 2, xp);
    let ghost x0 = x@;
    proof {
        let nn = n as int;
        let p = e.a3[nn - 2];
        let m = e.a2[nn - 1].spec_over(p);
        let dd = e.a3[nn - 1].spec_minus(m.spec_times(e.a4[nn - 2]));
        let sl = e.b[nn - 1].spec_minus(m.spec_times(e.b[nn - 2])).spec_over(dd);
        let sp = e.b[nn - 2].spec_minus(e.a4[nn - 2].spec_times(sl)).spec_over(p);
        assert(x0 =~= zero_seq::<T>(n as nat).update(nn - 1, sl).update(nn - 2, sp));
    }
    // Back substitution over the remaining rows.
    let mut k: usize = n - 2;
    while k > 0
        invariant
            n == b@.len(),
            n >= 2,
            k <= n - 2,
            e == bands_of(a1@, a2@, a3@, a4@, a5@, b@),
            band_shape_ok(e),
            x@.len() == n,
            back_from(e, x@, k as int) == back_from(e, x0, n - 2),
            penta_spec(bands_of(old(a1)@, old(a2)@, old(a3)@, old(a4)@, old(a5)@, old(b)@))
                == back_from(e, x0, n - 2),
            old(a1)@.len() == n,
            old(a2)@.len() == n,
            old(a3)@.len() == n,
            old(a4)@.len() == n,
            old(a5)@.len() == n,
            old(b)@.len() == n,
        decreases k,
    {
        let i = k - 1;
        let num = b[i].minus(&a4[i].times(&x[i + 1])).minus(&a5[i].times(&x[i + 2]));
        let v = divide(&num, &a3[i])?;
        x.set(i, v);
        k = k - 1;
    }
    Ok(x)
}

} // verus!

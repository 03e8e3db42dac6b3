use vstd::prelude::*;
use crate::boundary::{
    boundary_condition, boundary_of, check_knot_order, request_error, BoundaryCondition, NOT_A_KNOT,
};
use crate::error::SplineError;
use crate::scalar::{keys_of, order_keys, zero_seq, zeros, Scalar};
use crate::solve_pentadiagonal::{bands_of, divide, penta, penta_spec, Bands};

verus! {

/// The slope of the chord over the interval that ends at knot `j`, or
/// `None` when the interval's width is negligible.
pub open spec fn slope_spec<T: Scalar>(t: Seq<T>, y: Seq<T>, j: int) -> Option<T> {
    let h = t[j].spec_minus(t[j - 1]);
    if h.spec_negligible() {
        None
    } else {
        Some(y[j].spec_minus(y[j - 1]).spec_over(h))
    }
}

/// Row 0: the left end condition.
pub open spec fn first_row<T: Scalar>(
    s: Bands<T>,
    t: Seq<T>,
    y: Seq<T>,
    c: BoundaryCondition<T>,
) -> Option<Bands<T>> {
    let zero = T::spec_from_i32(0);
    let one = T::spec_from_i32(1);
    let three = T::spec_from_i32(3);
    let six = T::spec_from_i32(6);
    match c {
        BoundaryCondition::NaturalSecondDerivativeZero => Some(
            Bands { b: s.b.update(0, zero), a3: s.a3.update(0, one), ..s },
        ),
        BoundaryCondition::FirstDerivativeSpecified(v) => match slope_spec(t, y, 1) {
            None => None,
            Some(sl) => {
                let h = t[1].spec_minus(t[0]);
                Some(
                    Bands {
                        b: s.b.update(0, sl.spec_minus(v)),
                        a3: s.a3.update(0, h.spec_over(three)),
                        a4: s.a4.update(0, h.spec_over(six)),
                        ..s
                    },
                )
            },
        },
        BoundaryCondition::SecondDerivativeSpecified(v) => Some(
            Bands { b: s.b.update(0, v), a3: s.a3.update(0, one), ..s },
        ),
        BoundaryCondition::NotAKnot => Some(
            Bands {
                b: s.b.update(0, zero),
                a3: s.a3.update(0, t[2].spec_minus(t[1]).spec_negated()),
                a4: s.a4.update(0, t[2].spec_minus(t[0])),
                a5: s.a5.update(0, t[1].spec_minus(t[0]).spec_negated()),
                ..s
            },
        ),
    }
}

/// Interior row `i`: continuity of the second derivative at knot `i`.
pub open spec fn interior_row<T: Scalar>(s: Bands<T>, t: Seq<T>, y: Seq<T>, i: int) -> Option<
    Bands<T>,
> {
    let three = T::spec_from_i32(3);
    let six = T::spec_from_i32(6);
    match (slope_spec(t, y, i + 1), slope_spec(t, y, i)) {
        (Some(s1), Some(s0)) => Some(
            Bands {
                b: s.b.update(i, s1.spec_minus(s0)),
                a2: s.a2.update(i, t[i + 1].spec_minus(t[i]).spec_over(six)),
                a3: s.a3.update(i, t[i + 1].spec_minus(t[i - 1]).spec_over(three)),
                a4: s.a4.update(i, t[i].spec_minus(t[i - 1]).spec_over(six)),
                ..s
            },
        ),
        _ => None,
    }
}

/// Interior rows `i ..= n - 2`.
pub open spec fn interior_from<T: Scalar>(s: Bands<T>, t: Seq<T>, y: Seq<T>, i: int) -> Option<
    Bands<T>,
>
    decreases t.len() - 1 - i,
{
    if i >= t.len() - 1 || i < 1 {
        Some(s)
    } else {
        match interior_row(s, t, y, i) {
            None => None,
            Some(s2) => interior_from(s2, t, y, i + 1),
        }
    }
}

/// Row `n - 1`: the right end condition.
pub open spec fn last_row<T: Scalar>(
    s: Bands<T>,
    t: Seq<T>,
    y: Seq<T>,
    c: BoundaryCondition<T>,
) -> Option<Bands<T>> {
    let n = t.len() as int;
    let zero = T::spec_from_i32(0);
    let one = T::spec_from_i32(1);
    let three = T::spec_from_i32(3);
    let six = T::spec_from_i32(6);
    match c {
        BoundaryCondition::NaturalSecondDerivativeZero => Some(
            Bands { b: s.b.update(n - 1, zero), a3: s.a3.update(n - 1, one), ..s },
        ),
        BoundaryCondition::FirstDerivativeSpecified(v) => match slope_spec(t, y, n - 1) {
            None => None,
            Some(sl) => {
                let h = t[n - 1].spec_minus(t[n - 2]);
                Some(
                    Bands {
                        b: s.b.update(n - 1, v.spec_minus(sl)),
                        a2: s.a2.update(n - 1, h.spec_over(six)),
                        a3: s.a3.update(n - 1, h.spec_over(three)),
                        ..s
                    },
                )
            },
        },
        BoundaryCondition::SecondDerivativeSpecified(v) => Some(
            Bands { b: s.b.update(n - 1, v), a3: s.a3.update(n - 1, one), ..s },
        ),
        BoundaryCondition::NotAKnot => Some(
            Bands {
                b: s.b.update(n - 1, zero),
                a1: s.a1.update(n - 1, t[n - 1].spec_minus(t[n - 2]).spec_negated()),
                a2: s.a2.update(n - 1, t[n - 1].spec_minus(t[n - 3])),
                a3: s.a3.update(n - 1, t[n - 2].spec_minus(t[n - 3]).spec_negated()),
                ..s
            },
        ),
    }
}

/// The banded spline system, one row per knot, starting from all zeros;
/// `None` when a knot interval is negligible.
pub open spec fn bands_spec<T: Scalar>(
    t: Seq<T>,
    y: Seq<T>,
    left: BoundaryCondition<T>,
    right: BoundaryCondition<T>,
) -> Option<Bands<T>> {
    let z = zero_seq::<T>(t.len());
    match first_row(bands_of(z, z, z, z, z, z), t, y, left) {
        None => None,
        Some(s1) => match interior_from(s1, t, y, 1) {
            None => None,
            Some(s2) => last_row(s2, t, y, right),
        },
    }
}

/// The second derivatives of the spline: the solution of its banded system.
pub open spec fn fit_spec<T: Scalar>(
    t: Seq<T>,
    y: Seq<T>,
    left: BoundaryCondition<T>,
    right: BoundaryCondition<T>,
) -> Option<Seq<T>> {
    match bands_spec(t, y, left, right) {
        None => None,
        Some(s) => penta_spec(s),
    }
}

/// The slope `(y[j] - y[j - 1]) / (t[j] - t[j - 1])` of the chord over the
/// interval that ends at knot `j`.
fn chord_slope<T: Scalar>(t: &[T], y: &[T], j: usize) -> (r: Result<T, SplineError>)
    requires
        1 <= j < t@.len(),
        j < y@.len(),
    ensures
        match slope_spec(t@, y@, j as int) {
            Some(v) => r == Ok::<T, SplineError>(v),
            None => r == Err::<T, SplineError>(SplineError::SingularSystem),
        },
{
    divide(&y[j].minus(&y[j - 1]), &t[j].minus(&t[j - 1]))
}

/// Computes the second derivatives `ypp` of the cubic spline through the
/// points `(t[i], y[i])`, closed at each end by the condition that the flag
/// selects (see [`boundary_condition`]); the value beside a flag is used only
/// by the two conditions that need one.
///
/// The request is checked first (see [`request_error`]): sizes, with three
/// knots at least for a not-a-knot end, then the knots' order by their keys,
/// then the flags. The banded system
/// ([`bands_spec`]) is then solved by [`penta`]; a negligible knot interval
/// or pivot gives `SingularSystem`.
pub fn set_spline_cubic<T: Scalar>(
    t: &[T],
    y: &[T],
    left_bc_ind: i32,
    left_bc_value: T,
    right_bc_ind: i32,
    right_bc_value: T,
) -> (r: Result<Vec<T>, SplineError>)
    ensures
        request_error(keys_of(t@), y@.len(), left_bc_ind, right_bc_ind) matches Some(e) ==> r
            == Err::<Vec<T>, SplineError>(e),
        request_error(keys_of(t@), y@.len(), left_bc_ind, right_bc_ind) is None ==> match fit_spec(
            t@,
            y@,
            boundary_of(left_bc_ind, left_bc_value),
            boundary_of(right_bc_ind, right_bc_value),
        ) {
            Some(x) => r is Ok && r->Ok_0@ == x,
            None => r == Err::<Vec<T>, SplineError>(SplineError::SingularSystem),
        },
{
    let n = t.len();
    if n < 2 || y.len() != n || ((left_bc_ind == NOT_A_KNOT || right_bc_ind == NOT_A_KNOT) && n
        < 3) {
        return Err(SplineError::InvalidInputSize);
    }
    let keys = order_keys(t);
    check_knot_order(keys.as_slice())?;
    let left = boundary_condition(left_bc_ind, left_bc_value)?;
    let right = boundary_condition(right_bc_ind, right_bc_value)?;

    let zero = T::from_i32(0);
    let one = T::from_i32(1);
    let three = T::from_i32(3);
    let six = T::from_i32(6);
    let mut a1: Vec<T> = zeros(n);
    let mut a2: Vec<T> = zeros(n);
    let mut a3: Vec<T> = zeros(n);
    let mut a4: Vec<T> = zeros(n);
    let mut a5: Vec<T> = zeros(n);
    let mut b: Vec<T> = zeros(n);
    let ghost s0 = bands_of(a1@, a2@, a3@, a4@, a5@, b@);

    // The first equation.
    match left {
        BoundaryCondition::NaturalSecondDerivativeZero => {
            b.set(0, zero);
            a3.set(0, one);
        },
        BoundaryCondition::FirstDerivativeSpecified(v) => {
            let h = t[1].minus(&t[0]);
            b.set(0, chord_slope(t, y, 1)?.minus(&v));
            a3.set(0, h.over(&three));
            a4.set(0, h.over(&six));
        },
        BoundaryCondition::SecondDerivativeSpecified(v) => {
            b.set(0, v);
            a3.set(0, one);
        },
        BoundaryCondition::NotAKnot => {
            b.set(0, zero);
            a3.set(0, t[2].minus(&t[1]).negated());
            a4.set(0, t[2].minus(&t[0]));
            a5.set(0, t[1].minus(&t[0]).negated());
        },
    }
    proof {
        let s1 = first_row(s0, t@, y@, left)->Some_0;
        assert(a1@ =~= s1.a1);
        assert(a2@ =~= s1.a2);
        assert(a3@ =~= s1.a3);
        assert(a4@ =~= s1.a4);
        assert(a5@ =~= s1.a5);
        assert(b@ =~= s1.b);
    }
    let ghost s1 = bands_of(a1@, a2@, a3@, a4@, a5@, b@);

    // The interior equations: continuity of the second derivative.
    let mut i: usize = 1;
    while i < n - 1
        invariant
            n == t@.len(),
            n == y@.len(),
            n >= 2,
            1 <= i <= n - 1,
            a1@.len() == n,
            a2@.len() == n,
            a3@.len() == n,
            a4@.len() == n,
            a5@.len() == n,
            b@.len() == n,
            three == T::spec_from_i32(3),
            six == T::spec_from_i32(6),
            interior_from(bands_of(a1@, a2@, a3@, a4@, a5@, b@), t@, y@, i as int)
                == interior_from(s1, t@, y@, 1),
            request_error(keys_of(t@), y@.len(), left_bc_ind, right_bc_ind) is None,
            first_row(s0, t@, y@, left) == Some(s1),
            left == boundary_of(left_bc_ind, left_bc_value),
            right == boundary_of(right_bc_ind, right_bc_value),
            s0 == bands_of(zero_seq::<T>(n as nat), zero_seq::<T>(n as nat), zero_seq::<T>(n as nat), zero_seq::<T>(n as nat), zero_seq::<T>(n as nat), zero_seq::<T>(n as nat)),
        decreases n - i,
    {
        let ghost s = bands_of(a1@, a2@, a3@, a4@, a5@, b@);
        let s_right = chord_slope(t, y, i + 1)?;
        let s_left = chord_slope(t, y, i)?;
        b.set(i, s_right.minus(&s_left));
        a2.set(i, t[i + 1].minus(&t[i]).over(&six));
        a3.set(i, t[i + 1].minus(&t[i - 1]).over(&three));
        a4.set(i, t[i].minus(&t[i - 1]).over(&six));
        proof {
            let e = interior_row(s, t@, y@, i as int)->Some_0;
            assert(a2@ =~= e.a2);
            assert(a3@ =~= e.a3);
            assert(a4@ =~= e.a4);
            assert(b@ =~= e.b);
        }
        i = i + 1;
    }
    let ghost s2 = bands_of(a1@, a2@, a3@, a4@, a5@, b@);
    assert(interior_from(s1, t@, y@, 1) == Some(s2));

    // The last equation.
    match right {
        BoundaryCondition::NaturalSecondDerivativeZero => {
            b.set(n - 1, zero);
            a3.set(n - 1, one);
        },
        BoundaryCondition::FirstDerivativeSpecified(v) => {
            let h = t[n - 1].minus(&t[n - 2]);
            b.set(n - 1, v.minus(&chord_slope(t, y, n - 1)?));
            a2.set(n - 1, h.over(&six));
            a3.set(n - 1, h.over(&three));
        },
        BoundaryCondition::SecondDerivativeSpecified(v) => {
            b.set(n - 1, v);
            a3.set(n - 1, one);
        },
        BoundaryCondition::NotAKnot => {
            b.set(n - 1, zero);
            a1.set(n - 1, t[n - 1].minus(&t[n - 2]).negated());
            a2.set(n - 1, t[n - 1].minus(&t[n - 3]));
            a3.set(n - 1, t[n - 2].minus(&t[n - 3]).negated());
        },
    }
    proof {
        let s3 = last_row(s2, t@, y@, right)->Some_0;
        assert(a1@ =~= s3.a1);
        assert(a2@ =~= s3.a2);
        assert(a3@ =~= s3.a3);
        assert(a4@ =~= s3.a4);
        assert(a5@ =~= s3.a5);
        assert(b@ =~= s3.b);
    }
    penta(&mut a1, &mut a2, &mut a3, &mut a4, &mut a5, &mut b)
}

} // verus!

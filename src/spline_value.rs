use vstd::prelude::*;
use crate::boundary::{check_knot_order, derivative_order, DerivativeOrder};
use crate::error::SplineError;
use crate::interval_index::{
    bracket_of, interval_bracket_binarysearch, lemma_bracket_encloses, strictly_increasing,
};
use crate::scalar::{keys_of, order_keys, Scalar};
use crate::solve_pentadiagonal::divide;

verus! {

/// The value (order 0), first derivative (order 1) or second derivative
/// (order 2) of the cubic piece over the interval `(l, r)` at `tval`; `None`
/// when a divisor is negligible. With `dt = tval - t[l]`,
/// `h = t[r] - t[l]`, the piece is
/// `y[l] + dt * ((y[r] - y[l]) / h - (ypp[r] / 6 + ypp[l] / 3) * h
///  + dt * (ypp[l] / 2 + dt * (ypp[r] - ypp[l]) / (6 h)))`.
pub open spec fn piece_spec<T: Scalar>(
    t: Seq<T>,
    y: Seq<T>,
    ypp: Seq<T>,
    tval: T,
    l: int,
    r: int,
    order: DerivativeOrder,
) -> Option<T> {
    let two = T::spec_from_i32(2);
    let three = T::spec_from_i32(3);
    let six = T::spec_from_i32(6);
    let dt = tval.spec_minus(t[l]);
    let h = t[r].spec_minus(t[l]);
    let dy = y[r].spec_minus(y[l]);
    let dypp = ypp[r].spec_minus(ypp[l]);
    let bend = ypp[r].spec_over(six).spec_plus(ypp[l].spec_over(three)).spec_times(h);
    if h.spec_negligible() {
        None
    } else {
        let slope = dy.spec_over(h).spec_minus(bend);
        match order {
            DerivativeOrder::Value => {
                let w = six.spec_times(h);
                if w.spec_negligible() {
                    None
                } else {
                    let inner = ypp[l].spec_over(two).spec_plus(dt.spec_times(dypp.spec_over(w)));
                    Some(y[l].spec_plus(dt.spec_times(slope.spec_plus(dt.spec_times(inner)))))
                }
            },
            DerivativeOrder::First => {
                let curv = dypp.spec_over(two).spec_over(h);
                Some(slope.spec_plus(dt.spec_times(ypp[l].spec_plus(dt.spec_times(curv)))))
            },
            DerivativeOrder::Second => Some(ypp[l].spec_plus(dt.spec_times(dypp).spec_over(h))),
        }
    }
}

pub open spec fn order_of(derivative: i32) -> DerivativeOrder {
    if derivative == 0 {
        DerivativeOrder::Value
    } else if derivative == 1 {
        DerivativeOrder::First
    } else {
        DerivativeOrder::Second
    }
}

/// Evaluates the cubic spline given by knots `t`, values `y` and second
/// derivatives `ypp` at `tval`: its value for order 0, its first derivative
/// for order 1, its second derivative for order 2. The piece used is the one
/// over [`bracket_of`] the knots' keys and the key of `tval` (see
/// [`piece_spec`]); outside the knots the first or last piece is extended.
///
/// The three sequences must first have one common length of at least two;
/// then any order but 0, 1 and 2 is refused; then the knots must strictly
/// increase by their ordering keys.
pub fn spline_cubic_value<T: Scalar>(
    t: &[T],
    y: &[T],
    ypp: &[T],
    tval: T,
    derivative: i32,
) -> (r: Result<T, SplineError>)
    ensures
        t@.len() < 2 || y@.len() != t@.len() || ypp@.len() != t@.len() ==> r == Err::<
            T,
            SplineError,
        >(SplineError::InvalidInputSize),
        t@.len() >= 2 && y@.len() == t@.len() && ypp@.len() == t@.len() && !(0 <= derivative
            <= 2) ==> r == Err::<T, SplineError>(SplineError::InvalidDerivativeOrder),
        0 <= derivative <= 2 && t@.len() >= 2 && y@.len() == t@.len() && ypp@.len()
            == t@.len() ==> (r == Err::<T, SplineError>(SplineError::NonMonotonicKnots)
            <==> !strictly_increasing(keys_of(t@))),
        0 <= derivative <= 2 && t@.len() >= 2 && y@.len() == t@.len() && ypp@.len()
            == t@.len() && strictly_increasing(keys_of(t@)) ==> match piece_spec(
            t@,
            y@,
            ypp@,
            tval,
            bracket_of(keys_of(t@), tval.spec_key()).0 as int,
            bracket_of(keys_of(t@), tval.spec_key()).1 as int,
            order_of(derivative),
        ) {
            Some(v) => r == Ok::<T, SplineError>(v),
            None => r == Err::<T, SplineError>(SplineError::SingularSystem),
        },
{
    let n = t.len();
    if n < 2 || y.len() != n || ypp.len() != n {
        return Err(SplineError::InvalidInputSize);
    }
    let order = derivative_order(derivative)?;
    let keys = order_keys(t);
    check_knot_order(keys.as_slice())?;
    let q = tval.order_key();
    let (left, right) = interval_bracket_binarysearch(keys.as_slice(), q);
    proof {
        lemma_bracket_encloses(keys@, q);
    }

    let two = T::from_i32(2);
    let three = T::from_i32(3);
    let six = T::from_i32(6);
    let dt = tval.minus(&t[left]);
    let h = t[right].minus(&t[left]);
    let dy = y[right].minus(&y[left]);
    let dypp = ypp[right].minus(&ypp[left]);
    let bend = ypp[right].over(&six).plus(&ypp[left].over(&three)).times(&h);
    let slope = divide(&dy, &h)?.minus(&bend);
    match order {
        DerivativeOrder::Value => {
            let cubic = divide(&dypp, &six.times(&h))?;
            let inner = ypp[left].over(&two).plus(&dt.times(&cubic));
            Ok(y[left].plus(&dt.times(&slope.plus(&dt.times(&inner)))))
        },
        DerivativeOrder::First => {
            let curv = divide(&dypp.over(&two), &h)?;
            Ok(slope.plus(&dt.times(&ypp[left].plus(&dt.times(&curv)))))
        },
        DerivativeOrder::Second => {
            let lin = divide(&dt.times(&dypp), &h)?;
            Ok(ypp[left].plus(&lin))
        },
    }
}

} // verus!

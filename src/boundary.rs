use vstd::prelude::*;
use crate::error::SplineError;
use crate::interval_index::strictly_increasing;

verus! {

/// Flag of the natural end condition (second derivative zero).
pub const NATURAL: i32 = 0;

/// Flag of a given first derivative at the end.
pub const FIRST_DERIVATIVE: i32 = 1;

/// Flag of a given second derivative at the end.
pub const SECOND_DERIVATIVE: i32 = 2;

/// Flag of the not-a-knot end condition.
pub const NOT_A_KNOT: i32 = 3;

/// The condition that closes the spline system at one end.
#[derive(Debug, Clone, Copy, PartialEq, Eq)]
pub enum BoundaryCondition<T> {
    NaturalSecondDerivativeZero,
    FirstDerivativeSpecified(T),
    SecondDerivativeSpecified(T),
    NotAKnot,
}

/// The order of derivative to evaluate.
#[derive(Debug, Clone, Copy, PartialEq, Eq, Structural)]
pub enum DerivativeOrder {
    Value,
    First,
    Second,
}

pub open spec fn is_boundary_flag(ind: i32) -> bool {
    NATURAL <= ind <= NOT_A_KNOT
}

/// Reads a boundary-condition flag with its value; the value is kept only
/// by the two conditions that need one.
pub fn boundary_condition<T: Copy>(ind: i32, value: T) -> (r: Result<BoundaryCondition<T>, SplineError>)
    ensures
        is_boundary_flag(ind) ==> r == Ok::<BoundaryCondition<T>, SplineError>(
            boundary_of(ind, value),
        ),
        !is_boundary_flag(ind) ==> r == Err::<BoundaryCondition<T>, SplineError>(
            SplineError::InvalidBoundaryCondition,
        ),
{
    if ind == NATURAL {
        Ok(BoundaryCondition::NaturalSecondDerivativeZero)
    } else if ind == FIRST_DERIVATIVE {
        Ok(BoundaryCondition::FirstDerivativeSpecified(value))
    } else if ind == SECOND_DERIVATIVE {
        Ok(BoundaryCondition::SecondDerivativeSpecified(value))
    } else if ind == NOT_A_KNOT {
        Ok(BoundaryCondition::NotAKnot)
    } else {
        Err(SplineError::InvalidBoundaryCondition)
    }
}

/// Reads a derivative order: 0, 1 and 2 are the value, the first and the
/// second derivative; anything else is refused.
pub fn derivative_order(derivative: i32) -> (r: Result<DerivativeOrder, SplineError>)
    ensures
        derivative == 0 ==> r == Ok::<DerivativeOrder, SplineError>(DerivativeOrder::Value),
        derivative == 1 ==> r == Ok::<DerivativeOrder, SplineError>(DerivativeOrder::First),
        derivative == 2 ==> r == Ok::<DerivativeOrder, SplineError>(DerivativeOrder::Second),
        r is Err <==> !(0 <= derivative <= 2),
        r is Err ==> r == Err::<DerivativeOrder, SplineError>(SplineError::InvalidDerivativeOrder),
{
    if derivative == 0 {
        Ok(DerivativeOrder::Value)
    } else if derivative == 1 {
        Ok(DerivativeOrder::First)
    } else if derivative == 2 {
        Ok(DerivativeOrder::Second)
    } else {
        Err(SplineError::InvalidDerivativeOrder)
    }
}

/// The condition that a valid flag selects, with its value where it needs one.
pub open spec fn boundary_of<T>(ind: i32, value: T) -> BoundaryCondition<T> {
    if ind == NATURAL {
        BoundaryCondition::NaturalSecondDerivativeZero
    } else if ind == FIRST_DERIVATIVE {
        BoundaryCondition::FirstDerivativeSpecified(value)
    } else if ind == SECOND_DERIVATIVE {
        BoundaryCondition::SecondDerivativeSpecified(value)
    } else {
        BoundaryCondition::NotAKnot
    }
}

/// The error that a fitting request's knot keys, its number of values and
/// its flags decide, checked in this order: sizes (including enough knots
/// for a not-a-knot end), knot order, boundary flags.
pub open spec fn request_error(keys: Seq<i64>, n_values: nat, left: i32, right: i32) -> Option<
    SplineError,
> {
    if keys.len() < 2 || n_values != keys.len() {
        Some(SplineError::InvalidInputSize)
    } else if (left == NOT_A_KNOT || right == NOT_A_KNOT) && keys.len() < 3 {
        Some(SplineError::InvalidInputSize)
    } else if !strictly_increasing(keys) {
        Some(SplineError::NonMonotonicKnots)
    } else if !is_boundary_flag(left) || !is_boundary_flag(right) {
        Some(SplineError::InvalidBoundaryCondition)
    } else {
        None
    }
}

/// Checks that the knot keys strictly increase from each one to the next.
pub fn check_knot_order(keys: &[i64]) -> (r: Result<(), SplineError>)
    ensures
        r is Ok <==> strictly_increasing(keys@),
        r is Err ==> r == Err::<(), SplineError>(SplineError::NonMonotonicKnots),
{
    if keys.len() < 2 {
        return Ok(());
    }
    let mut i: usize = 1;
    while i < keys.len()
        invariant
            1 <= i <= keys@.len(),
            forall|a: int, b: int| 0 <= a < b < i ==> keys@[a] < keys@[b],
        decreases keys@.len() - i,
    {
        if keys[i] <= keys[i - 1] {
            return Err(SplineError::NonMonotonicKnots);
        }
        assert forall|a: int, b: int| 0 <= a < b < i + 1 implies keys@[a] < keys@[b] by {
            if b == i && a < i - 1 {
                assert(keys@[a] < keys@[i - 1]);
            }
        }
        i = i + 1;
    }
    Ok(())
}

} // verus!

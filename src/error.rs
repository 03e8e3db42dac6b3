use vstd::prelude::*;

verus! {

/// Why fitting or evaluating a spline failed.
#[derive(Debug, Clone, Copy, PartialEq, Eq, Structural)]
pub enum SplineError {
    /// Fewer than two knots, lengths that differ, or too few knots for a
    /// not-a-knot end.
    InvalidInputSize,
    /// Two neighbouring knots are not strictly increasing.
    NonMonotonicKnots,
    /// A boundary-condition flag outside the four known ones.
    InvalidBoundaryCondition,
    /// A pivot or a divisor vanished during the solve.
    SingularSystem,
    /// A derivative order other than 0, 1 or 2.
    InvalidDerivativeOrder,
}

} // verus!

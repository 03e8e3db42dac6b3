//! Natural cubic spline fitting and evaluation.
//!
//! The ordering logic (bracketing a query, checking knots) works on integer
//! ordering keys; the arithmetic is generic over [`Scalar`].
mod boundary;
mod error;
mod interval_index;
mod prepare_spline;
mod scalar;
mod solve_pentadiagonal;
mod spline_value;

pub use boundary::{
    boundary_condition, boundary_of, check_knot_order, derivative_order, is_boundary_flag, request_error,
    BoundaryCondition, DerivativeOrder, FIRST_DERIVATIVE, NATURAL, NOT_A_KNOT, SECOND_DERIVATIVE,
};
pub use error::SplineError;
pub use interval_index::{
    bracket_of, interval_bracket, interval_bracket_binarysearch, lemma_bracket_encloses,
    lemma_scan_agrees_with_search, scan_bracket_of, scan_from, strictly_increasing,
};
pub use prepare_spline::{
    bands_spec, first_row, fit_spec, interior_from, interior_row, last_row, set_spline_cubic,
    slope_spec,
};
pub use solve_pentadiagonal::{
    back_from, band_shape_ok, bands_of, elim_step, forward_from, penta, penta_spec,
    solve_eliminated, Bands,
};
pub use spline_value::{order_of, piece_spec, spline_cubic_value};
pub use scalar::{keys_of, order_keys, zero_seq, Scalar};

use cubic_spline::{
    boundary_condition, check_knot_order, derivative_order, interval_bracket,
    interval_bracket_binarysearch, penta, set_spline_cubic, spline_cubic_value,
    BoundaryCondition, DerivativeOrder, Scalar, SplineError, FIRST_DERIVATIVE, NATURAL,
    NOT_A_KNOT, SECOND_DERIVATIVE,
};

#[derive(Clone, Copy, Debug, PartialEq)]
struct F(f64);

/// The bit pattern, with the negative half flipped, orders doubles as
/// `f64::total_cmp` does; both zeros map to the key of `+0.0`.
fn order_key_of(x: f64) -> i64 {
    let x = if x == 0.0 { 0.0 } else { x };
    let bits = x.to_bits() as i64;
    if bits < 0 {
        bits ^ i64::MAX
    } else {
        bits
    }
}

fn key(x: f64) -> i64 {
    order_key_of(x)
}

impl Scalar for F {
    fn spec_from_i32(k: i32) -> Self {
        F(k as f64)
    }
    fn spec_plus(self, o: Self) -> Self {
        F(self.0 + o.0)
    }
    fn spec_minus(self, o: Self) -> Self {
        F(self.0 - o.0)
    }
    fn spec_times(self, o: Self) -> Self {
        F(self.0 * o.0)
    }
    fn spec_over(self, o: Self) -> Self {
        F(self.0 / o.0)
    }
    fn spec_negated(self) -> Self {
        F(-self.0)
    }
    fn spec_negligible(self) -> bool {
        !(self.0.abs() > f64::MIN_POSITIVE)
    }
    fn spec_key(self) -> i64 {
        order_key_of(self.0)
    }
    fn from_i32(k: i32) -> Self {
        Self::spec_from_i32(k)
    }
    fn plus(&self, o: &Self) -> Self {
        self.spec_plus(*o)
    }
    fn minus(&self, o: &Self) -> Self {
        self.spec_minus(*o)
    }
    fn times(&self, o: &Self) -> Self {
        self.spec_times(*o)
    }
    fn over(&self, o: &Self) -> Self {
        self.spec_over(*o)
    }
    fn negated(&self) -> Self {
        self.spec_negated()
    }
    fn is_negligible(&self) -> bool {
        self.spec_negligible()
    }
    fn order_key(&self) -> i64 {
        self.spec_key()
    }
}

fn wrap(v: &[f64]) -> Vec<F> {
    v.iter().map(|&x| F(x)).collect()
}

fn fit(t: &[f64], y: &[f64], l: i32, lv: f64, r: i32, rv: f64) -> Vec<F> {
    set_spline_cubic(&wrap(t), &wrap(y), l, F(lv), r, F(rv)).unwrap()
}

fn eval(t: &[f64], y: &[f64], ypp: &[F], q: f64, order: i32) -> f64 {
    spline_cubic_value(&wrap(t), &wrap(y), ypp, F(q), order).unwrap().0
}

fn close(a: f64, b: f64, tol: f64) -> bool {
    (a - b).abs() <= tol
}

fn keys(v: &[f64]) -> Vec<i64> {
    v.iter().map(|&x| key(x)).collect()
}

#[test]
fn bracket_of_interior_and_outside_queries() {
    let k = keys(&[0.0, 1.0, 2.0, 3.0, 4.0]);
    assert_eq!(interval_bracket_binarysearch(&k, key(2.5)), (2, 3));
    assert_eq!(interval_bracket_binarysearch(&k, key(-1.0)), (0, 1));
    assert_eq!(interval_bracket_binarysearch(&k, key(10.0)), (3, 4));
    assert_eq!(interval_bracket_binarysearch(&k, key(0.5)), (0, 1));
    assert_eq!(interval_bracket_binarysearch(&k, key(3.999)), (3, 4));
}

#[test]
fn bracket_at_every_knot() {
    let k = keys(&[0.0, 1.0, 2.0, 3.0, 4.0]);
    let expected = [(0, 1), (0, 1), (1, 2), (2, 3), (3, 4)];
    for (i, &x) in [0.0, 1.0, 2.0, 3.0, 4.0].iter().enumerate() {
        assert_eq!(interval_bracket_binarysearch(&k, key(x)), expected[i]);
        assert_eq!(interval_bracket(&k, key(x)), expected[i]);
    }
    assert_eq!(interval_bracket_binarysearch(&k, key(2.0)), (1, 2));
}

#[test]
fn scan_and_search_agree() {
    let knots = [-3.0, -1.5, -0.25, 0.0, 0.75, 2.0, 5.5, 9.0];
    let k = keys(&knots);
    let mut q = -5.0;
    while q < 11.0 {
        assert_eq!(interval_bracket(&k, key(q)), interval_bracket_binarysearch(&k, key(q)));
        q += 0.125;
    }
    for &x in knots.iter() {
        assert_eq!(interval_bracket(&k, key(x)), interval_bracket_binarysearch(&k, key(x)));
    }
}

#[test]
fn bracket_of_two_knots() {
    let k = keys(&[1.0, 2.0]);
    assert_eq!(interval_bracket_binarysearch(&k, key(0.0)), (0, 1));
    assert_eq!(interval_bracket_binarysearch(&k, key(1.5)), (0, 1));
    assert_eq!(interval_bracket_binarysearch(&k, key(3.0)), (0, 1));
    assert_eq!(interval_bracket(&k, key(1.5)), (0, 1));
}

#[test]
fn penta_residual_reproduces_rhs() {
    let a1 = vec![0.0, 0.0, 1.0, 1.0, 1.0];
    let a2 = vec![0.0, 1.0, 1.0, 1.0, 1.0];
    let a3 = vec![2.0, 2.0, 2.0, 2.0, 2.0];
    let a4 = vec![1.0, 1.0, 1.0, 1.0, 0.0];
    let a5 = vec![1.0, 1.0, 1.0, 0.0, 0.0];
    let b = vec![5.0, 5.0, 5.0, 5.0, 5.0];
    let (mut w1, mut w2, mut w3, mut w4, mut w5, mut wb) =
        (wrap(&a1), wrap(&a2), wrap(&a3), wrap(&a4), wrap(&a5), wrap(&b));
    let x = penta(&mut w1, &mut w2, &mut w3, &mut w4, &mut w5, &mut wb).unwrap();
    assert_eq!(x.len(), 5);
    let n = 5usize;
    for i in 0..n {
        let mut s = a3[i] * x[i].0;
        if i >= 2 {
            s += a1[i] * x[i - 2].0;
        }
        if i >= 1 {
            s += a2[i] * x[i - 1].0;
        }
        if i + 1 < n {
            s += a4[i] * x[i + 1].0;
        }
        if i + 2 < n {
            s += a5[i] * x[i + 2].0;
        }
        assert!(close(s, b[i], 1e-9), "row {} gives {}", i, s);
    }
}

#[test]
fn penta_refuses_mismatched_bands() {
    let mut a1 = wrap(&[0.0, 0.0, 0.0]);
    let mut a2 = wrap(&[0.0, 0.0, 0.0]);
    let mut a3 = wrap(&[1.0, 1.0]);
    let mut a4 = wrap(&[0.0, 0.0, 0.0]);
    let mut a5 = wrap(&[0.0, 0.0, 0.0]);
    let mut b = wrap(&[1.0, 1.0, 1.0]);
    let r = penta(&mut a1, &mut a2, &mut a3, &mut a4, &mut a5, &mut b);
    assert_eq!(r, Err(SplineError::InvalidInputSize));
    assert_eq!(a3, wrap(&[1.0, 1.0]));
}

#[test]
fn penta_reports_zero_pivot() {
    let mut a1 = wrap(&[0.0, 0.0, 0.0]);
    let mut a2 = wrap(&[0.0, 1.0, 1.0]);
    let mut a3 = wrap(&[0.0, 1.0, 1.0]);
    let mut a4 = wrap(&[1.0, 1.0, 0.0]);
    let mut a5 = wrap(&[0.0, 0.0, 0.0]);
    let mut b = wrap(&[1.0, 1.0, 1.0]);
    let r = penta(&mut a1, &mut a2, &mut a3, &mut a4, &mut a5, &mut b);
    assert_eq!(r, Err(SplineError::SingularSystem));
}

#[test]
fn penta_two_by_two() {
    // 2 x0 + x1 = 4, x0 + 3 x1 = 7  ->  x = (1, 2)
    let mut a1 = wrap(&[0.0, 0.0]);
    let mut a2 = wrap(&[0.0, 1.0]);
    let mut a3 = wrap(&[2.0, 3.0]);
    let mut a4 = wrap(&[1.0, 0.0]);
    let mut a5 = wrap(&[0.0, 0.0]);
    let mut b = wrap(&[4.0, 7.0]);
    let x = penta(&mut a1, &mut a2, &mut a3, &mut a4, &mut a5, &mut b).unwrap();
    assert!(close(x[0].0, 1.0, 1e-12));
    assert!(close(x[1].0, 2.0, 1e-12));
}

#[test]
fn interpolates_at_every_knot() {
    let t = [0.0, 0.3, 1.1, 1.5, 2.8, 3.0, 4.7];
    let y = [1.0, -2.0, 0.5, 3.25, -1.0, 0.0, 2.0];
    let conds = [
        (NATURAL, 0.0, NATURAL, 0.0),
        (FIRST_DERIVATIVE, 1.5, FIRST_DERIVATIVE, -0.5),
        (SECOND_DERIVATIVE, 2.0, SECOND_DERIVATIVE, -3.0),
        (NOT_A_KNOT, 0.0, NOT_A_KNOT, 0.0),
        (NATURAL, 0.0, NOT_A_KNOT, 0.0),
    ];
    for &(l, lv, r, rv) in conds.iter() {
        let ypp = fit(&t, &y, l, lv, r, rv);
        assert_eq!(ypp.len(), t.len());
        for i in 0..t.len() {
            assert!(close(eval(&t, &y, &ypp, t[i], 0), y[i], 1e-9));
        }
    }
}

#[test]
fn linear_data_gives_linear_spline() {
    let t = [-2.0, -0.5, 0.0, 1.25, 3.0, 4.0];
    let (m, c) = (1.75, -0.5);
    let y: Vec<f64> = t.iter().map(|&x| m * x + c).collect();
    let ypp = fit(&t, &y, NATURAL, 0.0, NATURAL, 0.0);
    let mut q = -3.0;
    while q <= 5.0 {
        assert!(close(eval(&t, &y, &ypp, q, 0), m * q + c, 1e-9));
        assert!(close(eval(&t, &y, &ypp, q, 1), m, 1e-9));
        assert!(close(eval(&t, &y, &ypp, q, 2), 0.0, 1e-9));
        q += 0.25;
    }
}

#[test]
fn quadratic_data_is_reproduced() {
    let t = [0.0, 1.0, 2.0, 3.0, 4.0];
    let f = |x: f64| 0.5 * x * x - x + 2.0;
    let y: Vec<f64> = t.iter().map(|&x| f(x)).collect();
    let fits = [
        fit(&t, &y, NOT_A_KNOT, 0.0, NOT_A_KNOT, 0.0),
        fit(&t, &y, FIRST_DERIVATIVE, -1.0, FIRST_DERIVATIVE, 3.0),
        fit(&t, &y, SECOND_DERIVATIVE, 1.0, SECOND_DERIVATIVE, 1.0),
    ];
    for ypp in fits.iter() {
        for p in ypp.iter() {
            assert!(close(p.0, 1.0, 1e-9));
        }
        let mut q = -1.0;
        while q <= 5.0 {
            assert!(close(eval(&t, &y, ypp, q, 0), f(q), 1e-9));
            assert!(close(eval(&t, &y, ypp, q, 1), q - 1.0, 1e-9));
            assert!(close(eval(&t, &y, ypp, q, 2), 1.0, 1e-9));
            q += 0.125;
        }
    }
}

#[test]
fn natural_end_has_zero_second_derivative() {
    let t = [0.0, 1.0, 2.5, 3.0];
    let y = [0.0, 2.0, -1.0, 4.0];
    let ypp = fit(&t, &y, NATURAL, 0.0, NATURAL, 0.0);
    assert!(close(ypp[0].0, 0.0, 1e-12));
    assert!(close(ypp[3].0, 0.0, 1e-12));
    assert!(close(eval(&t, &y, &ypp, 0.0, 2), 0.0, 1e-12));
}

#[test]
fn first_derivative_end_is_met() {
    let t = [0.0, 1.0, 2.0, 3.5];
    let y = [1.0, 0.0, 2.0, 2.5];
    let ypp = fit(&t, &y, FIRST_DERIVATIVE, 0.75, FIRST_DERIVATIVE, -2.0);
    assert!(close(eval(&t, &y, &ypp, 0.0, 1), 0.75, 1e-9));
    assert!(close(eval(&t, &y, &ypp, 3.5, 1), -2.0, 1e-9));
}

#[test]
fn sine_end_to_end() {
    let pi = std::f64::consts::PI;
    let t: Vec<f64> = (0..36).map(|i| i as f64 * (2.0 * pi / 35.0)).collect();
    let y: Vec<f64> = t.iter().map(|&x| x.sin()).collect();
    let ypp = fit(&t, &y, NATURAL, 0.0, NATURAL, 0.0);
    assert!(close(eval(&t, &y, &ypp, pi, 0), 0.0, 1e-3));
    assert!(close(eval(&t, &y, &ypp, pi, 2), 0.0, 1e-3));
    assert!(close(eval(&t, &y, &ypp, pi / 2.0, 0), 1.0, 1e-3));
    assert!(close(eval(&t, &y, &ypp, pi, 1), -1.0, 1e-2));
}

#[test]
fn evaluation_outside_the_knots_extends_end_pieces() {
    let t = [0.0, 1.0, 2.0];
    let y = [0.0, 1.0, 4.0];
    let ypp = wrap(&[0.0, 0.0, 0.0]);
    // the first piece is the line through (0, 0) and (1, 1)
    assert!(close(eval(&t, &y, &ypp, -1.0, 0), -1.0, 1e-12));
    // the last piece is the line through (1, 1) and (2, 4)
    assert!(close(eval(&t, &y, &ypp, 3.0, 0), 7.0, 1e-12));
    assert!(close(eval(&t, &y, &ypp, 2.5, 1), 3.0, 1e-12));
}

#[test]
fn evaluation_formula_on_one_piece() {
    // y = 0, 1 at t = 0, 1 with ypp = 6, 0:
    // value = dt * (1 - 2 + dt * (3 - dt)) at dt = 0.5 -> 0.125
    let t = [0.0, 1.0];
    let y = [0.0, 1.0];
    let ypp = wrap(&[6.0, 0.0]);
    assert!(close(eval(&t, &y, &ypp, 0.5, 0), 0.125, 1e-12));
    // first derivative: -1 + dt * (6 - 3 dt) at dt = 0.5 -> 1.25
    assert!(close(eval(&t, &y, &ypp, 0.5, 1), 1.25, 1e-12));
    // second derivative: 6 - 6 dt -> 3
    assert!(close(eval(&t, &y, &ypp, 0.5, 2), 3.0, 1e-12));
}

#[test]
fn bad_derivative_order_fails() {
    let t = wrap(&[0.0, 1.0, 2.0]);
    let y = wrap(&[0.0, 1.0, 0.0]);
    let ypp = wrap(&[0.0, 0.0, 0.0]);
    for order in [3, -1, 7, i32::MAX] {
        assert_eq!(
            spline_cubic_value(&t, &y, &ypp, F(0.5), order),
            Err(SplineError::InvalidDerivativeOrder)
        );
    }
    assert_eq!(derivative_order(3), Err(SplineError::InvalidDerivativeOrder));
    assert_eq!(derivative_order(0), Ok(DerivativeOrder::Value));
    assert_eq!(derivative_order(1), Ok(DerivativeOrder::First));
    assert_eq!(derivative_order(2), Ok(DerivativeOrder::Second));
}

#[test]
fn evaluation_checks_sizes_and_order() {
    let t = wrap(&[0.0, 1.0, 2.0]);
    let y = wrap(&[0.0, 1.0]);
    let ypp = wrap(&[0.0, 0.0, 0.0]);
    assert_eq!(spline_cubic_value(&t, &y, &ypp, F(0.5), 0), Err(SplineError::InvalidInputSize));
    let one = wrap(&[1.0]);
    assert_eq!(spline_cubic_value(&one, &one, &one, F(0.5), 1), Err(SplineError::InvalidInputSize));
    let none: Vec<F> = Vec::new();
    assert_eq!(spline_cubic_value(&none, &none, &none, F(0.5), 5), Err(SplineError::InvalidInputSize));
    assert_eq!(spline_cubic_value(&t, &y, &ypp, F(0.5), 5), Err(SplineError::InvalidInputSize));
    let bad = wrap(&[0.0, 2.0, 1.0]);
    let y3 = wrap(&[0.0, 1.0, 2.0]);
    assert_eq!(spline_cubic_value(&bad, &y3, &ypp, F(0.5), 2), Err(SplineError::NonMonotonicKnots));
}

#[test]
fn build_rejects_bad_input() {
    let t = wrap(&[0.0, 1.0, 2.0]);
    let y = wrap(&[0.0, 1.0, 0.0]);
    let z = F(0.0);
    assert_eq!(set_spline_cubic(&t[..1], &y[..1], NATURAL, z, NATURAL, z), Err(SplineError::InvalidInputSize));
    assert_eq!(set_spline_cubic(&t, &y[..2], NATURAL, z, NATURAL, z), Err(SplineError::InvalidInputSize));
    assert_eq!(set_spline_cubic(&t[..2], &y[..2], NOT_A_KNOT, z, NATURAL, z), Err(SplineError::InvalidInputSize));
    assert_eq!(set_spline_cubic(&t, &y, 4, z, NATURAL, z), Err(SplineError::InvalidBoundaryCondition));
    assert_eq!(set_spline_cubic(&t, &y, NATURAL, z, -1, z), Err(SplineError::InvalidBoundaryCondition));
    let two = wrap(&[0.0, 1.0]);
    assert_eq!(set_spline_cubic(&two, &two, 9, z, NOT_A_KNOT, z), Err(SplineError::InvalidInputSize));
    assert_eq!(set_spline_cubic(&two, &two, 9, z, NATURAL, z), Err(SplineError::InvalidBoundaryCondition));
    assert_eq!(set_spline_cubic(&two, &two, NOT_A_KNOT, z, 9, z), Err(SplineError::InvalidInputSize));
    let down3 = wrap(&[0.0, 2.0, 1.0]);
    assert_eq!(set_spline_cubic(&down3, &y, 9, z, NATURAL, z), Err(SplineError::NonMonotonicKnots));
    let flat = wrap(&[0.0, 1.0, 1.0]);
    assert_eq!(set_spline_cubic(&flat, &y, NATURAL, z, NATURAL, z), Err(SplineError::NonMonotonicKnots));
    let down = wrap(&[0.0, 2.0, 1.0]);
    assert_eq!(set_spline_cubic(&down, &y, NATURAL, z, NATURAL, z), Err(SplineError::NonMonotonicKnots));
}

#[test]
fn two_knots_fit_a_line() {
    let t = [1.0, 3.0];
    let y = [2.0, 6.0];
    let ypp = fit(&t, &y, NATURAL, 0.0, NATURAL, 0.0);
    assert_eq!(ypp.len(), 2);
    assert!(close(eval(&t, &y, &ypp, 2.0, 0), 4.0, 1e-12));
    assert!(close(eval(&t, &y, &ypp, 2.0, 1), 2.0, 1e-12));
}

#[test]
fn knot_order_check() {
    assert_eq!(check_knot_order(&[1, 2, 5]), Ok(()));
    assert_eq!(check_knot_order(&[]), Ok(()));
    assert_eq!(check_knot_order(&[1, 1]), Err(SplineError::NonMonotonicKnots));
    assert_eq!(check_knot_order(&[3, 2, 5]), Err(SplineError::NonMonotonicKnots));
    assert_eq!(check_knot_order(&keys(&[-2.0, -0.5, 0.0, 0.5])), Ok(()));
}

#[test]
fn boundary_flags_are_read() {
    assert_eq!(boundary_condition(NATURAL, 1.5), Ok(BoundaryCondition::NaturalSecondDerivativeZero));
    assert_eq!(boundary_condition(FIRST_DERIVATIVE, 1.5), Ok(BoundaryCondition::FirstDerivativeSpecified(1.5)));
    assert_eq!(boundary_condition(SECOND_DERIVATIVE, 1.5), Ok(BoundaryCondition::SecondDerivativeSpecified(1.5)));
    assert_eq!(boundary_condition(NOT_A_KNOT, 1.5), Ok(BoundaryCondition::NotAKnot));
    assert_eq!(boundary_condition(9, 1.5), Err(SplineError::InvalidBoundaryCondition));
}

use linfit::{FitError, LinearRegression, Point, Scalar, SCALE};

fn pt(x: i64, y: i64) -> Point {
    Point { x: Scalar::from_int(x), y: Scalar::from_int(y) }
}

fn fitter(points: Vec<Point>) -> LinearRegression {
    LinearRegression::create(points).unwrap()
}

#[test]
fn create_rejects_empty_point_set() {
    let r = LinearRegression::create(Vec::new());
    assert_eq!(r.unwrap_err(), FitError::InvalidInput);
}

#[test]
fn create_starts_at_the_origin_line() {
    let f = fitter(vec![pt(1, 2), pt(3, 4)]);
    let line = f.current_line();
    assert_eq!(line.m.raw, 0);
    assert_eq!(line.b.raw, 0);
}

#[test]
fn initial_mse_is_mean_of_squared_y() {
    // {(1, 2), (3, 4)}: (2^2 + 4^2) / 2 = 10.
    let f = fitter(vec![pt(1, 2), pt(3, 4)]);
    assert_eq!(f.mean_squared_error().raw, 10 * SCALE);
}

#[test]
fn initial_mse_single_point() {
    // {(7, 3)}: 3^2 = 9.
    let f = fitter(vec![pt(7, 3)]);
    assert_eq!(f.mean_squared_error().raw, 9 * SCALE);
}

#[test]
fn step_zero_is_a_noop() {
    let mut f = fitter(vec![pt(1, 2), pt(3, 4)]);
    f.step(3);
    let line_before = f.current_line();
    let mse_before = f.mean_squared_error();
    f.step(0);
    let line_after = f.current_line();
    assert_eq!(line_after.m.raw, line_before.m.raw);
    assert_eq!(line_after.b.raw, line_before.b.raw);
    assert_eq!(f.mean_squared_error().raw, mse_before.raw);
}

#[test]
fn steps_compose() {
    // step(3); step(4) lands on the same line as step(7).
    let mut f1 = fitter(vec![pt(1, 2), pt(3, 4), pt(-2, 1)]);
    let mut f2 = fitter(vec![pt(1, 2), pt(3, 4), pt(-2, 1)]);
    f1.step(3);
    f1.step(4);
    f2.step(7);
    let l1 = f1.current_line();
    let l2 = f2.current_line();
    assert_eq!(l1.m.raw, l2.m.raw);
    assert_eq!(l1.b.raw, l2.b.raw);
}

#[test]
fn one_step_from_origin_exact() {
    // {(1, 2), (3, 4)} at the default rate 1e-4: the gradients at (0, 0) are
    // (-7, -3), so one step lands exactly on m = 7e-4, b = 3e-4.
    let mut f = fitter(vec![pt(1, 2), pt(3, 4)]);
    f.step(1);
    let line = f.current_line();
    assert_eq!(line.m.raw, 700_000);
    assert_eq!(line.b.raw, 300_000);
}

#[test]
fn converges_on_degenerate_two_point_set() {
    // {(0, 0), (1, 1)} with rate 0.1: the fit approaches y = x; after 10000
    // iterations m and b are within 1e-4 of 1 and 0, and the MSE is below
    // 1e-4.
    let mut f = fitter(vec![pt(0, 0), pt(1, 1)]);
    f.set_learning_rate(Scalar::from_raw(SCALE / 10));
    f.step(10_000);
    let line = f.current_line();
    let tol = SCALE / 10_000;
    assert!((line.m.raw - SCALE).abs() <= tol);
    assert!(line.b.raw.abs() <= tol);
    assert!(f.mean_squared_error().raw <= tol);
}

#[test]
fn converges_on_constant_y_point_set() {
    // {(0, 5), (1, 5), (2, 5)} with rate 0.1: the fit approaches the flat
    // line y = 5.
    let mut f = fitter(vec![pt(0, 5), pt(1, 5), pt(2, 5)]);
    f.set_learning_rate(Scalar::from_raw(SCALE / 10));
    f.step(10_000);
    let line = f.current_line();
    let tol = SCALE / 10_000;
    assert!(line.m.raw.abs() <= tol);
    assert!((line.b.raw - 5 * SCALE).abs() <= tol);
}

#[test]
fn mse_is_never_negative() {
    // A rate far too large makes the estimate diverge and saturate; the MSE
    // still never goes below zero.
    let mut f = fitter(vec![pt(-3, 7), pt(2, -9), pt(5, 11)]);
    f.set_learning_rate(Scalar::from_int(1_000_000));
    for _ in 0..50 {
        f.step(1);
        assert!(f.mean_squared_error().raw >= 0);
    }
}

#[test]
fn set_learning_rate_leaves_line_and_mse_unchanged() {
    let mut f = fitter(vec![pt(1, 2), pt(3, 4)]);
    f.step(5);
    let line_before = f.current_line();
    let mse_before = f.mean_squared_error();
    f.set_learning_rate(Scalar::from_raw(SCALE / 100));
    let line_after = f.current_line();
    assert_eq!(line_after.m.raw, line_before.m.raw);
    assert_eq!(line_after.b.raw, line_before.b.raw);
    assert_eq!(f.mean_squared_error().raw, mse_before.raw);
}

#[test]
fn rate_change_affects_only_later_steps() {
    // Two fitters run the same first step; one then raises its rate to 0.01.
    // The first step's outcome agrees; only the second step's differs.
    let mut a = fitter(vec![pt(1, 2), pt(3, 4)]);
    let mut b = fitter(vec![pt(1, 2), pt(3, 4)]);
    a.step(1);
    b.step(1);
    let la = a.current_line();
    let lb = b.current_line();
    assert_eq!(la.m.raw, lb.m.raw);
    assert_eq!(la.b.raw, lb.b.raw);
    a.set_learning_rate(Scalar::from_raw(SCALE / 100));
    a.step(1);
    b.step(1);
    let la2 = a.current_line();
    let lb2 = b.current_line();
    // Simulated exactly: with the raised rate the second update is a hundred
    // times the default one.
    assert_eq!(la2.m.raw, 70_659_000);
    assert_eq!(la2.b.raw, 30_283_000);
    assert_eq!(lb2.m.raw, 1_399_590);
    assert_eq!(lb2.b.raw, 599_830);
}

#[test]
fn point_order_does_not_affect_results() {
    // The same points in reverse order: sums accumulate exactly, so the fit
    // and its error agree step for step.
    let mut f1 = fitter(vec![pt(1, 2), pt(3, 4), pt(-2, 1)]);
    let mut f2 = fitter(vec![pt(-2, 1), pt(3, 4), pt(1, 2)]);
    f1.step(5);
    f2.step(5);
    let l1 = f1.current_line();
    let l2 = f2.current_line();
    assert_eq!(l1.m.raw, l2.m.raw);
    assert_eq!(l1.b.raw, l2.b.raw);
    assert_eq!(f1.mean_squared_error().raw, f2.mean_squared_error().raw);
}

#[test]
fn scalar_from_int_scales_exactly() {
    assert_eq!(Scalar::from_int(3).raw, 3 * SCALE);
    assert_eq!(Scalar::from_int(-2).raw, -2 * SCALE);
    assert_eq!(Scalar::from_int(0).raw, 0);
}

#[test]
fn scalar_from_int_saturates_at_the_bounds() {
    assert_eq!(Scalar::from_int(i64::MAX).raw, i64::MAX);
    assert_eq!(Scalar::from_int(i64::MIN).raw, i64::MIN);
}

#[test]
fn scalar_addition_saturates() {
    assert_eq!(Scalar::from_raw(i64::MAX).sat_add(Scalar::from_raw(1)).raw, i64::MAX);
    assert_eq!(Scalar::from_raw(i64::MIN).sat_sub(Scalar::from_raw(1)).raw, i64::MIN);
    assert_eq!(Scalar::from_raw(40).sat_add(Scalar::from_raw(2)).raw, 42);
}

#[test]
fn scalar_multiplication_truncates_toward_zero() {
    // 1.5 * 1.5 = 2.25 exactly; 0.0000000015^2 truncates to zero.
    let x = Scalar::from_raw(3 * SCALE / 2);
    assert_eq!(x.times(x).raw, 2_250_000_000);
    let tiny = Scalar::from_raw(15);
    assert_eq!(tiny.times(tiny).raw, 0);
    let neg = Scalar::from_raw(-15);
    assert_eq!(neg.times(Scalar::from_raw(15)).raw, 0);
    assert_eq!(Scalar::from_int(-3).times(Scalar::from_int(2)).raw, -6 * SCALE);
}

#[test]
fn scalar_multiplication_saturates() {
    let big = Scalar::from_raw(i64::MAX);
    assert_eq!(big.times(big).raw, i64::MAX);
    assert_eq!(Scalar::from_raw(i64::MIN).times(big).raw, i64::MIN);
}

//! The fitter: full-batch gradient descent for a straight line over a fixed,
//! non-empty point set.
//!
//! The spec functions below give the exact value of every update: for a
//! current line `(m, b)` the batch-averaged gradients are
//! `(1/n) * sum((m*x_i + b - y_i) * x_i)` and `(1/n) * sum(m*x_i + b - y_i)`,
//! computed in saturating fixed-point arithmetic with truncating division,
//! and both parameters move simultaneously by `learning_rate` times their
//! gradient. The fit is deterministic: the line after `step(k)` is pinned by
//! `iterate` applied to the point set, the learning rate, the starting line
//! and `k`.

use vstd::prelude::*;

use crate::fixed::add_spec;
use crate::fixed::mean_of_sum;
use crate::fixed::mul_spec;
use crate::fixed::sat64;
use crate::fixed::sub_spec;
use crate::fixed::tdiv;
use crate::fixed::Scalar;

verus! {

/// The learning rate a new fitter starts with, in fixed-point units: 1e-4.
pub const DEFAULT_LEARNING_RATE_RAW: i64 = 100_000;

/// A data point `(x, y)`.
#[derive(Clone, Copy, PartialEq, Eq, Structural, Debug)]
pub struct Point {
    pub x: Scalar,
    pub y: Scalar,
}

impl View for Point {
    type V = (int, int);

    open spec fn view(&self) -> (int, int) {
        (self.x@, self.y@)
    }
}

/// A line `y = m*x + b`.
#[derive(Clone, Copy, PartialEq, Eq, Structural, Debug)]
pub struct Line {
    pub m: Scalar,
    pub b: Scalar,
}

impl View for Line {
    type V = (int, int);

    open spec fn view(&self) -> (int, int) {
        (self.m@, self.b@)
    }
}

/// The one failure the fitter knows: construction from an empty point set.
#[derive(Clone, Copy, PartialEq, Eq, Structural, Debug)]
pub enum FitError {
    InvalidInput,
}

/// A point sequence as the pairs of fixed-point units it holds.
pub open spec fn model_of(points: Seq<Point>) -> Seq<(int, int)> {
    points.map_values(|p: Point| p@)
}

/// The line's prediction at `x`.
pub open spec fn predicted(m: int, b: int, x: int) -> int {
    add_spec(mul_spec(m, x), b)
}

/// The signed error of the prediction at a point: `(m*x + b) - y`.
pub open spec fn residual(m: int, b: int, p: (int, int)) -> int {
    sub_spec(predicted(m, b, p.0), p.1)
}

/// Exact sum of the per-point slope-gradient terms `residual * x`.
pub open spec fn slope_grad_sum(pts: Seq<(int, int)>, m: int, b: int) -> int
    decreases pts.len(),
{
    if pts.len() == 0 {
        0
    } else {
        slope_grad_sum(pts.drop_last(), m, b) + mul_spec(residual(m, b, pts.last()), pts.last().0)
    }
}

/// Exact sum of the per-point intercept-gradient terms `residual`.
pub open spec fn intercept_grad_sum(pts: Seq<(int, int)>, m: int, b: int) -> int
    decreases pts.len(),
{
    if pts.len() == 0 {
        0
    } else {
        intercept_grad_sum(pts.drop_last(), m, b) + residual(m, b, pts.last())
    }
}

/// The batch-averaged partial derivative of the MSE with respect to the slope.
pub open spec fn slope_grad(pts: Seq<(int, int)>, m: int, b: int) -> int {
    sat64(tdiv(slope_grad_sum(pts, m, b), pts.len() as int))
}

/// The batch-averaged partial derivative of the MSE with respect to the
/// intercept.
pub open spec fn intercept_grad(pts: Seq<(int, int)>, m: int, b: int) -> int {
    sat64(tdiv(intercept_grad_sum(pts, m, b), pts.len() as int))
}

/// One full-batch update: both parameters move simultaneously by
/// `rate` times their gradient at the current line.
pub open spec fn step_once(pts: Seq<(int, int)>, rate: int, line: (int, int)) -> (int, int) {
    (
        sub_spec(line.0, mul_spec(rate, slope_grad(pts, line.0, line.1))),
        sub_spec(line.1, mul_spec(rate, intercept_grad(pts, line.0, line.1))),
    )
}

/// The line after `k` successive full-batch updates.
pub open spec fn iterate(pts: Seq<(int, int)>, rate: int, line: (int, int), k: nat) -> (int, int)
    decreases k,
{
    if k == 0 {
        line
    } else {
        step_once(pts, rate, iterate(pts, rate, line, (k - 1) as nat))
    }
}

/// Exact sum of the squared errors `(y - (m*x + b))^2` over the points.
pub open spec fn squared_residual_sum(pts: Seq<(int, int)>, m: int, b: int) -> int
    decreases pts.len(),
{
    if pts.len() == 0 {
        0
    } else {
        squared_residual_sum(pts.drop_last(), m, b) + mul_spec(
            sub_spec(pts.last().1, predicted(m, b, pts.last().0)),
            sub_spec(pts.last().1, predicted(m, b, pts.last().0)),
        )
    }
}

/// The mean squared error of a line over a point set.
pub open spec fn mse_model(pts: Seq<(int, int)>, m: int, b: int) -> int {
    sat64(tdiv(squared_residual_sum(pts, m, b), pts.len() as int))
}

/// The stateful estimator: an immutable point set, the current line estimate
/// and the learning rate for future steps.
#[derive(Debug)]
pub struct LinearRegression {
    points: Vec<Point>,
    m: Scalar,
    b: Scalar,
    learning_rate: Scalar,
}

impl LinearRegression {
    /// The point set, as the pairs of fixed-point units it holds.
    pub closed spec fn points_model(self) -> Seq<(int, int)> {
        model_of(self.points@)
    }

    /// The current estimate `(m, b)`, in fixed-point units.
    pub closed spec fn line_model(self) -> (int, int) {
        (self.m@, self.b@)
    }

    /// The learning rate, in fixed-point units.
    pub closed spec fn rate_model(self) -> int {
        self.learning_rate@
    }

    /// A fitter is well-formed exactly when its point set is non-empty.
    pub open spec fn wf(self) -> bool {
        self.points_model().len() > 0
    }

    /// Builds a fitter over `points` with the line at `(0, 0)` and the
    /// default learning rate; rejects an empty point set.
    pub fn create(points: Vec<Point>) -> (r: Result<LinearRegression, FitError>)
        ensures
            match r {
                Ok(f) => f.wf() && f.points_model() == model_of(points@) && f.line_model() == (
                    0int,
                    0int,
                ) && f.rate_model() == DEFAULT_LEARNING_RATE_RAW as int && points@.len() > 0,
                Err(e) => e == FitError::InvalidInput && points@.len() == 0,
            },
    {
        if points.len() == 0 {
            Err(FitError::InvalidInput)
        } else {
            Ok(
                LinearRegression {
                    points,
                    m: Scalar::from_raw(0),
                    b: Scalar::from_raw(0),
                    learning_rate: Scalar::from_raw(DEFAULT_LEARNING_RATE_RAW),
                },
            )
        }
    }

    /// Replaces the learning rate; the point set and the current line are
    /// untouched, so only future steps are affected.
    pub fn set_learning_rate(&mut self, rate: Scalar)
        ensures
            final(self).points_model() == old(self).points_model(),
            final(self).line_model() == old(self).line_model(),
            final(self).rate_model() == rate@,
    {
        self.learning_rate = rate;
    }

    /// The current `(m, b)` snapshot; a pure read.
    pub fn current_line(&self) -> (r: Line)
        ensures
            r@ == self.line_model(),
    {
        Line { m: self.m, b: self.b }
    }

    /// The mean squared error of the current line over the point set; a pure
    /// read, and never negative.
    pub fn mean_squared_error(&self) -> (r: Scalar)
        requires
            self.wf(),
        ensures
            r@ == mse_model(self.points_model(), self.line_model().0, self.line_model().1),
            r@ >= 0,
    {
        let n: usize = self.points.len();
        let mut sum: i128 = 0;
        let mut i: usize = 0;
        while i < n
            invariant
                0 <= i <= n,
                n == self.points@.len(),
                sum as int == squared_residual_sum(
                    model_of(self.points@).take(i as int),
                    self.m@,
                    self.b@,
                ),
                0 <= sum as int <= (i as int) * 0x8000_0000_0000_0000,
            decreases n - i,
        {
            let p: Point = self.points[i];
            let d: Scalar = p.y.sat_sub(self.m.times(p.x).sat_add(self.b));
            let t: Scalar = d.times(d);
            proof {
                let s: Seq<(int, int)> = model_of(self.points@);
                assert(s.take(i as int + 1).drop_last() =~= s.take(i as int));
                assert(s.take(i as int + 1).last() == s[i as int]);
                assert(t@ >= 0) by {
                    assert(d@ * d@ >= 0) by (nonlinear_arith);
                    vstd::arithmetic::div_mod::lemma_div_pos_is_pos(
                        d@ * d@,
                        crate::fixed::SCALE as int,
                    );
                };
            }
            sum = sum + (t.raw as i128);
            i = i + 1;
        }
        proof {
            assert(model_of(self.points@).take(n as int) =~= model_of(self.points@));
            vstd::arithmetic::div_mod::lemma_div_pos_is_pos(sum as int, n as int);
        }
        Scalar::from_raw(mean_of_sum(sum, n))
    }

    /// Advances the estimate by `iterations` successive full-batch updates;
    /// the point set and the learning rate are untouched.
    pub fn step(&mut self, iterations: u32)
        requires
            old(self).wf(),
        ensures
            final(self).wf(),
            final(self).points_model() == old(self).points_model(),
            final(self).rate_model() == old(self).rate_model(),
            final(self).line_model() == iterate(
                old(self).points_model(),
                old(self).rate_model(),
                old(self).line_model(),
                iterations as nat,
            ),
    {
        let ghost pts0: Seq<(int, int)> = self.points_model();
        let ghost rate0: int = self.rate_model();
        let ghost line0: (int, int) = self.line_model();
        let mut k: u32 = 0;
        while k < iterations
            invariant
                0 <= k <= iterations,
                self.wf(),
                self.points_model() == pts0,
                self.rate_model() == rate0,
                self.line_model() == iterate(pts0, rate0, line0, k as nat),
            decreases iterations - k,
        {
            let (gm, gb): (Scalar, Scalar) = gradients(&self.points, self.m, self.b);
            self.m = self.m.sat_sub(self.learning_rate.times(gm));
            self.b = self.b.sat_sub(self.learning_rate.times(gb));
            k = k + 1;
        }
    }
}

/// The batch-averaged gradients of the MSE at line `(m, b)`, computed in one
/// pass with exact 128-bit accumulation before the division by the count.
fn gradients(points: &Vec<Point>, m: Scalar, b: Scalar) -> (r: (Scalar, Scalar))
    requires
        points@.len() > 0,
    ensures
        r.0@ == slope_grad(model_of(points@), m@, b@),
        r.1@ == intercept_grad(model_of(points@), m@, b@),
{
    let n: usize = points.len();
    let mut sum_m: i128 = 0;
    let mut sum_b: i128 = 0;
    let mut i: usize = 0;
    while i < n
        invariant
            0 <= i <= n,
            n == points@.len(),
            sum_m as int == slope_grad_sum(model_of(points@).take(i as int), m@, b@),
            sum_b as int == intercept_grad_sum(model_of(points@).take(i as int), m@, b@),
            -((i as int) * 0x8000_0000_0000_0000) <= sum_m as int <= (i as int)
                * 0x8000_0000_0000_0000,
            -((i as int) * 0x8000_0000_0000_0000) <= sum_b as int <= (i as int)
                * 0x8000_0000_0000_0000,
        decreases n - i,
    {
        let p: Point = points[i];
        let e: Scalar = m.times(p.x).sat_add(b).sat_sub(p.y);
        let tm: Scalar = e.times(p.x);
        proof {
            let s: Seq<(int, int)> = model_of(points@);
            assert(s.take(i as int + 1).drop_last() =~= s.take(i as int));
            assert(s.take(i as int + 1).last() == s[i as int]);
        }
        sum_m = sum_m + (tm.raw as i128);
        sum_b = sum_b + (e.raw as i128);
        i = i + 1;
    }
    proof {
        assert(model_of(points@).take(n as int) =~= model_of(points@));
    }
    let gm: Scalar = Scalar::from_raw(mean_of_sum(sum_m, n));
    let gb: Scalar = Scalar::from_raw(mean_of_sum(sum_b, n));
    (gm, gb)
}

} // verus!

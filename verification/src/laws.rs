//! General properties of the fitter, stated over the spec model and proved
//! once for every point set, line and learning rate.

use vstd::prelude::*;
use vstd::arithmetic::div_mod::lemma_div_pos_is_pos;

use crate::fixed::mul_spec;
use crate::fixed::sat64;
use crate::fixed::sub_spec;
use crate::fixed::tdiv;
use crate::fixed::SCALE;
use crate::fitter::intercept_grad;
use crate::fitter::intercept_grad_sum;
use crate::fitter::iterate;
use crate::fitter::mse_model;
use crate::fitter::predicted;
use crate::fitter::residual;
use crate::fitter::slope_grad;
use crate::fitter::slope_grad_sum;
use crate::fitter::squared_residual_sum;
use crate::fitter::step_once;

verus! {

/// Whether `x` fits in an `i64`, as every stored fixed-point value does.
pub open spec fn in_i64(x: int) -> bool {
    i64::MIN as int <= x <= i64::MAX as int
}

/// Whether every coordinate of the point set fits in an `i64`.
pub open spec fn coords_in_range(pts: Seq<(int, int)>) -> bool {
    forall|i: int|
        0 <= i < pts.len() ==> in_i64((#[trigger] pts[i]).0) && in_i64(pts[i].1)
}

/// Every coordinate a fitter can hold is a stored `i64`, so the model of any
/// point sequence is in range.
pub proof fn lemma_model_coords_in_range(points: Seq<crate::fitter::Point>)
    ensures
        coords_in_range(crate::fitter::model_of(points)),
{
    assert forall|i: int|
        0 <= i < crate::fitter::model_of(points).len() implies in_i64(
        (#[trigger] crate::fitter::model_of(points)[i]).0,
    ) && in_i64(crate::fitter::model_of(points)[i].1) by {
        assert(crate::fitter::model_of(points)[i] == points[i]@);
    };
}

/// Exact sum of the fixed-point squares of the y-coordinates.
pub open spec fn squared_y_sum(pts: Seq<(int, int)>) -> int
    decreases pts.len(),
{
    if pts.len() == 0 {
        0
    } else {
        squared_y_sum(pts.drop_last()) + mul_spec(pts.last().1, pts.last().1)
    }
}

proof fn lemma_squared_residual_sum_at_origin(pts: Seq<(int, int)>)
    requires
        coords_in_range(pts),
    ensures
        squared_residual_sum(pts, 0, 0) == squared_y_sum(pts),
    decreases pts.len(),
{
    if pts.len() == 0 {
    } else {
        assert forall|i: int|
            0 <= i < pts.drop_last().len() implies in_i64(
            (#[trigger] pts.drop_last()[i]).0,
        ) && in_i64(pts.drop_last()[i].1) by {
            assert(pts.drop_last()[i] == pts[i]);
        };
        lemma_squared_residual_sum_at_origin(pts.drop_last());
        let p: (int, int) = pts.last();
        assert(in_i64(p.0) && in_i64(p.1));
        vstd::arithmetic::div_mod::lemma_div_of0(SCALE as int);
        assert(predicted(0, 0, p.0) == 0);
        assert(sub_spec(p.1, 0) == p.1);
    }
}

/// At the starting line `(0, 0)` the mean squared error is the truncated mean
/// of the fixed-point squares of the y-coordinates.
pub proof fn lemma_initial_mse_is_mean_squared_y(pts: Seq<(int, int)>)
    requires
        pts.len() > 0,
        coords_in_range(pts),
    ensures
        mse_model(pts, 0, 0) == sat64(tdiv(squared_y_sum(pts), pts.len() as int)),
{
    lemma_squared_residual_sum_at_origin(pts);
}

/// Zero iterations are a no-op: the line stays as it was, and with it the
/// mean squared error.
pub proof fn lemma_step_zero_is_noop(pts: Seq<(int, int)>, rate: int, line: (int, int))
    ensures
        iterate(pts, rate, line, 0) == line,
        mse_model(pts, iterate(pts, rate, line, 0).0, iterate(pts, rate, line, 0).1) == mse_model(
            pts,
            line.0,
            line.1,
        ),
{
}

/// Stepping `a` times and then `b` times gives the same line as stepping
/// `a + b` times from the same start: descent is deterministic, with no
/// hidden state beyond the line itself.
pub proof fn lemma_steps_compose(
    pts: Seq<(int, int)>,
    rate: int,
    line: (int, int),
    a: nat,
    b: nat,
)
    ensures
        iterate(pts, rate, line, a + b) == iterate(pts, rate, iterate(pts, rate, line, a), b),
    decreases b,
{
    if b == 0 {
    } else {
        lemma_steps_compose(pts, rate, line, a, (b - 1) as nat);
        assert(a + b - 1 == a + ((b - 1) as nat));
    }
}

proof fn lemma_squared_residual_sum_nonneg(pts: Seq<(int, int)>, m: int, b: int)
    ensures
        squared_residual_sum(pts, m, b) >= 0,
    decreases pts.len(),
{
    if pts.len() == 0 {
    } else {
        lemma_squared_residual_sum_nonneg(pts.drop_last(), m, b);
        let d: int = sub_spec(pts.last().1, predicted(m, b, pts.last().0));
        assert(d * d >= 0) by (nonlinear_arith);
        lemma_div_pos_is_pos(d * d, SCALE as int);
    }
}

/// The mean squared error is never negative, whatever the current line.
pub proof fn lemma_mse_nonnegative(pts: Seq<(int, int)>, m: int, b: int)
    requires
        pts.len() > 0,
    ensures
        mse_model(pts, m, b) >= 0,
{
    lemma_squared_residual_sum_nonneg(pts, m, b);
    lemma_div_pos_is_pos(squared_residual_sum(pts, m, b), pts.len() as int);
}

/// Exact sum of `term` over the points, accumulated as the fitter's sums are.
pub open spec fn term_sum(pts: Seq<(int, int)>, term: spec_fn((int, int)) -> int) -> int
    decreases pts.len(),
{
    if pts.len() == 0 {
        0
    } else {
        term_sum(pts.drop_last(), term) + term(pts.last())
    }
}

proof fn lemma_term_sum_as_fold(
    pts: Seq<(int, int)>,
    term: spec_fn((int, int)) -> int,
    f: spec_fn((int, int), int) -> int,
    v: int,
)
    requires
        forall|p: (int, int), acc: int| #[trigger] f(p, acc) == acc + term(p),
    ensures
        pts.fold_right(f, v) == v + term_sum(pts, term),
    decreases pts.len(),
{
    if pts.len() == 0 {
    } else {
        lemma_term_sum_as_fold(pts.drop_last(), term, f, f(pts.last(), v));
    }
}

proof fn lemma_term_sum_permutation(
    l1: Seq<(int, int)>,
    l2: Seq<(int, int)>,
    term: spec_fn((int, int)) -> int,
)
    requires
        l1.to_multiset() == l2.to_multiset(),
    ensures
        term_sum(l1, term) == term_sum(l2, term),
{
    let f = |p: (int, int), acc: int| acc + term(p);
    assert(vstd::seq_lib::commutative_foldr(f)) by {
        assert forall|x: (int, int), y: (int, int), v: int| #[trigger] f(x, f(y, v)) == f(
            y,
            f(x, v),
        ) by {};
    };
    vstd::seq_lib::lemma_fold_right_permutation(l1, l2, f, 0);
    lemma_term_sum_as_fold(l1, term, f, 0);
    lemma_term_sum_as_fold(l2, term, f, 0);
}

proof fn lemma_slope_sum_as_term_sum(
    pts: Seq<(int, int)>,
    m: int,
    b: int,
    t: spec_fn((int, int)) -> int,
)
    requires
        forall|p: (int, int)| #[trigger] t(p) == mul_spec(residual(m, b, p), p.0),
    ensures
        slope_grad_sum(pts, m, b) == term_sum(pts, t),
    decreases pts.len(),
{
    if pts.len() == 0 {
    } else {
        lemma_slope_sum_as_term_sum(pts.drop_last(), m, b, t);
    }
}

proof fn lemma_intercept_sum_as_term_sum(
    pts: Seq<(int, int)>,
    m: int,
    b: int,
    t: spec_fn((int, int)) -> int,
)
    requires
        forall|p: (int, int)| #[trigger] t(p) == residual(m, b, p),
    ensures
        intercept_grad_sum(pts, m, b) == term_sum(pts, t),
    decreases pts.len(),
{
    if pts.len() == 0 {
    } else {
        lemma_intercept_sum_as_term_sum(pts.drop_last(), m, b, t);
    }
}

proof fn lemma_squared_sum_as_term_sum(
    pts: Seq<(int, int)>,
    m: int,
    b: int,
    t: spec_fn((int, int)) -> int,
)
    requires
        forall|p: (int, int)| #[trigger] t(p) == mul_spec(
            sub_spec(p.1, predicted(m, b, p.0)),
            sub_spec(p.1, predicted(m, b, p.0)),
        ),
    ensures
        squared_residual_sum(pts, m, b) == term_sum(pts, t),
    decreases pts.len(),
{
    if pts.len() == 0 {
    } else {
        lemma_squared_sum_as_term_sum(pts.drop_last(), m, b, t);
    }
}

proof fn lemma_sums_order_irrelevant(l1: Seq<(int, int)>, l2: Seq<(int, int)>, m: int, b: int)
    requires
        l1.to_multiset() == l2.to_multiset(),
    ensures
        slope_grad_sum(l1, m, b) == slope_grad_sum(l2, m, b),
        intercept_grad_sum(l1, m, b) == intercept_grad_sum(l2, m, b),
        squared_residual_sum(l1, m, b) == squared_residual_sum(l2, m, b),
{
    let t_slope = |p: (int, int)| mul_spec(residual(m, b, p), p.0);
    lemma_slope_sum_as_term_sum(l1, m, b, t_slope);
    lemma_slope_sum_as_term_sum(l2, m, b, t_slope);
    lemma_term_sum_permutation(l1, l2, t_slope);
    let t_intercept = |p: (int, int)| residual(m, b, p);
    lemma_intercept_sum_as_term_sum(l1, m, b, t_intercept);
    lemma_intercept_sum_as_term_sum(l2, m, b, t_intercept);
    lemma_term_sum_permutation(l1, l2, t_intercept);
    let t_squared = |p: (int, int)|
        mul_spec(sub_spec(p.1, predicted(m, b, p.0)), sub_spec(p.1, predicted(m, b, p.0)));
    lemma_squared_sum_as_term_sum(l1, m, b, t_squared);
    lemma_squared_sum_as_term_sum(l2, m, b, t_squared);
    lemma_term_sum_permutation(l1, l2, t_squared);
}

/// The order of the point set is irrelevant to the results: two sequences
/// holding the same points give the same line after any number of steps and
/// the same mean squared error. Every sum is accumulated exactly before the
/// division by the count, so no reordering can change it.
pub proof fn lemma_order_irrelevant(
    l1: Seq<(int, int)>,
    l2: Seq<(int, int)>,
    rate: int,
    line: (int, int),
    k: nat,
)
    requires
        l1.to_multiset() == l2.to_multiset(),
    ensures
        iterate(l1, rate, line, k) == iterate(l2, rate, line, k),
        mse_model(l1, line.0, line.1) == mse_model(l2, line.0, line.1),
    decreases k,
{
    vstd::seq_lib::to_multiset_len(l1);
    vstd::seq_lib::to_multiset_len(l2);
    assert(l1.len() == l2.len());
    lemma_sums_order_irrelevant(l1, l2, line.0, line.1);
    if k > 0 {
        lemma_order_irrelevant(l1, l2, rate, line, (k - 1) as nat);
        let mid: (int, int) = iterate(l1, rate, line, (k - 1) as nat);
        lemma_sums_order_irrelevant(l1, l2, mid.0, mid.1);
    }
}

/// The learning rate enters an update only as the multiplier of gradients
/// that do not depend on it. A rate set between two `step` calls therefore
/// scales only the later call's updates; the earlier call's result is a
/// function of the point set, the rate it ran with and its starting line
/// alone.
pub proof fn lemma_rate_scales_update_only(pts: Seq<(int, int)>, rate: int, line: (int, int))
    ensures
        step_once(pts, rate, line).0 == sub_spec(
            line.0,
            mul_spec(rate, slope_grad(pts, line.0, line.1)),
        ),
        step_once(pts, rate, line).1 == sub_spec(
            line.1,
            mul_spec(rate, intercept_grad(pts, line.0, line.1)),
        ),
{
}

} // verus!

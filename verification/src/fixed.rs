//! 64-bit fixed-point scalars with nine decimal places.
//!
//! A `Scalar` stores `value * SCALE` in an `i64`. Multiplication rescales the
//! exact product by `SCALE` with truncation toward zero; every operation
//! saturates at the `i64` bounds, so the arithmetic is total and each result
//! is pinned exactly by the spec functions below.

use vstd::prelude::*;
use vstd::arithmetic::div_mod::lemma_div_nonincreasing;
use vstd::arithmetic::div_mod::lemma_div_pos_is_pos;

verus! {

/// Fixed-point units per whole unit: nine decimal places.
pub const SCALE: i64 = 1_000_000_000;

/// An unbounded integer saturated into the `i64` range.
pub open spec fn sat64(x: int) -> int {
    if x > i64::MAX as int {
        i64::MAX as int
    } else if x < i64::MIN as int {
        i64::MIN as int
    } else {
        x
    }
}

/// Division truncating toward zero, as machine division does.
pub open spec fn tdiv(p: int, q: int) -> int
    recommends
        q > 0,
{
    if p >= 0 {
        p / q
    } else {
        -((-p) / q)
    }
}

/// Fixed-point product: the exact product, rescaled by `SCALE` with
/// truncation toward zero, then saturated into the `i64` range.
pub open spec fn mul_spec(a: int, b: int) -> int {
    sat64(tdiv(a * b, SCALE as int))
}

/// Saturating fixed-point sum.
pub open spec fn add_spec(a: int, b: int) -> int {
    sat64(a + b)
}

/// Saturating fixed-point difference.
pub open spec fn sub_spec(a: int, b: int) -> int {
    sat64(a - b)
}

/// A fixed-point number; `raw` counts units of `1 / SCALE`.
#[derive(Clone, Copy, PartialEq, Eq, Structural, Debug)]
pub struct Scalar {
    pub raw: i64,
}

impl View for Scalar {
    type V = int;

    open spec fn view(&self) -> int {
        self.raw as int
    }
}

/// The `i64` nearest to `x`.
fn clamp_to_i64(x: i128) -> (r: i64)
    ensures
        r as int == sat64(x as int),
{
    if x > i64::MAX as i128 {
        i64::MAX
    } else if x < i64::MIN as i128 {
        i64::MIN
    } else {
        x as i64
    }
}

/// The magnitude of `a` as an unsigned value (total, unlike `i64::abs`).
fn magnitude(a: i64) -> (r: u64)
    ensures
        r as int == (if a as int >= 0 {
            a as int
        } else {
            -(a as int)
        }),
{
    if a >= 0 {
        a as u64
    } else {
        (-(a as i128)) as u64
    }
}

/// The signed value with magnitude `mag`, saturated into the `i64` range.
fn saturate_signed(neg: bool, mag: u128) -> (r: i64)
    requires
        mag <= i128::MAX as u128,
    ensures
        r as int == sat64(
            if neg {
                -(mag as int)
            } else {
                mag as int
            },
        ),
{
    if neg {
        clamp_to_i64(-(mag as i128))
    } else {
        clamp_to_i64(mag as i128)
    }
}

/// The mean of an exact sum over `n` values: the sum divided by `n` with
/// truncation toward zero, saturated into the `i64` range.
pub(crate) fn mean_of_sum(sum: i128, n: usize) -> (r: i64)
    requires
        n > 0,
        sum != i128::MIN,
    ensures
        r as int == sat64(tdiv(sum as int, n as int)),
{
    if sum >= 0 {
        let q: u128 = (sum as u128) / (n as u128);
        proof {
            lemma_div_pos_is_pos(sum as int, n as int);
            lemma_div_nonincreasing(sum as int, n as int);
        }
        saturate_signed(false, q)
    } else {
        let mag: u128 = (-sum) as u128;
        let q: u128 = mag / (n as u128);
        proof {
            lemma_div_pos_is_pos(mag as int, n as int);
            lemma_div_nonincreasing(mag as int, n as int);
        }
        saturate_signed(true, q)
    }
}

impl Scalar {
    /// The scalar holding exactly `raw` fixed-point units.
    pub fn from_raw(raw: i64) -> (r: Scalar)
        ensures
            r@ == raw as int,
    {
        Scalar { raw }
    }

    /// The whole number `v`, saturated into the representable range.
    pub fn from_int(v: i64) -> (r: Scalar)
        ensures
            r@ == sat64(v as int * SCALE as int),
    {
        proof {
            assert(-0x8000_0000_0000_0000 * 1_000_000_000 <= (v as int) * (SCALE as int)
                <= 0x8000_0000_0000_0000 * 1_000_000_000) by (nonlinear_arith)
                requires
                    -0x8000_0000_0000_0000 <= v as int <= 0x7FFF_FFFF_FFFF_FFFF,
                    SCALE as int == 1_000_000_000,
            ;
        }
        Scalar { raw: clamp_to_i64((v as i128) * (SCALE as i128)) }
    }

    /// Saturating sum.
    pub fn sat_add(self, other: Scalar) -> (r: Scalar)
        ensures
            r@ == add_spec(self@, other@),
    {
        Scalar { raw: clamp_to_i64((self.raw as i128) + (other.raw as i128)) }
    }

    /// Saturating difference.
    pub fn sat_sub(self, other: Scalar) -> (r: Scalar)
        ensures
            r@ == sub_spec(self@, other@),
    {
        Scalar { raw: clamp_to_i64((self.raw as i128) - (other.raw as i128)) }
    }

    /// Fixed-point product, truncated toward zero and saturated.
    pub fn times(self, other: Scalar) -> (r: Scalar)
        ensures
            r@ == mul_spec(self@, other@),
    {
        let neg: bool = if self.raw < 0 {
            other.raw >= 0
        } else {
            other.raw < 0
        };
        let ma: u64 = magnitude(self.raw);
        let mb: u64 = magnitude(other.raw);
        proof {
            let a: int = self.raw as int;
            let b: int = other.raw as int;
            let m1: int = ma as int;
            let m2: int = mb as int;
            assert(m1 * m2 <= 0x8000_0000_0000_0000 * 0x8000_0000_0000_0000) by (nonlinear_arith)
                requires
                    0 <= m1 <= 0x8000_0000_0000_0000,
                    0 <= m2 <= 0x8000_0000_0000_0000,
            ;
            if self.raw < 0 {
                if other.raw < 0 {
                    assert(a * b == m1 * m2) by (nonlinear_arith)
                        requires
                            m1 == -a,
                            m2 == -b,
                    ;
                } else {
                    assert(a * b == -(m1 * m2)) by (nonlinear_arith)
                        requires
                            m1 == -a,
                            m2 == b,
                    ;
                }
            } else {
                if other.raw < 0 {
                    assert(a * b == -(m1 * m2)) by (nonlinear_arith)
                        requires
                            m1 == a,
                            m2 == -b,
                    ;
                } else {
                    assert(a * b == m1 * m2) by (nonlinear_arith)
                        requires
                            m1 == a,
                            m2 == b,
                    ;
                }
            }
        }
        let prod: u128 = (ma as u128) * (mb as u128);
        let q: u128 = prod / (SCALE as u128);
        proof {
            lemma_div_pos_is_pos(prod as int, SCALE as int);
            lemma_div_nonincreasing(prod as int, SCALE as int);
        }
        Scalar { raw: saturate_signed(neg, q) }
    }
}

} // verus!

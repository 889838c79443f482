//! Fixed-point circular functions for emitter cone directions and sine-shaped
//! value curves.
//!
//! The sine is a rational half-wave approximation (Bhaskara's formula),
//! extended to the whole line by odd symmetry and periodicity. It is exact at
//! `0`, `pi/2` and `pi`, stays within one thousandth-scaled unit everywhere,
//! and is fully deterministic, so curve evaluation is a pure function of its
//! arguments.

use vstd::arithmetic::div_mod::{
    lemma_add_mod_noop_right, lemma_div_is_ordered, lemma_div_multiples_vanish,
};
use vstd::prelude::*;

use crate::fixed::FX_ONE;

verus! {

/// Fixed-point approximation of pi, in milliradians.
pub const FX_PI: i64 = 3142;

/// Fixed-point approximation of 2 * pi, in milliradians.
pub const FX_TWO_PI: i64 = 6284;

/// Fixed-point approximation of pi / 2, in milliradians.
pub const FX_HALF_PI: i64 = 1571;

/// Rational half-wave sine on `[0, FX_PI]`, scaled to thousandths:
/// `16 t (pi - t) / (5 pi^2 - 4 t (pi - t))`, with `pi` as `3142`
/// milliradians, so `5 pi^2` is `49360820` and the numerator carries the
/// extra factor of `1000` that scales the result to thousandths.
pub open spec fn sin_half_spec(t: int) -> int
    recommends
        0 <= t <= FX_PI as int,
{
    let a = t * (3142 - t);
    (16000 * a) / (49360820 - 4 * a)
}

/// Fixed-point sine of an arbitrary milliradian angle.
pub open spec fn sin_fx_spec(x: int) -> int {
    let r = x % (FX_TWO_PI as int);
    if r < FX_PI as int {
        sin_half_spec(r)
    } else {
        -sin_half_spec(r - FX_PI as int)
    }
}

/// Fixed-point cosine: the sine shifted a quarter turn.
pub open spec fn cos_fx_spec(x: int) -> int {
    sin_fx_spec(x + FX_HALF_PI as int)
}

/// The half-wave sine stays within `[0, FX_ONE]`.
pub proof fn lemma_sin_half_bounds(t: int)
    requires
        0 <= t <= FX_PI as int,
    ensures
        0 <= sin_half_spec(t) <= FX_ONE as int,
{
    let a = t * (3142 - t);
    let num = 16000 * a;
    let den = 49360820 - 4 * a;
    assert(num >= 0 && den > 0 && num <= 1000 * den) by (nonlinear_arith)
        requires
            0 <= t <= 3142,
            a == t * (3142 - t),
            num == 16000 * a,
            den == 49360820 - 4 * a,
    ;
    lemma_div_is_ordered(0, num, den);
    lemma_div_is_ordered(num, 1000 * den, den);
    lemma_div_multiples_vanish(1000, den);
    assert(den * 1000 == 1000 * den) by (nonlinear_arith);
    assert(0int / den == 0) by (nonlinear_arith)
        requires
            den > 0,
    ;
}

/// The sine stays within `[-FX_ONE, FX_ONE]` everywhere.
pub proof fn lemma_sin_fx_bounds(x: int)
    ensures
        -(FX_ONE as int) <= sin_fx_spec(x) <= FX_ONE as int,
{
    let r = x % (FX_TWO_PI as int);
    if r < FX_PI as int {
        lemma_sin_half_bounds(r);
    } else {
        lemma_sin_half_bounds(r - FX_PI as int);
    }
}

/// Half-wave sine kernel.
fn sin_half(t: i64) -> (r: i64)
    requires
        0 <= t <= FX_PI,
    ensures
        r == sin_half_spec(t as int),
        0 <= r <= FX_ONE,
{
    let u: i64 = FX_PI - t;
    proof {
        assert(0 <= (t as int) * (u as int) && (t as int) * (u as int) <= 3142 * 3142)
            by (nonlinear_arith)
            requires
                0 <= t as int <= 3142,
                0 <= u as int <= 3142,
        ;
    }
    let a: u64 = (t as u64) * (u as u64);
    let num: u64 = 16000 * a;
    let den: u64 = 49360820 - 4 * a;
    let q: u64 = num / den;
    proof {
        lemma_sin_half_bounds(t as int);
    }
    q as i64
}

/// Fixed-point sine of any milliradian angle.
pub fn sin_fx(x: i64) -> (r: i64)
    ensures
        r == sin_fx_spec(x as int),
        -FX_ONE <= r <= FX_ONE,
{
    let m: i64 = x.checked_rem_euclid(FX_TWO_PI).unwrap();
    if m < FX_PI {
        sin_half(m)
    } else {
        let h = sin_half(m - FX_PI);
        -h
    }
}

/// Fixed-point cosine of any milliradian angle.
pub fn cos_fx(x: i64) -> (r: i64)
    ensures
        r == cos_fx_spec(x as int),
        -FX_ONE <= r <= FX_ONE,
{
    let m: i64 = x.checked_rem_euclid(FX_TWO_PI).unwrap();
    let r = sin_fx(m + FX_HALF_PI);
    proof {
        lemma_add_mod_noop_right(FX_HALF_PI as int, x as int, FX_TWO_PI as int);
        assert(((m as int) + (FX_HALF_PI as int)) % (FX_TWO_PI as int) == ((x as int)
            + (FX_HALF_PI as int)) % (FX_TWO_PI as int));
    }
    r
}

} // verus!

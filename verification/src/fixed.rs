//! Fixed-point scalar arithmetic.
//!
//! A scalar is an `i64` counting thousandths of a unit (a position of `1.5`
//! world units is stored as `1500`; a duration of `0.25` seconds as `250`).
//! Multiplication and division rescale by [`FX_ONE`] and truncate toward zero.
//! Every operation saturates at `±`[`FX_MAX`], so apart from division's
//! nonzero-divisor precondition the operations are total: no input makes
//! them overflow or panic.

use vstd::prelude::*;

verus! {

/// Number of fixed-point subunits in one whole unit.
pub const FX_ONE: i64 = 1000;

/// Magnitude at which fixed-point arithmetic saturates (one billion units).
pub const FX_MAX: i64 = 1_000_000_000_000;

/// Magnitude of an integer.
pub open spec fn abs_int(a: int) -> int {
    if a < 0 {
        -a
    } else {
        a
    }
}

/// Truncating (round-toward-zero) division, the semantics of machine division.
pub open spec fn trunc_div(a: int, b: int) -> int
    recommends
        b != 0,
{
    if a >= 0 && b > 0 {
        a / b
    } else if a < 0 && b < 0 {
        (-a) / (-b)
    } else if a < 0 {
        -((-a) / b)
    } else {
        -(a / (-b))
    }
}

/// Clamp an unbounded integer into the representable fixed-point range.
pub open spec fn fx_sat(x: int) -> int {
    if x > FX_MAX as int {
        FX_MAX as int
    } else if x < -(FX_MAX as int) {
        -(FX_MAX as int)
    } else {
        x
    }
}

/// Saturating fixed-point sum.
pub open spec fn fx_add_spec(a: int, b: int) -> int {
    fx_sat(a + b)
}

/// Saturating fixed-point difference.
pub open spec fn fx_sub_spec(a: int, b: int) -> int {
    fx_sat(a - b)
}

/// Saturating fixed-point product: `a * b` rescaled by one unit,
/// truncated toward zero.
pub open spec fn fx_mul_spec(a: int, b: int) -> int {
    fx_sat(trunc_div(a * b, FX_ONE as int))
}

/// Saturating fixed-point quotient: `a / b` rescaled by one unit,
/// truncated toward zero.
pub open spec fn fx_div_spec(a: int, b: int) -> int
    recommends
        b != 0,
{
    fx_sat(trunc_div(a * FX_ONE, b))
}

/// Magnitude of a scalar, as an unsigned machine word.
pub fn abs_u64(a: i64) -> (r: u64)
    ensures
        r == abs_int(a as int),
{
    if a < 0 {
        (-(a as i128)) as u64
    } else {
        a as u64
    }
}

/// Clamp a wide intermediate value into the fixed-point range.
fn sat_i128(x: i128) -> (r: i64)
    ensures
        r == fx_sat(x as int),
{
    if x > FX_MAX as i128 {
        FX_MAX
    } else if x < -(FX_MAX as i128) {
        -FX_MAX
    } else {
        x as i64
    }
}

/// Saturating fixed-point addition.
pub fn fx_add(a: i64, b: i64) -> (r: i64)
    ensures
        r == fx_add_spec(a as int, b as int),
{
    sat_i128(a as i128 + b as i128)
}

/// Saturating fixed-point subtraction.
pub fn fx_sub(a: i64, b: i64) -> (r: i64)
    ensures
        r == fx_sub_spec(a as int, b as int),
{
    sat_i128(a as i128 - b as i128)
}

/// A product's magnitude is the product of the magnitudes, and its sign
/// follows the signs of the factors.
pub proof fn lemma_mul_sign_abs(a: int, b: int)
    by (nonlinear_arith)
    ensures
        abs_int(a * b) == abs_int(a) * abs_int(b),
        ((a < 0) != (b < 0)) ==> a * b <= 0,
        ((a < 0) == (b < 0)) ==> a * b >= 0,
        (a < 0 && b > 0) ==> a * b < 0,
        (a > 0 && b < 0) ==> a * b < 0,
{
}

/// Truncating division works on magnitudes: divide them and reapply the sign.
pub proof fn lemma_trunc_div_abs(x: int, d: int)
    requires
        d != 0,
    ensures
        trunc_div(x, d) == if (x < 0) != (d < 0) {
            -(abs_int(x) / abs_int(d))
        } else {
            abs_int(x) / abs_int(d)
        },
{
    if x >= 0 && d < 0 && x == 0 {
        assert(0int / (-d) == 0) by (nonlinear_arith)
            requires
                d < 0,
        ;
    }
}

/// Saturating fixed-point multiplication.
pub fn fx_mul(a: i64, b: i64) -> (r: i64)
    ensures
        r == fx_mul_spec(a as int, b as int),
{
    let neg: bool = (a < 0) != (b < 0);
    let ma: u128 = abs_u64(a) as u128;
    let mb: u128 = abs_u64(b) as u128;
    proof {
        assert(ma * mb <= (u64::MAX as u128) * (u64::MAX as u128)) by (nonlinear_arith)
            requires
                ma <= u64::MAX as u128,
                mb <= u64::MAX as u128,
        ;
    }
    let q: u128 = (ma * mb) / (FX_ONE as u128);
    proof {
        lemma_mul_sign_abs(a as int, b as int);
        lemma_trunc_div_abs(a as int * b as int, FX_ONE as int);
    }
    if q > FX_MAX as u128 {
        if neg {
            -FX_MAX
        } else {
            FX_MAX
        }
    } else {
        let v: i64 = q as i64;
        if neg {
            -v
        } else {
            v
        }
    }
}

/// Saturating fixed-point division.
pub fn fx_div(a: i64, b: i64) -> (r: i64)
    requires
        b != 0,
    ensures
        r == fx_div_spec(a as int, b as int),
{
    let neg: bool = (a < 0) != (b < 0);
    let ma: u128 = abs_u64(a) as u128;
    let mb: u128 = abs_u64(b) as u128;
    proof {
        assert(ma * (FX_ONE as u128) <= (u64::MAX as u128) * (u64::MAX as u128))
            by (nonlinear_arith)
            requires
                ma <= u64::MAX as u128,
        ;
    }
    let q: u128 = (ma * (FX_ONE as u128)) / mb;
    proof {
        lemma_mul_sign_abs(a as int, FX_ONE as int);
        lemma_trunc_div_abs(a as int * FX_ONE as int, b as int);
    }
    if q > FX_MAX as u128 {
        if neg {
            -FX_MAX
        } else {
            FX_MAX
        }
    } else {
        let v: i64 = q as i64;
        if neg {
            -v
        } else {
            v
        }
    }
}

/// A product of non-negative scalars stays non-negative.
pub proof fn lemma_fx_mul_nonneg(a: int, b: int)
    requires
        a >= 0,
        b >= 0,
    ensures
        fx_mul_spec(a, b) >= 0,
{
    lemma_mul_sign_abs(a, b);
    vstd::arithmetic::div_mod::lemma_div_pos_is_pos(a * b, FX_ONE as int);
}

/// Whole units in a non-negative scalar: the integer part.
pub open spec fn fx_floor_units_spec(x: int) -> int
    recommends
        x >= 0,
{
    x / (FX_ONE as int)
}

/// Subunits past the last whole unit of a non-negative scalar.
pub open spec fn fx_frac_spec(x: int) -> int
    recommends
        x >= 0,
{
    x % (FX_ONE as int)
}

/// Whole units in a non-negative scalar.
pub fn fx_floor_units(x: i64) -> (r: i64)
    requires
        x >= 0,
    ensures
        r == fx_floor_units_spec(x as int),
        0 <= r <= x,
{
    ((x as u64) / (FX_ONE as u64)) as i64
}

/// Subunits past the last whole unit of a non-negative scalar.
pub fn fx_frac(x: i64) -> (r: i64)
    requires
        x >= 0,
    ensures
        r == fx_frac_spec(x as int),
        0 <= r < FX_ONE,
{
    ((x as u64) % (FX_ONE as u64)) as i64
}

/// Integer square root, defined by counting upward.
pub open spec fn isqrt_spec(n: int) -> int
    recommends
        n >= 0,
    decreases n,
{
    if n <= 0 {
        0
    } else {
        let p = isqrt_spec(n - 1);
        if (p + 1) * (p + 1) <= n {
            p + 1
        } else {
            p
        }
    }
}

/// The integer square root is the largest integer whose square is at most `n`.
pub proof fn lemma_isqrt_bounds(n: int)
    requires
        n >= 0,
    ensures
        isqrt_spec(n) >= 0,
        isqrt_spec(n) * isqrt_spec(n) <= n,
        n < (isqrt_spec(n) + 1) * (isqrt_spec(n) + 1),
    decreases n,
{
    if n > 0 {
        lemma_isqrt_bounds(n - 1);
        let p = isqrt_spec(n - 1);
        if (p + 1) * (p + 1) <= n {
            assert(n < (p + 2) * (p + 2)) by (nonlinear_arith)
                requires
                    p >= 0,
                    n - 1 < (p + 1) * (p + 1),
                    (p + 1) * (p + 1) <= n,
            ;
        }
    }
}

/// Any integer bracketed by the square bounds is the integer square root.
pub proof fn lemma_isqrt_unique(n: int, r: int)
    requires
        n >= 0,
        r >= 0,
        r * r <= n,
        n < (r + 1) * (r + 1),
    ensures
        r == isqrt_spec(n),
{
    lemma_isqrt_bounds(n);
    let s = isqrt_spec(n);
    assert(r < s ==> (r + 1) * (r + 1) <= s * s) by (nonlinear_arith)
        requires
            r >= 0,
            s >= 0,
    ;
    assert(s < r ==> (s + 1) * (s + 1) <= r * r) by (nonlinear_arith)
        requires
            r >= 0,
            s >= 0,
    ;
}

/// Integer square root of a wide unsigned value, by bisection.
pub fn isqrt_u128(n: u128) -> (r: u64)
    ensures
        r as int == isqrt_spec(n as int),
{
    let mut lo: u128 = 0;
    let mut hi: u128 = u64::MAX as u128;
    proof {
        assert((n as int) < ((u64::MAX as int) + 1) * ((u64::MAX as int) + 1)) by (nonlinear_arith)
            requires
                n <= u128::MAX,
        ;
    }
    while lo < hi
        invariant
            lo <= hi,
            hi <= u64::MAX as u128,
            lo * lo <= n,
            n < (hi + 1) * (hi + 1),
        decreases hi - lo,
    {
        let mid: u128 = lo + (hi - lo + 1) / 2;
        proof {
            assert(mid * mid <= (u64::MAX as u128) * (u64::MAX as u128)) by (nonlinear_arith)
                requires
                    mid <= u64::MAX as u128,
            ;
        }
        if mid * mid <= n {
            lo = mid;
        } else {
            hi = mid - 1;
        }
    }
    proof {
        lemma_isqrt_unique(n as int, lo as int);
    }
    lo as u64
}

} // verus!

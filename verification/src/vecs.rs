//! Fixed-point 2- and 4-component vectors: world positions and scales, and
//! RGBA colors, in thousandths of a unit per component.

use vstd::prelude::*;

use crate::fixed::{
    abs_u64, fx_add, fx_add_spec, fx_mul, fx_mul_spec, fx_sat, fx_sub, fx_sub_spec, isqrt_spec,
    isqrt_u128, lemma_isqrt_bounds, lemma_mul_sign_abs, FX_MAX, FX_ONE,
};

verus! {

/// A 2D vector of fixed-point scalars (a position, scale or direction).
#[derive(Clone, Copy, Debug, PartialEq, Eq, Structural)]
pub struct Vec2Fx {
    pub x: i64,
    pub y: i64,
}

/// An RGBA color (or any other 4-component value) of fixed-point scalars;
/// full intensity in a channel is [`FX_ONE`].
#[derive(Clone, Copy, Debug, PartialEq, Eq, Structural)]
pub struct Vec4Fx {
    pub x: i64,
    pub y: i64,
    pub z: i64,
    pub w: i64,
}

/// Saturating distance between two points: the integer square root of the
/// squared component differences, clamped into the fixed-point range.
pub open spec fn vec2_dist_spec(a: Vec2Fx, b: Vec2Fx) -> int {
    let dx = fx_sub_spec(a.x as int, b.x as int);
    let dy = fx_sub_spec(a.y as int, b.y as int);
    fx_sat(isqrt_spec(dx * dx + dy * dy))
}

impl Vec2Fx {
    /// Build a vector from its components.
    pub fn new(x: i64, y: i64) -> (v: Vec2Fx)
        ensures
            v == (Vec2Fx { x, y }),
    {
        Vec2Fx { x, y }
    }

    /// Both components equal.
    pub fn splat(v: i64) -> (r: Vec2Fx)
        ensures
            r == (Vec2Fx { x: v, y: v }),
    {
        Vec2Fx { x: v, y: v }
    }

    /// The origin.
    pub fn zero() -> (r: Vec2Fx)
        ensures
            r == (Vec2Fx { x: 0, y: 0 }),
    {
        Vec2Fx { x: 0, y: 0 }
    }

    /// Componentwise saturating sum.
    pub fn add(&self, o: &Vec2Fx) -> (r: Vec2Fx)
        ensures
            r.x == fx_add_spec(self.x as int, o.x as int),
            r.y == fx_add_spec(self.y as int, o.y as int),
    {
        Vec2Fx { x: fx_add(self.x, o.x), y: fx_add(self.y, o.y) }
    }

    /// Componentwise saturating product with a scalar.
    pub fn scale(&self, s: i64) -> (r: Vec2Fx)
        ensures
            r.x == fx_mul_spec(self.x as int, s as int),
            r.y == fx_mul_spec(self.y as int, s as int),
    {
        Vec2Fx { x: fx_mul(self.x, s), y: fx_mul(self.y, s) }
    }

    /// Euclidean distance to another point, saturated.
    pub fn distance(&self, o: &Vec2Fx) -> (r: i64)
        ensures
            r == vec2_dist_spec(*self, *o),
            0 <= r <= FX_MAX,
    {
        let dx = fx_sub(self.x, o.x);
        let dy = fx_sub(self.y, o.y);
        let mx: u128 = abs_u64(dx) as u128;
        let my: u128 = abs_u64(dy) as u128;
        proof {
            lemma_mul_sign_abs(dx as int, dx as int);
            lemma_mul_sign_abs(dy as int, dy as int);
            assert(mx * mx <= 1_000_000_000_000u128 * 1_000_000_000_000u128)
                by (nonlinear_arith)
                requires
                    mx <= 1_000_000_000_000u128,
            ;
            assert(my * my <= 1_000_000_000_000u128 * 1_000_000_000_000u128)
                by (nonlinear_arith)
                requires
                    my <= 1_000_000_000_000u128,
            ;
        }
        let s: u128 = mx * mx + my * my;
        let q: u64 = isqrt_u128(s);
        proof {
            lemma_isqrt_bounds(s as int);
        }
        if q > FX_MAX as u64 {
            FX_MAX
        } else {
            q as i64
        }
    }
}

/// Componentwise linear interpolation at fixed-point parameter `t`:
/// `a + t * (b - a)` in each channel, saturating.
pub open spec fn lerp_spec(a: int, b: int, t: int) -> int {
    fx_add_spec(a, fx_mul_spec(t, fx_sub_spec(b, a)))
}

impl Vec4Fx {
    /// Build a color from its channels.
    pub fn new(x: i64, y: i64, z: i64, w: i64) -> (v: Vec4Fx)
        ensures
            v == (Vec4Fx { x, y, z, w }),
    {
        Vec4Fx { x, y, z, w }
    }

    /// All channels equal.
    pub fn splat(v: i64) -> (r: Vec4Fx)
        ensures
            r == (Vec4Fx { x: v, y: v, z: v, w: v }),
    {
        Vec4Fx { x: v, y: v, z: v, w: v }
    }

    /// All channels zero (transparent black).
    pub fn zero() -> (r: Vec4Fx)
        ensures
            r == (Vec4Fx { x: 0, y: 0, z: 0, w: 0 }),
    {
        Vec4Fx { x: 0, y: 0, z: 0, w: 0 }
    }

    /// All channels at full intensity (opaque white).
    pub fn one() -> (r: Vec4Fx)
        ensures
            r == (Vec4Fx { x: FX_ONE, y: FX_ONE, z: FX_ONE, w: FX_ONE }),
    {
        Vec4Fx { x: FX_ONE, y: FX_ONE, z: FX_ONE, w: FX_ONE }
    }

    /// Channelwise linear interpolation toward `o` at parameter `t`.
    pub fn lerp(&self, o: &Vec4Fx, t: i64) -> (r: Vec4Fx)
        ensures
            r.x == lerp_spec(self.x as int, o.x as int, t as int),
            r.y == lerp_spec(self.y as int, o.y as int, t as int),
            r.z == lerp_spec(self.z as int, o.z as int, t as int),
            r.w == lerp_spec(self.w as int, o.w as int, t as int),
    {
        Vec4Fx {
            x: fx_add(self.x, fx_mul(t, fx_sub(o.x, self.x))),
            y: fx_add(self.y, fx_mul(t, fx_sub(o.y, self.y))),
            z: fx_add(self.z, fx_mul(t, fx_sub(o.z, self.z))),
            w: fx_add(self.w, fx_mul(t, fx_sub(o.w, self.w))),
        }
    }
}

} // verus!

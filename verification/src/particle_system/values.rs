//! Value curves and jittered values: the time-varying and randomized
//! parameters of a particle system.
//!
//! A curve is deterministic: queried at a life percentage (fixed-point,
//! `1000` meaning the end of the lifetime) it always yields the same value.
//! A jittered value draws a fresh uniform sample on every use.

use vstd::prelude::*;

use crate::fixed::{
    fx_add, fx_add_spec, fx_div, fx_div_spec, fx_mul, fx_mul_spec, fx_sub, fx_sub_spec, FX_ONE,
};
use crate::particle_system::sampling::sample_range_i64;
use crate::trig::{sin_fx, sin_fx_spec, FX_TWO_PI};
use crate::vecs::{lerp_spec, Vec4Fx};

verus! {

/// A base value plus a uniformly sampled offset from `[jitter_min,
/// jitter_max)`, redrawn on every use. Equal bounds mean no jitter.
#[derive(Clone, Copy, Debug)]
pub struct JitteredValue {
    /// The base value.
    pub value: i64,
    /// Lower bound of the random offset, inclusive.
    pub jitter_min: i64,
    /// Upper bound of the random offset, exclusive (no jitter when equal to
    /// the lower bound).
    pub jitter_max: i64,
}

impl JitteredValue {
    /// A usable jitter range: no wider at the bottom than at the top.
    pub open spec fn wf(&self) -> bool {
        self.jitter_min <= self.jitter_max
    }

    /// Whether `r` is a value this jittered value can produce: the base
    /// value shifted by some admissible offset (saturating).
    pub open spec fn possible_sample(&self, r: int) -> bool {
        if self.jitter_min < self.jitter_max {
            exists|s: int|
                self.jitter_min <= s < self.jitter_max && r == fx_add_spec(self.value as int, s)
        } else {
            r == self.value as int
        }
    }

    /// A plain value without jitter.
    pub fn constant(value: i64) -> (r: JitteredValue)
        ensures
            r == (JitteredValue { value, jitter_min: 0, jitter_max: 0 }),
    {
        JitteredValue { value, jitter_min: 0, jitter_max: 0 }
    }

    /// A value with a random offset drawn from `[jitter_min, jitter_max)`.
    pub fn jittered(value: i64, jitter_min: i64, jitter_max: i64) -> (r: JitteredValue)
        requires
            jitter_min <= jitter_max,
        ensures
            r == (JitteredValue { value, jitter_min, jitter_max }),
    {
        JitteredValue { value, jitter_min, jitter_max }
    }

    /// Draws a fresh sample: the base value plus a uniform offset.
    pub fn get_value(&self) -> (r: i64)
        requires
            self.wf(),
        ensures
            self.possible_sample(r as int),
    {
        if self.jitter_min < self.jitter_max {
            let s = sample_range_i64(self.jitter_min, self.jitter_max);
            fx_add(self.value, s)
        } else {
            self.value
        }
    }
}

/// A sine-shaped curve over a lifetime:
/// `amplitude * sin(2 pi * pct / period + phase_shift) + vertical_shift`.
#[derive(Clone, Copy, Debug)]
pub struct SinWave {
    /// Peak deviation from the vertical shift.
    pub amplitude: i64,
    /// Length of one full oscillation, as a fixed-point fraction of the
    /// lifetime; must be positive.
    pub period: i64,
    /// Phase offset, in fixed-point radians.
    pub phase_shift: i64,
    /// Constant offset added to the wave.
    pub vertical_shift: i64,
}

impl SinWave {
    /// The unit wave: amplitude and period one, no shifts.
    pub fn new() -> (r: SinWave)
        ensures
            r == (SinWave {
                amplitude: FX_ONE as i64,
                period: FX_ONE as i64,
                phase_shift: 0,
                vertical_shift: 0,
            }),
    {
        SinWave { amplitude: FX_ONE, period: FX_ONE, phase_shift: 0, vertical_shift: 0 }
    }
}

/// How a scalar parameter varies over a system's or particle's lifetime.
#[derive(Clone, Copy, Debug)]
pub enum ValueOverTime {
    /// The same value at every point of the lifetime.
    Constant(i64),
    /// A sine wave over the lifetime.
    Sin(SinWave),
}

/// The value a curve takes at a life percentage.
pub open spec fn value_at_pct_spec(v: ValueOverTime, pct: int) -> int
    recommends
        value_over_time_wf(v),
{
    match v {
        ValueOverTime::Constant(c) => c as int,
        ValueOverTime::Sin(s) => {
            let angle = fx_add_spec(
                fx_div_spec(fx_mul_spec(pct, FX_TWO_PI as int), s.period as int),
                s.phase_shift as int,
            );
            fx_add_spec(
                fx_mul_spec(s.amplitude as int, sin_fx_spec(angle)),
                s.vertical_shift as int,
            )
        },
    }
}

/// A usable curve: a sine wave needs a positive period.
pub open spec fn value_over_time_wf(v: ValueOverTime) -> bool {
    match v {
        ValueOverTime::Constant(_) => true,
        ValueOverTime::Sin(s) => s.period > 0,
    }
}

impl ValueOverTime {
    /// Evaluates the curve at a life percentage.
    pub fn at_lifetime_pct(&self, pct: i64) -> (r: i64)
        requires
            value_over_time_wf(*self),
        ensures
            r == value_at_pct_spec(*self, pct as int),
    {
        match *self {
            ValueOverTime::Constant(c) => c,
            ValueOverTime::Sin(s) => {
                let angle = fx_add(fx_div(fx_mul(pct, FX_TWO_PI), s.period), s.phase_shift);
                fx_add(fx_mul(s.amplitude, sin_fx(angle)), s.vertical_shift)
            },
        }
    }
}

/// A color and the life percentage it sits at within a gradient.
#[derive(Clone, Copy, Debug)]
pub struct ColorPoint {
    /// The color of this stop.
    pub color: Vec4Fx,
    /// The life percentage of this stop, fixed-point in `[0, 1000]`.
    pub point: i64,
}

impl ColorPoint {
    /// A gradient stop.
    pub fn new(color: Vec4Fx, point: i64) -> (r: ColorPoint)
        ensures
            r == (ColorPoint { color, point }),
    {
        ColorPoint { color, point }
    }
}

/// Channelwise interpolation between two colors.
pub open spec fn lerp_color_spec(a: Vec4Fx, b: Vec4Fx, t: int) -> Vec4Fx {
    Vec4Fx {
        x: lerp_spec(a.x as int, b.x as int, t) as i64,
        y: lerp_spec(a.y as int, b.y as int, t) as i64,
        z: lerp_spec(a.z as int, b.z as int, t) as i64,
        w: lerp_spec(a.w as int, b.w as int, t) as i64,
    }
}

/// Usable gradient stops: at least one, strictly ascending by position.
pub open spec fn gradient_wf(ps: Seq<ColorPoint>) -> bool {
    &&& ps.len() > 0
    &&& forall|i: int, j: int| 0 <= i < j < ps.len() ==> ps[i].point < ps[j].point
}

/// The color a gradient takes at a life percentage: the first stop's color
/// below the range, the last stop's color above it, and the linear blend of
/// the two bracketing stops in between.
pub open spec fn gradient_sample_spec(ps: Seq<ColorPoint>, pct: int) -> Vec4Fx
    recommends
        gradient_wf(ps),
    decreases ps.len(),
{
    if ps.len() <= 1 || pct <= ps[0].point {
        ps[0].color
    } else if pct <= ps[1].point {
        let t = fx_div_spec(
            fx_sub_spec(pct, ps[0].point as int),
            fx_sub_spec(ps[1].point as int, ps[0].point as int),
        );
        lerp_color_spec(ps[0].color, ps[1].color, t)
    } else {
        gradient_sample_spec(ps.drop_first(), pct)
    }
}

/// An ordered list of color stops queried by life percentage.
#[derive(Clone, Debug)]
pub struct Gradient {
    /// The stops, strictly ascending by position.
    pub points: Vec<ColorPoint>,
}

impl Gradient {
    /// A gradient from its stops.
    pub fn new(points: Vec<ColorPoint>) -> (r: Gradient)
        ensures
            r.points@ == points@,
    {
        Gradient { points }
    }

    /// The interpolated color at a life percentage.
    pub fn get_color(&self, pct: i64) -> (r: Vec4Fx)
        requires
            gradient_wf(self.points@),
        ensures
            r == gradient_sample_spec(self.points@, pct as int),
    {
        let n = self.points.len();
        let mut i: usize = 0;
        proof {
            assert(self.points@.subrange(0, n as int) =~= self.points@);
        }
        loop
            invariant
                gradient_wf(self.points@),
                n == self.points@.len(),
                i < n,
                gradient_sample_spec(self.points@, pct as int) == gradient_sample_spec(
                    self.points@.subrange(i as int, n as int),
                    pct as int,
                ),
                i > 0 ==> pct > self.points@[i - 1].point,
            decreases n - i,
        {
            let ghost suffix = self.points@.subrange(i as int, n as int);
            if i + 1 == n || pct <= self.points[i].point {
                return self.points[i].color;
            }
            if pct <= self.points[i + 1].point {
                let lo = self.points[i];
                let hi = self.points[i + 1];
                let t = fx_div(fx_sub(pct, lo.point), fx_sub(hi.point, lo.point));
                proof {
                    assert(suffix[0] == lo && suffix[1] == hi);
                }
                return Vec4Fx {
                    x: fx_add(lo.color.x, fx_mul(t, fx_sub(hi.color.x, lo.color.x))),
                    y: fx_add(lo.color.y, fx_mul(t, fx_sub(hi.color.y, lo.color.y))),
                    z: fx_add(lo.color.z, fx_mul(t, fx_sub(hi.color.z, lo.color.z))),
                    w: fx_add(lo.color.w, fx_mul(t, fx_sub(hi.color.w, lo.color.w))),
                };
            }
            proof {
                assert(suffix.drop_first() =~= self.points@.subrange(i as int + 1, n as int));
            }
            i = i + 1;
        }
    }
}

/// A particle color over its lifetime: constant, or a gradient queried by
/// life percentage.
#[derive(Clone, Debug)]
pub enum ColorOverTime {
    /// The same color for the whole lifetime.
    Constant(Vec4Fx),
    /// A gradient across the lifetime.
    Gradient(Gradient),
}

/// A usable color curve: a gradient needs well-formed stops.
pub open spec fn color_over_time_wf(c: ColorOverTime) -> bool {
    match c {
        ColorOverTime::Constant(_) => true,
        ColorOverTime::Gradient(g) => gradient_wf(g.points@),
    }
}

/// The color a color curve takes at a life percentage.
pub open spec fn color_at_pct_spec(c: ColorOverTime, pct: int) -> Vec4Fx
    recommends
        color_over_time_wf(c),
{
    match c {
        ColorOverTime::Constant(col) => col,
        ColorOverTime::Gradient(g) => gradient_sample_spec(g.points@, pct),
    }
}

impl ColorOverTime {
    /// Evaluates the color curve at a life percentage.
    pub fn at_lifetime_pct(&self, pct: i64) -> (r: Vec4Fx)
        requires
            color_over_time_wf(*self),
        ensures
            r == color_at_pct_spec(*self, pct as int),
    {
        match self {
            ColorOverTime::Constant(col) => *col,
            ColorOverTime::Gradient(g) => g.get_color(pct),
        }
    }
}

} // verus!

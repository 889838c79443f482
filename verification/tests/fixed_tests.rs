use prim_core::fixed::{fx_add, fx_div, fx_mul, fx_sub, FX_MAX, FX_ONE};
use prim_core::trig::{cos_fx, sin_fx, FX_HALF_PI, FX_PI};
use prim_core::vecs::{Vec2Fx, Vec4Fx};

#[test]
fn test_fixed_arithmetic_exact_values() {
    // 1.5 * 2.0 == 3.0 and back.
    assert_eq!(fx_mul(1_500, 2_000), 3_000);
    assert_eq!(fx_div(3_000, 2_000), 1_500);
    assert_eq!(fx_add(250, 750), FX_ONE);
    assert_eq!(fx_sub(250, 750), -500);
    // Multiplication truncates toward zero on both signs.
    assert_eq!(fx_mul(1, 999), 0);
    assert_eq!(fx_mul(-1, 999), 0);
    assert_eq!(fx_mul(-1_500, 2_000), -3_000);
}

#[test]
fn test_fixed_arithmetic_saturates() {
    assert_eq!(fx_add(FX_MAX, FX_MAX), FX_MAX);
    assert_eq!(fx_sub(-FX_MAX, FX_MAX), -FX_MAX);
    assert_eq!(fx_mul(FX_MAX, FX_MAX), FX_MAX);
    assert_eq!(fx_mul(-FX_MAX, FX_MAX), -FX_MAX);
}

#[test]
fn test_distance_is_euclidean() {
    // A 3-4-5 triangle in whole units.
    let a = Vec2Fx::new(0, 0);
    let b = Vec2Fx::new(3_000, 4_000);
    assert_eq!(a.distance(&b), 5_000);
    assert_eq!(b.distance(&a), 5_000);
    assert_eq!(a.distance(&a), 0);
}

#[test]
fn test_trig_key_angles() {
    assert_eq!(sin_fx(0), 0);
    assert_eq!(sin_fx(FX_HALF_PI), FX_ONE);
    assert_eq!(sin_fx(FX_PI), 0);
    assert_eq!(sin_fx(-FX_HALF_PI), -FX_ONE);
    assert_eq!(cos_fx(0), FX_ONE);
    // One full turn comes back to the start.
    assert_eq!(sin_fx(FX_HALF_PI + 2 * FX_PI), FX_ONE);
    // Everything stays within one unit.
    let mut angle: i64 = -7_000;
    while angle <= 7_000 {
        let s = sin_fx(angle);
        assert!(-FX_ONE <= s && s <= FX_ONE);
        angle += 137;
    }
}

#[test]
fn test_color_lerp_midpoint() {
    let white = Vec4Fx::one();
    let red = Vec4Fx::new(FX_ONE, 0, 0, FX_ONE);
    let mid = white.lerp(&red, 500);
    assert_eq!(mid, Vec4Fx::new(1_000, 500, 500, 1_000));
}

//! The renderable snapshot of a spatial entity: position, rotation, scale,
//! color and shape id. The collision grid reads positions and scales from it;
//! the particle systems write all of its fields.

use vstd::prelude::*;

use crate::fixed::FX_ONE;
use crate::vecs::{Vec2Fx, Vec4Fx};

verus! {

/// Outline parameters for rendering a shape with a border.
#[derive(Clone, Copy, Debug)]
pub struct Outline {
    /// Extra size of the outline, in fixed-point units.
    pub scale: i64,
    /// Color of the outline.
    pub color: Vec4Fx,
}

/// The core of a renderable object: everything the renderer reads each frame.
#[derive(Clone, Copy, Debug)]
pub struct Instance2D {
    /// World position of the object.
    pub position: Vec2Fx,
    /// Rotation of the object, in fixed-point radians.
    pub rotation: i64,
    /// Scale multiplier of the shape per axis.
    pub scale: Vec2Fx,
    /// Color of the shape.
    pub color: Vec4Fx,
    /// Identifier of the shape to render, issued by the shape registry.
    pub shape: u32,
    /// Whether the instance is rendered with an outline.
    pub outline: Option<Outline>,
}

/// The default instance: at the origin, unrotated, unit scale, opaque white,
/// shape zero, no outline.
pub open spec fn default_instance() -> Instance2D {
    Instance2D {
        position: Vec2Fx { x: 0, y: 0 },
        rotation: 0,
        scale: Vec2Fx { x: FX_ONE as i64, y: FX_ONE as i64 },
        color: Vec4Fx { x: FX_ONE as i64, y: FX_ONE as i64, z: FX_ONE as i64, w: FX_ONE as i64 },
        shape: 0,
        outline: None,
    }
}

impl Default for Instance2D {
    /// The default instance.
    fn default() -> (r: Instance2D)
        ensures
            r == default_instance(),
    {
        Instance2D::new()
    }
}

impl Instance2D {
    /// Creates a new default instance.
    pub fn new() -> (r: Instance2D)
        ensures
            r == default_instance(),
    {
        Instance2D {
            position: Vec2Fx::zero(),
            rotation: 0,
            scale: Vec2Fx::splat(FX_ONE),
            color: Vec4Fx::one(),
            shape: 0,
            outline: None,
        }
    }

    /// Creates a new shape instance with all of its parameters specified.
    pub fn with_params(
        position: Vec2Fx,
        rotation: i64,
        scale: Vec2Fx,
        color: Vec4Fx,
        shape: u32,
        outline: Option<Outline>,
    ) -> (r: Instance2D)
        ensures
            r == (Instance2D { position, rotation, scale, color, shape, outline }),
    {
        Instance2D { position, rotation, scale, color, shape, outline }
    }
}

} // verus!

use vstd::prelude::*;

verus! {

/// Steps used to sample every parametric curve and surface.
pub const PARAMETRIC_STEPS: usize = 30;

/// Depth units per unit of `z`: depths are compared and stored as `z`
/// scaled by this factor and truncated.
pub const DEPTH_SCALE: i64 = 10000;

pub const WHITE: (usize, usize, usize) = (255, 255, 255);
pub const BLACK: (usize, usize, usize) = (0, 0, 0);
pub const RED: (usize, usize, usize) = (255, 0, 0);
pub const GREEN: (usize, usize, usize) = (0, 255, 0);
pub const BLUE: (usize, usize, usize) = (0, 0, 255);

/// The axis of a rotation.
#[derive(Clone, Copy, Debug, PartialEq, Eq, Structural)]
pub enum Rotation {
    X,
    Y,
    Z,
}

/// Shading strategy used when filling triangles.
#[derive(Clone, Copy, Debug, PartialEq, Eq, Structural)]
pub enum ShadingMode {
    Flat,
    Gouraud,
    Phong,
}

} // verus!

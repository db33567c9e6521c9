//! The scene camera: vertical field of view in degrees, near and far clip
//! distances, and a transform, each scalar held as an IEEE-754
//! single-precision bit pattern.

use vstd::prelude::*;

use crate::transform::{default_transform, Transform};

verus! {

/// The bit pattern of 90.0f32, the default field of view in degrees.
pub const F32_90_BITS: u32 = 0x42B4_0000;

/// The bit pattern of 0.1f32, the default near clip distance.
pub const F32_TENTH_BITS: u32 = 0x3DCC_CCCD;

/// The bit pattern of 1000.0f32, the default far clip distance.
pub const F32_1000_BITS: u32 = 0x447A_0000;

#[derive(Debug, Clone, Copy, PartialEq, Eq, Structural)]
pub struct Camera {
    /// Vertical field of view in degrees.
    pub fov: u32,
    pub near_clip: u32,
    pub far_clip: u32,
    pub transform: Transform,
}

/// The default camera: a 90 degree field of view, clip range 0.1 to 1000,
/// and the default transform.
pub open spec fn default_camera() -> Camera {
    Camera {
        fov: F32_90_BITS,
        near_clip: F32_TENTH_BITS,
        far_clip: F32_1000_BITS,
        transform: default_transform(),
    }
}

impl Default for Camera {
    fn default() -> (r: Camera)
        ensures
            r == default_camera(),
    {
        Camera {
            fov: F32_90_BITS,
            near_clip: F32_TENTH_BITS,
            far_clip: F32_1000_BITS,
            transform: Transform::default(),
        }
    }
}

} // verus!

//! A per-object affine transform: translation, scale and rotation, each
//! component held as an IEEE-754 single-precision bit pattern. The transform
//! converts to a 4x4 matrix by scale, then rotate, then translate; that
//! composition is performed by the matrix service in `mat`.

use vstd::prelude::*;

use crate::float_bits::{Float3, Float4, F32_ONE_BITS, F32_ZERO_BITS};

verus! {

#[derive(Debug, Clone, Copy, PartialEq, Eq, Structural)]
pub struct Transform {
    pub translation: Float3,
    pub scale: Float3,
    /// A unit quaternion in x, y, z, w order.
    pub rotation: Float4,
}

/// The default transform: no translation, unit scale, identity rotation.
pub open spec fn default_transform() -> Transform {
    Transform {
        translation: Float3 { x: F32_ZERO_BITS, y: F32_ZERO_BITS, z: F32_ZERO_BITS },
        scale: Float3 { x: F32_ONE_BITS, y: F32_ONE_BITS, z: F32_ONE_BITS },
        rotation: Float4 { x: F32_ZERO_BITS, y: F32_ZERO_BITS, z: F32_ZERO_BITS, w: F32_ONE_BITS },
    }
}

impl Default for Transform {
    fn default() -> (r: Transform)
        ensures
            r == default_transform(),
    {
        Transform {
            translation: Float3::zero(),
            scale: Float3::one(),
            rotation: Float4::identity_quaternion(),
        }
    }
}

} // verus!

//! A surface material: albedo and emissive colors plus an emissive strength
//! multiplier, each component held as an IEEE-754 single-precision bit
//! pattern. Immutable once inserted into a scene.

use vstd::prelude::*;

use crate::float_bits::{Float3, F32_ZERO_BITS};

verus! {

#[derive(Debug, Clone, Copy, PartialEq, Eq, Structural)]
pub struct Material {
    /// Linear color in 0..1 per component.
    pub albedo: Float3,
    pub emissive: Float3,
    pub emissive_strength: u32,
}

impl Default for Material {
    fn default() -> (r: Material)
        ensures
            r == (Material {
                albedo: Float3 { x: F32_ZERO_BITS, y: F32_ZERO_BITS, z: F32_ZERO_BITS },
                emissive: Float3 { x: F32_ZERO_BITS, y: F32_ZERO_BITS, z: F32_ZERO_BITS },
                emissive_strength: F32_ZERO_BITS,
            }),
    {
        Material {
            albedo: Float3::zero(),
            emissive: Float3::zero(),
            emissive_strength: F32_ZERO_BITS,
        }
    }
}

} // verus!

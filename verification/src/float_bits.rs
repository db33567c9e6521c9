//! Plain-data carriers for single-precision floating-point values.
//!
//! The scene model never computes on floating-point numbers: it only stores
//! them and hands them through to the graphics backend. Each component is
//! therefore held as its raw IEEE-754 single-precision bit pattern in a
//! `u32`, which the byte-layout and matrix code treat as opaque data.

use vstd::prelude::*;

verus! {

/// The bit pattern of 0.0f32.
pub const F32_ZERO_BITS: u32 = 0x0000_0000;

/// The bit pattern of 1.0f32.
pub const F32_ONE_BITS: u32 = 0x3F80_0000;

/// Three single-precision components, each held as its raw bit pattern.
#[derive(Debug, Clone, Copy, PartialEq, Eq, Structural)]
pub struct Float3 {
    pub x: u32,
    pub y: u32,
    pub z: u32,
}

impl Float3 {
    /// All components zero.
    pub fn zero() -> (r: Float3)
        ensures
            r == (Float3 { x: F32_ZERO_BITS, y: F32_ZERO_BITS, z: F32_ZERO_BITS }),
    {
        Float3 { x: F32_ZERO_BITS, y: F32_ZERO_BITS, z: F32_ZERO_BITS }
    }

    /// All components one.
    pub fn one() -> (r: Float3)
        ensures
            r == (Float3 { x: F32_ONE_BITS, y: F32_ONE_BITS, z: F32_ONE_BITS }),
    {
        Float3 { x: F32_ONE_BITS, y: F32_ONE_BITS, z: F32_ONE_BITS }
    }
}

impl Default for Float3 {
    fn default() -> (r: Float3)
        ensures
            r == (Float3 { x: F32_ZERO_BITS, y: F32_ZERO_BITS, z: F32_ZERO_BITS }),
    {
        Float3 { x: F32_ZERO_BITS, y: F32_ZERO_BITS, z: F32_ZERO_BITS }
    }
}

/// Four single-precision components, each held as its raw bit pattern; used
/// for quaternions in x, y, z, w order.
#[derive(Debug, Clone, Copy, PartialEq, Eq, Structural)]
pub struct Float4 {
    pub x: u32,
    pub y: u32,
    pub z: u32,
    pub w: u32,
}

impl Float4 {
    /// The identity quaternion: x, y, z zero and w one.
    pub fn identity_quaternion() -> (r: Float4)
        ensures
            r == (Float4 { x: F32_ZERO_BITS, y: F32_ZERO_BITS, z: F32_ZERO_BITS, w: F32_ONE_BITS }),
    {
        Float4 { x: F32_ZERO_BITS, y: F32_ZERO_BITS, z: F32_ZERO_BITS, w: F32_ONE_BITS }
    }
}

} // verus!

//! The matrix service: 4x4 single-precision matrix math performed by glam on
//! raw bit patterns.
//!
//! A matrix travels as sixteen words in column-major order, each word the
//! IEEE-754 bit pattern of one component. Matrix math is an external
//! collaborator of this library: the four bit-level operations here are
//! trusted, each names the glam operation it relies on, and each result is a
//! function of the arguments alone. Everything composed from them is
//! verified.

use vstd::prelude::*;

use crate::camera::Camera;
use crate::shader_types::words_bytes_of;
use crate::shader_types::words_to_bytes;
use crate::transform::Transform;

verus! {

/// The scale-rotate-translate matrix of a transform, as column-major words.
pub uninterp spec fn srt_matrix_of(t: Transform) -> Seq<u32>;

/// The inverse of a 16-word column-major matrix.
pub uninterp spec fn mat4_inverse_of(m: Seq<u32>) -> Seq<u32>;

/// The transpose of a 16-word column-major matrix.
pub uninterp spec fn mat4_transpose_of(m: Seq<u32>) -> Seq<u32>;

/// The right-handed, zero-to-one-depth perspective matrix of a vertical field
/// of view in degrees, an aspect ratio, and near and far clip distances.
pub uninterp spec fn perspective_matrix_of(fov_deg: u32, aspect: u32, near: u32, far: u32) -> Seq<u32>;

/// Relies on glam::Mat4::from_scale_rotation_translation: the matrix that
/// scales, then rotates, then translates, a function of the transform alone.
#[verifier::external_body]
pub(crate) fn srt_matrix_words(t: &Transform) -> (r: Vec<u32>)
    ensures
        r@ == srt_matrix_of(*t),
        r@.len() == 16,
{
    let s = [t.scale.x, t.scale.y, t.scale.z];
    let q = [t.rotation.x, t.rotation.y, t.rotation.z, t.rotation.w];
    let tr = [t.translation.x, t.translation.y, t.translation.z];
    let m = glam::Mat4::from_scale_rotation_translation(
        glam::Vec3::from_slice(bytemuck::cast_slice(&s)),
        glam::Quat::from_slice(bytemuck::cast_slice(&q)),
        glam::Vec3::from_slice(bytemuck::cast_slice(&tr)),
    );
    m.to_cols_array().iter().map(|c| c.to_bits()).collect()
}

/// Relies on glam::Mat4::inverse, a function of the matrix alone. A singular
/// matrix gives a non-finite result, never a panic.
#[verifier::external_body]
pub(crate) fn mat4_inverse_words(m: &Vec<u32>) -> (r: Vec<u32>)
    requires
        m@.len() == 16,
    ensures
        r@ == mat4_inverse_of(m@),
        r@.len() == 16,
{
    let inv = glam::Mat4::from_cols_slice(bytemuck::cast_slice(m.as_slice())).inverse();
    inv.to_cols_array().iter().map(|c| c.to_bits()).collect()
}

/// Relies on glam::Mat4::transpose, a function of the matrix alone.
#[verifier::external_body]
pub(crate) fn mat4_transpose_words(m: &Vec<u32>) -> (r: Vec<u32>)
    requires
        m@.len() == 16,
    ensures
        r@ == mat4_transpose_of(m@),
        r@.len() == 16,
{
    let t = glam::Mat4::from_cols_slice(bytemuck::cast_slice(m.as_slice())).transpose();
    t.to_cols_array().iter().map(|c| c.to_bits()).collect()
}

/// Relies on glam::camera::rh::directx::perspective applied to the field of
/// view converted to radians by core's to_radians; a function of the four
/// arguments alone, and panic-free whatever they hold.
#[verifier::external_body]
pub(crate) fn perspective_matrix_words(fov_deg: u32, aspect: u32, near: u32, far: u32) -> (r: Vec<u32>)
    ensures
        r@ == perspective_matrix_of(fov_deg, aspect, near, far),
        r@.len() == 16,
{
    let a = [fov_deg, aspect, near, far];
    let p = glam::Vec4::from_slice(bytemuck::cast_slice(&a));
    let m = glam::camera::rh::proj::directx::perspective(p.x.to_radians(), p.y, p.z, p.w);
    m.to_cols_array().iter().map(|c| c.to_bits()).collect()
}

/// The inverse of the camera's view matrix, as column-major words.
pub open spec fn view_inverse_words_of(t: Transform) -> Seq<u32> {
    mat4_inverse_of(srt_matrix_of(t))
}

/// The inverse of the camera's projection matrix, as column-major words.
pub open spec fn proj_inverse_words_of(cam: Camera, aspect: u32) -> Seq<u32> {
    mat4_inverse_of(perspective_matrix_of(cam.fov, aspect, cam.near_clip, cam.far_clip))
}

/// The 32 words of the camera uniform record: the view inverse, then the
/// projection inverse.
pub open spec fn camera_uniform_words_of(cam: Camera, aspect: u32) -> Seq<u32> {
    view_inverse_words_of(cam.transform) + proj_inverse_words_of(cam, aspect)
}

/// The 128 bytes of the camera uniform record.
pub open spec fn camera_uniform_bytes_of(cam: Camera, aspect: u32) -> Seq<u8> {
    words_bytes_of(camera_uniform_words_of(cam, aspect))
}

/// Computes the camera uniform payload for a camera and a viewport aspect
/// ratio (the ratio given as the bit pattern of width over height).
pub fn camera_uniform_bytes(cam: &Camera, aspect: u32) -> (r: Vec<u8>)
    ensures
        r@ == camera_uniform_bytes_of(*cam, aspect),
        r@.len() == 128,
{
    let view = srt_matrix_words(&cam.transform);
    let mut words = mat4_inverse_words(&view);
    let proj = perspective_matrix_words(cam.fov, aspect, cam.near_clip, cam.far_clip);
    let mut proj_inv = mat4_inverse_words(&proj);
    words.append(&mut proj_inv);
    let bytes = words_to_bytes(&words);
    proof {
        assert(words@ =~= camera_uniform_words_of(*cam, aspect));
    }
    bytes
}

/// The first twelve words of the transposed object matrix: the top three
/// rows of the affine transform, row-major, translation in the last column,
/// as a top-level instance slot stores them.
pub open spec fn transform_rows_of(t: Transform) -> Seq<u32> {
    mat4_transpose_of(srt_matrix_of(t)).take(12)
}

/// Computes the row-major 3x4 matrix of a transform for a top-level
/// instance slot.
pub fn transform_rows(t: &Transform) -> (r: Vec<u32>)
    ensures
        r@ == transform_rows_of(*t),
        r@.len() == 12,
{
    let m = srt_matrix_words(t);
    let tr = mat4_transpose_words(&m);
    let mut rows: Vec<u32> = Vec::new();
    let mut i: usize = 0;
    while i < 12
        invariant
            i <= 12,
            tr@.len() == 16,
            tr@ == mat4_transpose_of(srt_matrix_of(*t)),
            rows@ == tr@.take(i as int),
        decreases 12 - i,
    {
        rows.push(tr[i]);
        proof {
            assert(tr@.take(i + 1 as int) =~= tr@.take(i as int).push(tr@[i as int]));
        }
        i = i + 1;
    }
    rows
}

} // verus!

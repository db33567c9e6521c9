//! GPU-facing record types and their byte layout.
//!
//! Every record is 16-byte aligned and little-endian:
//! - vertex record: position (3 words) + padding + normal (3 words) + padding, 32 bytes;
//! - material record: albedo (3 words) + padding + emissive (3 words) + strength, 32 bytes;
//! - instance record: first vertex, first index, material index, padding, 16 bytes;
//! - camera uniform record: two 16-word matrices, 128 bytes.
//!
//! A word is a `u32`; words that carry floating-point data hold IEEE-754
//! single-precision bit patterns.

use vstd::prelude::*;

use crate::float_bits::Float3;
use crate::material::Material;
use crate::mesh::Vertex;

verus! {

/// One flattened vertex as the shaders read it.
#[derive(Debug, Clone, Copy, PartialEq, Eq, Structural)]
pub struct GpuVertex {
    pub pos: Float3,
    pub normal: Float3,
}

/// One flattened material as the shaders read it.
#[derive(Debug, Clone, Copy, PartialEq, Eq, Structural)]
pub struct GpuMaterial {
    pub albedo: Float3,
    pub emissive: Float3,
    pub emissive_strength: u32,
}

/// One instance record: where the instance's geometry starts in the shared
/// vertex and index buffers, and which material record it uses.
#[derive(Debug, Clone, Copy, PartialEq, Eq, Structural)]
pub struct GpuInstance {
    pub first_vertex: u32,
    pub first_index: u32,
    pub material_index: u32,
    pub _p0: u32,
}

/// The vertex record a mesh vertex flattens to.
pub open spec fn gpu_vertex_of(v: Vertex) -> GpuVertex {
    GpuVertex { pos: v.pos, normal: v.normal }
}

/// The material record a material flattens to.
pub open spec fn gpu_material_of(m: Material) -> GpuMaterial {
    GpuMaterial { albedo: m.albedo, emissive: m.emissive, emissive_strength: m.emissive_strength }
}

/// The four little-endian bytes of one word, least significant first.
pub open spec fn le_bytes_of(x: u32) -> Seq<u8> {
    seq![
        (x & 0xff) as u8,
        ((x >> 8) & 0xff) as u8,
        ((x >> 16) & 0xff) as u8,
        ((x >> 24) & 0xff) as u8,
    ]
}

/// The bytes of a word sequence, each word little-endian, in order.
pub open spec fn words_bytes_of(ws: Seq<u32>) -> Seq<u8>
    decreases ws.len(),
{
    if ws.len() == 0 {
        Seq::empty()
    } else {
        words_bytes_of(ws.drop_last()) + le_bytes_of(ws.last())
    }
}

/// The 32 bytes of one vertex record.
pub open spec fn vertex_bytes_of(v: GpuVertex) -> Seq<u8> {
    le_bytes_of(v.pos.x) + le_bytes_of(v.pos.y) + le_bytes_of(v.pos.z) + le_bytes_of(0u32)
        + le_bytes_of(v.normal.x) + le_bytes_of(v.normal.y) + le_bytes_of(v.normal.z)
        + le_bytes_of(0u32)
}

/// The 32 bytes of one material record.
pub open spec fn material_bytes_of(m: GpuMaterial) -> Seq<u8> {
    le_bytes_of(m.albedo.x) + le_bytes_of(m.albedo.y) + le_bytes_of(m.albedo.z) + le_bytes_of(0u32)
        + le_bytes_of(m.emissive.x) + le_bytes_of(m.emissive.y) + le_bytes_of(m.emissive.z)
        + le_bytes_of(m.emissive_strength)
}

/// The 16 bytes of one instance record.
pub open spec fn instance_bytes_of(i: GpuInstance) -> Seq<u8> {
    le_bytes_of(i.first_vertex) + le_bytes_of(i.first_index) + le_bytes_of(i.material_index)
        + le_bytes_of(i._p0)
}

/// The bytes of a whole vertex buffer, record after record.
pub open spec fn vertex_buffer_bytes_of(vs: Seq<GpuVertex>) -> Seq<u8>
    decreases vs.len(),
{
    if vs.len() == 0 {
        Seq::empty()
    } else {
        vertex_buffer_bytes_of(vs.drop_last()) + vertex_bytes_of(vs.last())
    }
}

/// The bytes of a whole material buffer, record after record.
pub open spec fn material_buffer_bytes_of(ms: Seq<GpuMaterial>) -> Seq<u8>
    decreases ms.len(),
{
    if ms.len() == 0 {
        Seq::empty()
    } else {
        material_buffer_bytes_of(ms.drop_last()) + material_bytes_of(ms.last())
    }
}

/// The bytes of a whole instance buffer, record after record.
pub open spec fn instance_buffer_bytes_of(is: Seq<GpuInstance>) -> Seq<u8>
    decreases is.len(),
{
    if is.len() == 0 {
        Seq::empty()
    } else {
        instance_buffer_bytes_of(is.drop_last()) + instance_bytes_of(is.last())
    }
}

/// Appends the four little-endian bytes of one word.
pub fn push_word_le(out: &mut Vec<u8>, w: u32)
    ensures
        final(out)@ == old(out)@ + le_bytes_of(w),
{
    proof {
        assert(w & 0xff <= 0xff) by (bit_vector);
        assert((w >> 8) & 0xff <= 0xff) by (bit_vector);
        assert((w >> 16) & 0xff <= 0xff) by (bit_vector);
        assert((w >> 24) & 0xff <= 0xff) by (bit_vector);
    }
    out.push((w & 0xff) as u8);
    out.push(((w >> 8) & 0xff) as u8);
    out.push(((w >> 16) & 0xff) as u8);
    out.push(((w >> 24) & 0xff) as u8);
    proof {
        assert(out@ =~= old(out)@ + le_bytes_of(w));
    }
}

/// Serializes a word sequence to its little-endian bytes.
pub fn words_to_bytes(ws: &Vec<u32>) -> (r: Vec<u8>)
    ensures
        r@ == words_bytes_of(ws@),
        r@.len() == 4 * ws@.len(),
{
    let mut out: Vec<u8> = Vec::new();
    let mut i: usize = 0;
    while i < ws.len()
        invariant
            i <= ws@.len(),
            out@ == words_bytes_of(ws@.take(i as int)),
            out@.len() == 4 * i,
        decreases ws@.len() - i,
    {
        push_word_le(&mut out, ws[i]);
        proof {
            assert(ws@.take(i + 1 as int).drop_last() =~= ws@.take(i as int));
            assert(ws@.take(i + 1 as int).last() == ws@[i as int]);
        }
        i = i + 1;
    }
    proof {
        assert(ws@.take(ws@.len() as int) =~= ws@);
    }
    out
}

/// Serializes a vertex buffer to the 32-byte-per-record layout.
pub fn vertex_buffer_to_bytes(vs: &Vec<GpuVertex>) -> (r: Vec<u8>)
    ensures
        r@ == vertex_buffer_bytes_of(vs@),
        r@.len() == 32 * vs@.len(),
{
    let mut out: Vec<u8> = Vec::new();
    let mut i: usize = 0;
    while i < vs.len()
        invariant
            i <= vs@.len(),
            out@ == vertex_buffer_bytes_of(vs@.take(i as int)),
            out@.len() == 32 * i,
        decreases vs@.len() - i,
    {
        let v = vs[i];
        push_word_le(&mut out, v.pos.x);
        push_word_le(&mut out, v.pos.y);
        push_word_le(&mut out, v.pos.z);
        push_word_le(&mut out, 0);
        push_word_le(&mut out, v.normal.x);
        push_word_le(&mut out, v.normal.y);
        push_word_le(&mut out, v.normal.z);
        push_word_le(&mut out, 0);
        proof {
            assert(vs@.take(i + 1 as int).drop_last() =~= vs@.take(i as int));
            assert(vs@.take(i + 1 as int).last() == vs@[i as int]);
            assert(out@ =~= vertex_buffer_bytes_of(vs@.take(i + 1 as int)));
        }
        i = i + 1;
    }
    proof {
        assert(vs@.take(vs@.len() as int) =~= vs@);
    }
    out
}

/// Serializes a material buffer to the 32-byte-per-record layout.
pub fn material_buffer_to_bytes(ms: &Vec<GpuMaterial>) -> (r: Vec<u8>)
    ensures
        r@ == material_buffer_bytes_of(ms@),
        r@.len() == 32 * ms@.len(),
{
    let mut out: Vec<u8> = Vec::new();
    let mut i: usize = 0;
    while i < ms.len()
        invariant
            i <= ms@.len(),
            out@ == material_buffer_bytes_of(ms@.take(i as int)),
            out@.len() == 32 * i,
        decreases ms@.len() - i,
    {
        let m = ms[i];
        push_word_le(&mut out, m.albedo.x);
        push_word_le(&mut out, m.albedo.y);
        push_word_le(&mut out, m.albedo.z);
        push_word_le(&mut out, 0);
        push_word_le(&mut out, m.emissive.x);
        push_word_le(&mut out, m.emissive.y);
        push_word_le(&mut out, m.emissive.z);
        push_word_le(&mut out, m.emissive_strength);
        proof {
            assert(ms@.take(i + 1 as int).drop_last() =~= ms@.take(i as int));
            assert(ms@.take(i + 1 as int).last() == ms@[i as int]);
            assert(out@ =~= material_buffer_bytes_of(ms@.take(i + 1 as int)));
        }
        i = i + 1;
    }
    proof {
        assert(ms@.take(ms@.len() as int) =~= ms@);
    }
    out
}

/// Serializes an instance buffer to the 16-byte-per-record layout.
pub fn instance_buffer_to_bytes(is: &Vec<GpuInstance>) -> (r: Vec<u8>)
    ensures
        r@ == instance_buffer_bytes_of(is@),
        r@.len() == 16 * is@.len(),
{
    let mut out: Vec<u8> = Vec::new();
    let mut i: usize = 0;
    while i < is.len()
        invariant
            i <= is@.len(),
            out@ == instance_buffer_bytes_of(is@.take(i as int)),
            out@.len() == 16 * i,
        decreases is@.len() - i,
    {
        let rec = is[i];
        push_word_le(&mut out, rec.first_vertex);
        push_word_le(&mut out, rec.first_index);
        push_word_le(&mut out, rec.material_index);
        push_word_le(&mut out, rec._p0);
        proof {
            assert(is@.take(i + 1 as int).drop_last() =~= is@.take(i as int));
            assert(is@.take(i + 1 as int).last() == is@[i as int]);
            assert(out@ =~= instance_buffer_bytes_of(is@.take(i + 1 as int)));
        }
        i = i + 1;
    }
    proof {
        assert(is@.take(is@.len() as int) =~= is@);
    }
    out
}

} // verus!

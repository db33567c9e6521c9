//! A triangle mesh: an ordered sequence of vertices and an ordered sequence
//! of triangle indices whose length is a multiple of three. Immutable once
//! inserted into a scene.

use vstd::prelude::*;

use crate::float_bits::Float3;

verus! {

#[derive(Debug, Clone)]
pub struct Mesh {
    pub vertices: Vec<Vertex>,
    pub indices: Vec<u32>,
}

#[derive(Debug, Clone, Copy, PartialEq, Eq, Structural)]
pub struct Vertex {
    pub pos: Float3,
    pub normal: Float3,
}

impl Mesh {
    /// A well-formed mesh's index list describes whole triangles.
    pub open spec fn wf(&self) -> bool {
        self.indices@.len() % 3 == 0
    }
}

/// Zips flat position and normal arrays, three components at a time, into
/// vertices: vertex `k` takes components `3k`, `3k + 1` and `3k + 2` of each
/// array. Fails when the arrays differ in length or do not divide into
/// threes.
pub fn zip_vertices(positions: &Vec<u32>, normals: &Vec<u32>) -> (r: Option<Vec<Vertex>>)
    ensures
        r is Some <==> positions@.len() == normals@.len() && positions@.len() % 3 == 0,
        r is Some ==> {
            let vs = r->0;
            &&& vs@.len() * 3 == positions@.len()
            &&& forall|k: int|
                0 <= k < vs@.len() ==> #[trigger] vs@[k] == (Vertex {
                    pos: Float3 { x: positions@[3 * k], y: positions@[3 * k + 1], z: positions@[3 * k + 2] },
                    normal: Float3 { x: normals@[3 * k], y: normals@[3 * k + 1], z: normals@[3 * k + 2] },
                })
        },
{
    if positions.len() != normals.len() || positions.len() % 3 != 0 {
        return None;
    }
    let count = positions.len() / 3;
    let mut vs: Vec<Vertex> = Vec::new();
    let mut k: usize = 0;
    while k < count
        invariant
            positions@.len() == normals@.len(),
            positions@.len() <= usize::MAX,
            positions@.len() % 3 == 0,
            count == positions@.len() / 3,
            3 * count == positions@.len(),
            k <= count,
            vs@.len() == k,
            forall|j: int|
                0 <= j < k ==> #[trigger] vs@[j] == (Vertex {
                    pos: Float3 { x: positions@[3 * j], y: positions@[3 * j + 1], z: positions@[3 * j + 2] },
                    normal: Float3 { x: normals@[3 * j], y: normals@[3 * j + 1], z: normals@[3 * j + 2] },
                }),
        decreases count - k,
    {
        let base = 3 * k;
        let v = Vertex {
            pos: Float3 { x: positions[base], y: positions[base + 1], z: positions[base + 2] },
            normal: Float3 { x: normals[base], y: normals[base + 1], z: normals[base + 2] },
        };
        vs.push(v);
        k = k + 1;
    }
    Some(vs)
}

/// Builds a mesh from the flat arrays a triangle-mesh loader hands back:
/// positions and normals as component bit patterns, zipped into vertices, and
/// the triangle indices. Fails when the arrays differ in length, the
/// components do not divide into threes, or the indices do not describe whole
/// triangles.
pub fn build_mesh(positions: Vec<u32>, normals: Vec<u32>, indices: Vec<u32>) -> (r: Option<Mesh>)
    ensures
        r is Some <==> (positions@.len() == normals@.len() && positions@.len() % 3 == 0
            && indices@.len() % 3 == 0),
        r is Some ==> {
            let m = r->0;
            &&& m.indices@ == indices@
            &&& m.vertices@.len() * 3 == positions@.len()
            &&& forall|k: int|
                0 <= k < m.vertices@.len() ==> #[trigger] m.vertices@[k] == (Vertex {
                    pos: Float3 {
                        x: positions@[3 * k],
                        y: positions@[3 * k + 1],
                        z: positions@[3 * k + 2],
                    },
                    normal: Float3 {
                        x: normals@[3 * k],
                        y: normals@[3 * k + 1],
                        z: normals@[3 * k + 2],
                    },
                })
            &&& m.wf()
        },
{
    if indices.len() % 3 != 0 {
        return None;
    }
    match zip_vertices(&positions, &normals) {
        Some(vertices) => Some(Mesh { vertices, indices }),
        None => None,
    }
}

} // verus!

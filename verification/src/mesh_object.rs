//! A scene object: handles into the mesh and material arenas plus a
//! per-object transform. Many objects may reference the same mesh or
//! material handle.

use vstd::prelude::*;

use crate::dense_storage::DenseStorageIndex;
use crate::transform::Transform;

verus! {

#[derive(Debug, Clone, Copy, PartialEq, Eq, Structural)]
pub struct MeshObject {
    pub mesh: DenseStorageIndex,
    pub material: DenseStorageIndex,
    pub transform: Transform,
}

} // verus!

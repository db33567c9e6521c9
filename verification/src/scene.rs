//! The scene graph and its compiler.
//!
//! A scene owns three arenas (meshes, materials, scene objects) and a camera,
//! and compiles, on demand and once, a GPU-ready snapshot: flattened vertex,
//! index, material and instance buffers, one acceleration-substructure size
//! descriptor per (mesh, material) group, and the per-group transform lists
//! the per-frame top-level rebuild reads.
//!
//! The compiler walks the live scene objects in slot order, groups them by
//! (mesh handle, material handle) in first-seen order (a deliberate,
//! deterministic ordering), drops groups whose mesh or material handle no
//! longer resolves, uploads each referenced mesh once, and emits one instance
//! record per surviving group.

use vstd::prelude::*;

use crate::camera::{default_camera, Camera};
use crate::dense_storage::{
    spec_get, spec_push_free, spec_push_handle, spec_push_slots, DenseStorage, DenseStorageIndex,
};
use crate::mat::camera_uniform_bytes_of;
use crate::material::Material;
use crate::mesh::Mesh;
use crate::mesh_object::MeshObject;
use crate::shader_types::{gpu_material_of, gpu_vertex_of, GpuInstance, GpuMaterial, GpuVertex};
use crate::transform::Transform;

verus! {

/// The composite key scene objects are grouped by.
#[derive(Debug, Clone, Copy, PartialEq, Eq, Structural)]
pub struct GroupKey {
    pub mesh: DenseStorageIndex,
    pub material: DenseStorageIndex,
}

/// The size declaration of one bottom-level acceleration substructure, made
/// before any backend allocation. The formats are fixed: positions are three
/// 32-bit floats, indices 32-bit unsigned, the geometry opaque, the update
/// mode a full rebuild.
#[derive(Debug, Clone, Copy, PartialEq, Eq, Structural)]
pub struct BlasSizeDescriptor {
    pub vertex_count: u32,
    pub index_count: u32,
}

/// The compiled, GPU-ready snapshot of a scene.
#[derive(Debug, Clone)]
pub struct GpuScene {
    /// The 128-byte camera uniform record.
    pub uniform_bytes: Vec<u8>,
    /// The flattened vertex buffer: each referenced mesh's vertices, once.
    pub vertices: Vec<GpuVertex>,
    /// The flattened index buffer, aligned with the vertex buffer.
    pub indices: Vec<u32>,
    /// The handle of each uploaded mesh, in upload order.
    pub mesh_handles: Vec<DenseStorageIndex>,
    /// Where each uploaded mesh's vertices start in the vertex buffer.
    pub mesh_vertex_offsets: Vec<u32>,
    /// Where each uploaded mesh's indices start in the index buffer.
    pub mesh_index_offsets: Vec<u32>,
    /// One material record per group, in group order.
    pub materials: Vec<GpuMaterial>,
    /// One instance record per group, in group order.
    pub instances: Vec<GpuInstance>,
    /// The transforms of each group's objects, in group order.
    pub instance_transforms: Vec<Vec<Transform>>,
    /// One substructure size declaration per group, in group order.
    pub blas_sizes: Vec<BlasSizeDescriptor>,
}

/// A scene: three arenas, a camera, and the lazily compiled snapshot. The
/// snapshot, once made, is never invalidated by later edits.
#[derive(Debug, Clone)]
pub struct Scene {
    pub meshes: DenseStorage<Mesh>,
    pub materials: DenseStorage<Material>,
    pub mesh_objects: DenseStorage<MeshObject>,
    pub camera: Camera,
    pub gpu_scene: Option<GpuScene>,
}

/// The group key of one scene object.
pub open spec fn key_of(o: MeshObject) -> GroupKey {
    GroupKey { mesh: o.mesh, material: o.material }
}

/// The live objects of an object arena, in slot order.
pub open spec fn live_objects(slots: Seq<(u32, Option<MeshObject>)>) -> Seq<MeshObject>
    decreases slots.len(),
{
    if slots.len() == 0 {
        Seq::empty()
    } else {
        live_objects(slots.drop_last()) + match slots.last().1 {
            Some(o) => seq![o],
            None => Seq::empty(),
        }
    }
}

/// The distinct group keys of an object sequence, in first-seen order.
pub open spec fn group_keys_of(objs: Seq<MeshObject>) -> Seq<GroupKey>
    decreases objs.len(),
{
    if objs.len() == 0 {
        Seq::empty()
    } else {
        let ks = group_keys_of(objs.drop_last());
        if ks.contains(key_of(objs.last())) {
            ks
        } else {
            ks.push(key_of(objs.last()))
        }
    }
}

/// The transforms of the objects with a given key, in object order.
pub open spec fn group_transforms_of(objs: Seq<MeshObject>, k: GroupKey) -> Seq<Transform>
    decreases objs.len(),
{
    if objs.len() == 0 {
        Seq::empty()
    } else {
        let ts = group_transforms_of(objs.drop_last(), k);
        if key_of(objs.last()) == k {
            ts.push(objs.last().transform)
        } else {
            ts
        }
    }
}

/// The keys whose mesh and material handles both still resolve, in key order.
pub open spec fn surviving_keys_of(
    ks: Seq<GroupKey>,
    mslots: Seq<(u32, Option<Mesh>)>,
    tslots: Seq<(u32, Option<Material>)>,
) -> Seq<GroupKey>
    decreases ks.len(),
{
    if ks.len() == 0 {
        Seq::empty()
    } else {
        let rest = surviving_keys_of(ks.drop_last(), mslots, tslots);
        if spec_get(mslots, ks.last().mesh) is Some && spec_get(tslots, ks.last().material) is Some {
            rest.push(ks.last())
        } else {
            rest
        }
    }
}

/// The distinct mesh handles of a surviving key sequence, in first-seen
/// order: the meshes to upload.
pub open spec fn referenced_meshes_of(sk: Seq<GroupKey>) -> Seq<DenseStorageIndex>
    decreases sk.len(),
{
    if sk.len() == 0 {
        Seq::empty()
    } else {
        let rm = referenced_meshes_of(sk.drop_last());
        if rm.contains(sk.last().mesh) {
            rm
        } else {
            rm.push(sk.last().mesh)
        }
    }
}

/// The vertex records of one mesh, in vertex order.
pub open spec fn gpu_vertices_of(m: Mesh) -> Seq<GpuVertex> {
    m.vertices@.map_values(|v| gpu_vertex_of(v))
}

/// The flattened vertex buffer: the vertex records of each handle's mesh,
/// concatenated in handle order.
pub open spec fn flat_vertices_of(
    mslots: Seq<(u32, Option<Mesh>)>,
    rm: Seq<DenseStorageIndex>,
) -> Seq<GpuVertex>
    decreases rm.len(),
{
    if rm.len() == 0 {
        Seq::empty()
    } else {
        flat_vertices_of(mslots, rm.drop_last()) + gpu_vertices_of(spec_get(mslots, rm.last())->0)
    }
}

/// The flattened index buffer: each handle's mesh's indices, concatenated in
/// handle order.
pub open spec fn flat_indices_of(
    mslots: Seq<(u32, Option<Mesh>)>,
    rm: Seq<DenseStorageIndex>,
) -> Seq<u32>
    decreases rm.len(),
{
    if rm.len() == 0 {
        Seq::empty()
    } else {
        flat_indices_of(mslots, rm.drop_last()) + spec_get(mslots, rm.last())->0.indices@
    }
}

/// The sum of the vertex counts of the handles' meshes.
pub open spec fn total_vertex_count(
    mslots: Seq<(u32, Option<Mesh>)>,
    rm: Seq<DenseStorageIndex>,
) -> int
    decreases rm.len(),
{
    if rm.len() == 0 {
        0
    } else {
        total_vertex_count(mslots, rm.drop_last()) + gpu_vertices_of(spec_get(mslots, rm.last())->0).len()
    }
}

/// The flattened vertex buffer holds exactly as many records as the
/// referenced meshes hold vertices between them.
pub proof fn lemma_flat_vertices_len(mslots: Seq<(u32, Option<Mesh>)>, rm: Seq<DenseStorageIndex>)
    ensures
        flat_vertices_of(mslots, rm).len() == total_vertex_count(mslots, rm),
    decreases rm.len(),
{
    if rm.len() > 0 {
        lemma_flat_vertices_len(mslots, rm.drop_last());
    }
}

impl Scene {
    /// Every arena is well-formed.
    pub open spec fn wf(&self) -> bool {
        &&& self.meshes.wf()
        &&& self.materials.wf()
        &&& self.mesh_objects.wf()
    }

    /// Whether both handles of a key still resolve to a live value.
    pub open spec fn key_resolves(&self, k: GroupKey) -> bool {
        &&& spec_get(self.meshes.storage@, k.mesh) is Some
        &&& spec_get(self.materials.storage@, k.material) is Some
    }

    /// The live scene objects, in slot order.
    pub open spec fn live(&self) -> Seq<MeshObject> {
        live_objects(self.mesh_objects.storage@)
    }

    /// The group keys of the live objects, in first-seen order.
    pub open spec fn group_keys(&self) -> Seq<GroupKey> {
        group_keys_of(self.live())
    }

    /// The surviving group keys: those that still resolve.
    pub open spec fn surviving_keys(&self) -> Seq<GroupKey> {
        surviving_keys_of(self.group_keys(), self.meshes.storage@, self.materials.storage@)
    }

    /// The mesh handles the compiler uploads, in first-seen order.
    pub open spec fn referenced_meshes(&self) -> Seq<DenseStorageIndex> {
        referenced_meshes_of(self.surviving_keys())
    }

    pub fn new() -> (r: Scene)
        ensures
            r.meshes.storage@ =~= Seq::<(u32, Option<Mesh>)>::empty(),
            r.materials.storage@ =~= Seq::<(u32, Option<Material>)>::empty(),
            r.mesh_objects.storage@ =~= Seq::<(u32, Option<MeshObject>)>::empty(),
            r.camera == default_camera(),
            r.gpu_scene is None,
            r.wf(),
    {
        Scene {
            meshes: DenseStorage::new(),
            materials: DenseStorage::new(),
            mesh_objects: DenseStorage::new(),
            camera: Camera::default(),
            gpu_scene: None,
        }
    }

    /// Inserts a mesh and returns its handle; always succeeds.
    pub fn insert_mesh(&mut self, mesh: Mesh) -> (r: DenseStorageIndex)
        requires
            old(self).wf(),
        ensures
            final(self).meshes.storage@ == spec_push_slots(
                old(self).meshes.storage@,
                old(self).meshes.recycled_indices@,
                mesh,
            ),
            final(self).meshes.recycled_indices@ == spec_push_free(
                old(self).meshes.storage@,
                old(self).meshes.recycled_indices@,
            ),
            r == spec_push_handle(old(self).meshes.storage@, old(self).meshes.recycled_indices@),
            spec_get(final(self).meshes.storage@, r) == Some(mesh),
            final(self).materials == old(self).materials,
            final(self).mesh_objects == old(self).mesh_objects,
            final(self).camera == old(self).camera,
            final(self).gpu_scene == old(self).gpu_scene,
            final(self).wf(),
    {
        self.meshes.push(mesh)
    }

    /// Inserts a material and returns its handle; always succeeds.
    pub fn insert_material(&mut self, material: Material) -> (r: DenseStorageIndex)
        requires
            old(self).wf(),
        ensures
            final(self).materials.storage@ == spec_push_slots(
                old(self).materials.storage@,
                old(self).materials.recycled_indices@,
                material,
            ),
            final(self).materials.recycled_indices@ == spec_push_free(
                old(self).materials.storage@,
                old(self).materials.recycled_indices@,
            ),
            r == spec_push_handle(old(self).materials.storage@, old(self).materials.recycled_indices@),
            spec_get(final(self).materials.storage@, r) == Some(material),
            final(self).meshes == old(self).meshes,
            final(self).mesh_objects == old(self).mesh_objects,
            final(self).camera == old(self).camera,
            final(self).gpu_scene == old(self).gpu_scene,
            final(self).wf(),
    {
        self.materials.push(material)
    }

    /// Inserts a scene object and returns its handle; always succeeds.
    pub fn insert_mesh_object(&mut self, mesh_object: MeshObject) -> (r: DenseStorageIndex)
        requires
            old(self).wf(),
        ensures
            final(self).mesh_objects.storage@ == spec_push_slots(
                old(self).mesh_objects.storage@,
                old(self).mesh_objects.recycled_indices@,
                mesh_object,
            ),
            final(self).mesh_objects.recycled_indices@ == spec_push_free(
                old(self).mesh_objects.storage@,
                old(self).mesh_objects.recycled_indices@,
            ),
            r == spec_push_handle(
                old(self).mesh_objects.storage@,
                old(self).mesh_objects.recycled_indices@,
            ),
            spec_get(final(self).mesh_objects.storage@, r) == Some(mesh_object),
            final(self).meshes == old(self).meshes,
            final(self).materials == old(self).materials,
            final(self).camera == old(self).camera,
            final(self).gpu_scene == old(self).gpu_scene,
            final(self).wf(),
    {
        self.mesh_objects.push(mesh_object)
    }

    /// Collects the live scene objects in slot order.
    pub fn live_mesh_objects(&self) -> (r: Vec<MeshObject>)
        ensures
            r@ == self.live(),
    {
        let slots = self.mesh_objects.iter();
        let mut out: Vec<MeshObject> = Vec::new();
        let mut i: usize = 0;
        while i < slots.len()
            invariant
                i <= slots@.len(),
                slots@ == self.mesh_objects.storage@,
                out@ == live_objects(slots@.take(i as int)),
            decreases slots@.len() - i,
        {
            match &slots[i].1 {
                Some(o) => {
                    out.push(*o);
                }
                None => {}
            }
            proof {
                assert(slots@.take(i + 1 as int).drop_last() =~= slots@.take(i as int));
                assert(slots@.take(i + 1 as int).last() == slots@[i as int]);
                if slots@[i as int].1 is Some {
                    assert(out@ =~= live_objects(slots@.take(i + 1 as int)));
                } else {
                    assert(out@ =~= live_objects(slots@.take(i + 1 as int)));
                }
            }
            i = i + 1;
        }
        proof {
            assert(slots@.take(slots@.len() as int) =~= slots@);
        }
        out
    }
}

impl Default for Scene {
    fn default() -> (r: Scene)
        ensures
            r.meshes.storage@ =~= Seq::<(u32, Option<Mesh>)>::empty(),
            r.materials.storage@ =~= Seq::<(u32, Option<Material>)>::empty(),
            r.mesh_objects.storage@ =~= Seq::<(u32, Option<MeshObject>)>::empty(),
            r.camera == default_camera(),
            r.gpu_scene is None,
            r.wf(),
    {
        Scene::new()
    }
}

/// Group keys never repeat: each key stands for one group.
pub proof fn lemma_group_keys_distinct(objs: Seq<MeshObject>)
    ensures
        forall|a: int, b: int|
            0 <= a < b < group_keys_of(objs).len() ==> group_keys_of(objs)[a] != group_keys_of(objs)[b],
    decreases objs.len(),
{
    if objs.len() > 0 {
        lemma_group_keys_distinct(objs.drop_last());
        let ks = group_keys_of(objs.drop_last());
        let k = key_of(objs.last());
        if !ks.contains(k) {
            assert forall|a: int, b: int|
                0 <= a < b < group_keys_of(objs).len() implies group_keys_of(objs)[a]
                != group_keys_of(objs)[b] by {
                if b == ks.len() {
                    assert(ks[a] == group_keys_of(objs)[a]);
                }
            }
        }
    }
}

/// A key is a group key exactly when some object carries it.
pub proof fn lemma_group_keys_contains(objs: Seq<MeshObject>, k: GroupKey)
    ensures
        group_keys_of(objs).contains(k) <==> exists|i: int|
            0 <= i < objs.len() && key_of(#[trigger] objs[i]) == k,
    decreases objs.len(),
{
    if objs.len() > 0 {
        lemma_group_keys_contains(objs.drop_last(), k);
        let ks = group_keys_of(objs.drop_last());
        if group_keys_of(objs).contains(k) {
            if key_of(objs.last()) == k {
                assert(key_of(objs[objs.len() - 1]) == k);
            } else {
                assert(ks.contains(k)) by {
                    let j = choose|j: int| 0 <= j < group_keys_of(objs).len() && group_keys_of(objs)[j] == k;
                    if !ks.contains(key_of(objs.last())) {
                        if j < ks.len() {
                            assert(ks[j] == k);
                        }
                    }
                }
                let i = choose|i: int| 0 <= i < objs.drop_last().len() && key_of(#[trigger] objs.drop_last()[i]) == k;
                assert(objs[i] == objs.drop_last()[i]);
            }
        } else {
            if exists|i: int| 0 <= i < objs.len() && key_of(#[trigger] objs[i]) == k {
                let i = choose|i: int| 0 <= i < objs.len() && key_of(#[trigger] objs[i]) == k;
                if i < objs.len() - 1 {
                    assert(objs.drop_last()[i] == objs[i]);
                    assert(ks.contains(k));
                    assert(group_keys_of(objs).contains(k)) by {
                        let j = choose|j: int| 0 <= j < ks.len() && ks[j] == k;
                        assert(group_keys_of(objs)[j] == k);
                    }
                } else {
                    assert(key_of(objs.last()) == k);
                    if ks.contains(k) {
                        let j = choose|j: int| 0 <= j < ks.len() && ks[j] == k;
                        assert(group_keys_of(objs)[j] == k);
                    } else {
                        assert(group_keys_of(objs).last() == k);
                    }
                }
            }
        }
    }
}

/// Objects none of which carry a key contribute no transforms to it.
pub proof fn lemma_no_key_no_transforms(objs: Seq<MeshObject>, k: GroupKey)
    requires
        forall|i: int| 0 <= i < objs.len() ==> key_of(#[trigger] objs[i]) != k,
    ensures
        group_transforms_of(objs, k) =~= Seq::<Transform>::empty(),
    decreases objs.len(),
{
    if objs.len() > 0 {
        assert forall|i: int| 0 <= i < objs.drop_last().len() implies key_of(
            #[trigger] objs.drop_last()[i],
        ) != k by {
            assert(objs.drop_last()[i] == objs[i]);
        }
        lemma_no_key_no_transforms(objs.drop_last(), k);
        assert(key_of(objs.last()) != k);
    }
}

/// Finds the position of a key among the keys seen so far.
fn find_group_key(keys: &Vec<GroupKey>, k: GroupKey) -> (r: Option<usize>)
    ensures
        match r {
            Some(j) => j < keys@.len() && keys@[j as int] == k,
            None => forall|l: int| 0 <= l < keys@.len() ==> keys@[l] != k,
        },
{
    let mut j: usize = 0;
    while j < keys.len()
        invariant
            j <= keys@.len(),
            forall|l: int| 0 <= l < j ==> keys@[l] != k,
        decreases keys@.len() - j,
    {
        if keys[j] == k {
            return Some(j);
        }
        j = j + 1;
    }
    None
}

/// Groups objects by their (mesh, material) key, keys in first-seen order,
/// each group's transforms in object order.
pub fn group_objects(objs: &Vec<MeshObject>) -> (r: (Vec<GroupKey>, Vec<Vec<Transform>>))
    ensures
        r.0@ == group_keys_of(objs@),
        r.1@.len() == r.0@.len(),
        forall|i: int|
            0 <= i < r.0@.len() ==> (#[trigger] r.1@[i])@ == group_transforms_of(objs@, r.0@[i]),
{
    let mut keys: Vec<GroupKey> = Vec::new();
    let mut groups: Vec<Vec<Transform>> = Vec::new();
    let mut n: usize = 0;
    while n < objs.len()
        invariant
            n <= objs@.len(),
            keys@ == group_keys_of(objs@.take(n as int)),
            groups@.len() == keys@.len(),
            forall|i: int|
                0 <= i < keys@.len() ==> (#[trigger] groups@[i])@ == group_transforms_of(
                    objs@.take(n as int),
                    keys@[i],
                ),
        decreases objs@.len() - n,
    {
        let o = objs[n];
        let k = GroupKey { mesh: o.mesh, material: o.material };
        proof {
            assert(objs@.take(n + 1 as int).drop_last() =~= objs@.take(n as int));
            assert(objs@.take(n + 1 as int).last() == objs@[n as int]);
            assert(key_of(objs@[n as int]) == k);
            lemma_group_keys_distinct(objs@.take(n as int));
        }
        match find_group_key(&keys, k) {
            Some(j) => {
                proof {
                    assert(keys@[j as int] == k);
                    assert(group_keys_of(objs@.take(n as int)).contains(k));
                }
                groups[j].push(o.transform);
                proof {
                    assert(keys@ == group_keys_of(objs@.take(n + 1 as int)));
                    assert forall|i: int| 0 <= i < keys@.len() implies (#[trigger] groups@[i])@
                        == group_transforms_of(objs@.take(n + 1 as int), keys@[i]) by {
                        if i == j as int {
                            assert(groups@[i]@ == group_transforms_of(objs@.take(n as int), k).push(
                                o.transform,
                            ));
                        } else {
                            assert(keys@[i] != k);
                        }
                    }
                }
            }
            None => {
                proof {
                    if group_keys_of(objs@.take(n as int)).contains(k) {
                        let j = choose|j: int|
                            0 <= j < keys@.len() && group_keys_of(objs@.take(n as int))[j] == k;
                        assert(keys@[j] == k);
                    }
                    assert(!group_keys_of(objs@.take(n as int)).contains(k));
                    lemma_group_keys_contains(objs@.take(n as int), k);
                    lemma_no_key_no_transforms(objs@.take(n as int), k);
                }
                keys.push(k);
                let mut ts: Vec<Transform> = Vec::new();
                ts.push(o.transform);
                groups.push(ts);
                proof {
                    assert(keys@ == group_keys_of(objs@.take(n + 1 as int)));
                    assert forall|i: int| 0 <= i < keys@.len() implies (#[trigger] groups@[i])@
                        == group_transforms_of(objs@.take(n + 1 as int), keys@[i]) by {
                        if i == keys@.len() - 1 {
                            assert(groups@[i]@ =~= group_transforms_of(objs@.take(n as int), k).push(
                                o.transform,
                            ));
                        } else {
                            assert(keys@[i] == group_keys_of(objs@.take(n as int))[i]);
                            assert(group_keys_of(objs@.take(n as int)).contains(keys@[i]));
                            assert(keys@[i] != k);
                        }
                    }
                }
            }
        }
        n = n + 1;
    }
    proof {
        assert(objs@.take(objs@.len() as int) =~= objs@);
    }
    (keys, groups)
}

/// A key survives the filter exactly when it was a group key and still
/// resolves.
pub proof fn lemma_surviving_contains(
    ks: Seq<GroupKey>,
    mslots: Seq<(u32, Option<Mesh>)>,
    tslots: Seq<(u32, Option<Material>)>,
    k: GroupKey,
)
    ensures
        surviving_keys_of(ks, mslots, tslots).contains(k) <==> (ks.contains(k) && spec_get(
            mslots,
            k.mesh,
        ) is Some && spec_get(tslots, k.material) is Some),
    decreases ks.len(),
{
    if ks.len() > 0 {
        lemma_surviving_contains(ks.drop_last(), mslots, tslots, k);
        let rest = surviving_keys_of(ks.drop_last(), mslots, tslots);
        let sk = surviving_keys_of(ks, mslots, tslots);
        if sk.contains(k) {
            let j = choose|j: int| 0 <= j < sk.len() && sk[j] == k;
            if j < rest.len() {
                assert(rest[j] == k);
                assert(rest.contains(k));
                let l = choose|l: int| 0 <= l < ks.drop_last().len() && ks.drop_last()[l] == k;
                assert(ks[l] == k);
            } else {
                assert(k == ks.last());
            }
        }
        if ks.contains(k) && spec_get(mslots, k.mesh) is Some && spec_get(tslots, k.material) is Some {
            let l = choose|l: int| 0 <= l < ks.len() && ks[l] == k;
            if l < ks.len() - 1 {
                assert(ks.drop_last()[l] == k);
                assert(ks.drop_last().contains(k));
                let j = choose|j: int| 0 <= j < rest.len() && rest[j] == k;
                assert(sk[j] == k);
            } else {
                assert(ks.last() == k);
                assert(sk.last() == k);
            }
        }
    }
}

/// Distinct keys stay distinct through the filter.
pub proof fn lemma_surviving_distinct(
    ks: Seq<GroupKey>,
    mslots: Seq<(u32, Option<Mesh>)>,
    tslots: Seq<(u32, Option<Material>)>,
)
    requires
        forall|a: int, b: int| 0 <= a < b < ks.len() ==> ks[a] != ks[b],
    ensures
        forall|a: int, b: int|
            0 <= a < b < surviving_keys_of(ks, mslots, tslots).len() ==> surviving_keys_of(
                ks,
                mslots,
                tslots,
            )[a] != surviving_keys_of(ks, mslots, tslots)[b],
    decreases ks.len(),
{
    if ks.len() > 0 {
        assert forall|a: int, b: int| 0 <= a < b < ks.drop_last().len() implies ks.drop_last()[a]
            != ks.drop_last()[b] by {
            assert(ks.drop_last()[a] == ks[a]);
            assert(ks.drop_last()[b] == ks[b]);
        }
        lemma_surviving_distinct(ks.drop_last(), mslots, tslots);
        let rest = surviving_keys_of(ks.drop_last(), mslots, tslots);
        let sk = surviving_keys_of(ks, mslots, tslots);
        if sk.len() > rest.len() {
            assert forall|a: int, b: int| 0 <= a < b < sk.len() implies sk[a] != sk[b] by {
                if b == sk.len() - 1 {
                    assert(rest.contains(rest[a]));
                    lemma_surviving_contains(ks.drop_last(), mslots, tslots, rest[a]);
                    let l = choose|l: int|
                        0 <= l < ks.drop_last().len() && ks.drop_last()[l] == rest[a];
                    assert(ks[l] == rest[a]);
                    assert(ks.last() == sk[b]);
                }
            }
        }
    }
}

/// A mesh handle is referenced exactly when some key carries it.
pub proof fn lemma_referenced_contains(sk: Seq<GroupKey>, h: DenseStorageIndex)
    ensures
        referenced_meshes_of(sk).contains(h) <==> exists|i: int|
            0 <= i < sk.len() && (#[trigger] sk[i]).mesh == h,
    decreases sk.len(),
{
    if sk.len() > 0 {
        lemma_referenced_contains(sk.drop_last(), h);
        let rm0 = referenced_meshes_of(sk.drop_last());
        let rm = referenced_meshes_of(sk);
        if rm.contains(h) {
            if sk.last().mesh == h {
                assert((sk[sk.len() - 1]).mesh == h);
            } else {
                assert(rm0.contains(h)) by {
                    let j = choose|j: int| 0 <= j < rm.len() && rm[j] == h;
                    if !rm0.contains(sk.last().mesh) {
                        if j < rm0.len() {
                            assert(rm0[j] == h);
                        }
                    }
                }
                let i = choose|i: int|
                    0 <= i < sk.drop_last().len() && (#[trigger] sk.drop_last()[i]).mesh == h;
                assert(sk[i] == sk.drop_last()[i]);
            }
        }
        if exists|i: int| 0 <= i < sk.len() && (#[trigger] sk[i]).mesh == h {
            let i = choose|i: int| 0 <= i < sk.len() && (#[trigger] sk[i]).mesh == h;
            if i < sk.len() - 1 {
                assert(sk.drop_last()[i] == sk[i]);
                assert(rm0.contains(h));
                let j = choose|j: int| 0 <= j < rm0.len() && rm0[j] == h;
                assert(rm[j] == h);
            } else {
                if rm0.contains(h) {
                    let j = choose|j: int| 0 <= j < rm0.len() && rm0[j] == h;
                    assert(rm[j] == h);
                } else {
                    assert(rm.last() == h);
                }
            }
        }
    }
}

/// Referenced mesh handles never repeat: each mesh is uploaded once.
pub proof fn lemma_referenced_distinct(sk: Seq<GroupKey>)
    ensures
        forall|a: int, b: int|
            0 <= a < b < referenced_meshes_of(sk).len() ==> referenced_meshes_of(sk)[a]
                != referenced_meshes_of(sk)[b],
    decreases sk.len(),
{
    if sk.len() > 0 {
        lemma_referenced_distinct(sk.drop_last());
        let rm0 = referenced_meshes_of(sk.drop_last());
        let rm = referenced_meshes_of(sk);
        if !rm0.contains(sk.last().mesh) {
            assert forall|a: int, b: int| 0 <= a < b < rm.len() implies rm[a] != rm[b] by {
                if b == rm0.len() {
                    assert(rm0[a] == rm[a]);
                    assert(rm0.contains(rm0[a]));
                }
            }
        }
    }
}

/// Prefixes of the upload list flatten to prefixes of the vertex buffer.
pub proof fn lemma_flat_vertices_take_le(
    mslots: Seq<(u32, Option<Mesh>)>,
    rm: Seq<DenseStorageIndex>,
    n: int,
)
    requires
        0 <= n <= rm.len(),
    ensures
        flat_vertices_of(mslots, rm.take(n)).len() <= flat_vertices_of(mslots, rm).len(),
    decreases rm.len(),
{
    if n == rm.len() {
        assert(rm.take(n) =~= rm);
    } else {
        assert(rm.take(n) =~= rm.drop_last().take(n));
        lemma_flat_vertices_take_le(mslots, rm.drop_last(), n);
    }
}

/// Prefixes of the upload list flatten to prefixes of the index buffer.
pub proof fn lemma_flat_indices_take_le(
    mslots: Seq<(u32, Option<Mesh>)>,
    rm: Seq<DenseStorageIndex>,
    n: int,
)
    requires
        0 <= n <= rm.len(),
    ensures
        flat_indices_of(mslots, rm.take(n)).len() <= flat_indices_of(mslots, rm).len(),
    decreases rm.len(),
{
    if n == rm.len() {
        assert(rm.take(n) =~= rm);
    } else {
        assert(rm.take(n) =~= rm.drop_last().take(n));
        lemma_flat_indices_take_le(mslots, rm.drop_last(), n);
    }
}

/// Each uploaded mesh's vertex records stand exactly at its recorded offset
/// in the flattened vertex buffer: the buffer between one prefix length and
/// the next is that mesh's data.
pub proof fn lemma_mesh_vertex_placement(
    mslots: Seq<(u32, Option<Mesh>)>,
    rm: Seq<DenseStorageIndex>,
    j: int,
)
    requires
        0 <= j < rm.len(),
    ensures
        flat_vertices_of(mslots, rm).subrange(
            flat_vertices_of(mslots, rm.take(j)).len() as int,
            flat_vertices_of(mslots, rm.take(j + 1)).len() as int,
        ) == gpu_vertices_of(spec_get(mslots, rm[j])->0),
    decreases rm.len(),
{
    assert(rm.take(j + 1).drop_last() =~= rm.take(j));
    assert(rm.take(j + 1).last() == rm[j]);
    if j == rm.len() - 1 {
        assert(rm.take(j) =~= rm.drop_last());
        assert(rm.take(j + 1) =~= rm);
        assert(flat_vertices_of(mslots, rm).subrange(
            flat_vertices_of(mslots, rm.drop_last()).len() as int,
            flat_vertices_of(mslots, rm).len() as int,
        ) =~= gpu_vertices_of(spec_get(mslots, rm[j])->0));
    } else {
        assert(rm.take(j) =~= rm.drop_last().take(j));
        assert(rm.take(j + 1) =~= rm.drop_last().take(j + 1));
        lemma_mesh_vertex_placement(mslots, rm.drop_last(), j);
        lemma_flat_vertices_take_le(mslots, rm.drop_last(), j + 1);
        assert(flat_vertices_of(mslots, rm).subrange(
            flat_vertices_of(mslots, rm.take(j)).len() as int,
            flat_vertices_of(mslots, rm.take(j + 1)).len() as int,
        ) =~= flat_vertices_of(mslots, rm.drop_last()).subrange(
            flat_vertices_of(mslots, rm.drop_last().take(j)).len() as int,
            flat_vertices_of(mslots, rm.drop_last().take(j + 1)).len() as int,
        ));
    }
}

/// Each uploaded mesh's indices stand exactly at its recorded offset in the
/// flattened index buffer.
pub proof fn lemma_mesh_index_placement(
    mslots: Seq<(u32, Option<Mesh>)>,
    rm: Seq<DenseStorageIndex>,
    j: int,
)
    requires
        0 <= j < rm.len(),
    ensures
        flat_indices_of(mslots, rm).subrange(
            flat_indices_of(mslots, rm.take(j)).len() as int,
            flat_indices_of(mslots, rm.take(j + 1)).len() as int,
        ) == spec_get(mslots, rm[j])->0.indices@,
    decreases rm.len(),
{
    assert(rm.take(j + 1).drop_last() =~= rm.take(j));
    assert(rm.take(j + 1).last() == rm[j]);
    if j == rm.len() - 1 {
        assert(rm.take(j) =~= rm.drop_last());
        assert(rm.take(j + 1) =~= rm);
        assert(flat_indices_of(mslots, rm).subrange(
            flat_indices_of(mslots, rm.drop_last()).len() as int,
            flat_indices_of(mslots, rm).len() as int,
        ) =~= spec_get(mslots, rm[j])->0.indices@);
    } else {
        assert(rm.take(j) =~= rm.drop_last().take(j));
        assert(rm.take(j + 1) =~= rm.drop_last().take(j + 1));
        lemma_mesh_index_placement(mslots, rm.drop_last(), j);
        lemma_flat_indices_take_le(mslots, rm.drop_last(), j + 1);
        assert(flat_indices_of(mslots, rm).subrange(
            flat_indices_of(mslots, rm.take(j)).len() as int,
            flat_indices_of(mslots, rm.take(j + 1)).len() as int,
        ) =~= flat_indices_of(mslots, rm.drop_last()).subrange(
            flat_indices_of(mslots, rm.drop_last().take(j)).len() as int,
            flat_indices_of(mslots, rm.drop_last().take(j + 1)).len() as int,
        ));
    }
}

/// Finds the position of a mesh handle among those seen so far.
fn find_handle(hs: &Vec<DenseStorageIndex>, h: DenseStorageIndex) -> (r: Option<usize>)
    ensures
        match r {
            Some(j) => j < hs@.len() && hs@[j as int] == h && forall|l: int| 0 <= l < j ==> hs@[l] != h,
            None => forall|l: int| 0 <= l < hs@.len() ==> hs@[l] != h,
        },
{
    let mut j: usize = 0;
    while j < hs.len()
        invariant
            j <= hs@.len(),
            forall|l: int| 0 <= l < j ==> hs@[l] != h,
        decreases hs@.len() - j,
    {
        if hs[j] == h {
            return Some(j);
        }
        j = j + 1;
    }
    None
}

/// Appends a mesh's vertex records to the flattened vertex buffer.
fn append_gpu_vertices(out: &mut Vec<GpuVertex>, m: &Mesh)
    ensures
        final(out)@ == old(out)@ + gpu_vertices_of(*m),
{
    let mut k: usize = 0;
    while k < m.vertices.len()
        invariant
            k <= m.vertices@.len(),
            out@ == old(out)@ + gpu_vertices_of(*m).take(k as int),
        decreases m.vertices@.len() - k,
    {
        let v = m.vertices[k];
        out.push(GpuVertex { pos: v.pos, normal: v.normal });
        proof {
            assert(gpu_vertices_of(*m).take(k + 1 as int) =~= gpu_vertices_of(*m).take(k as int).push(
                gpu_vertex_of(m.vertices@[k as int]),
            ));
            assert(out@ =~= old(out)@ + gpu_vertices_of(*m).take(k + 1 as int));
        }
        k = k + 1;
    }
    proof {
        assert(gpu_vertices_of(*m).take(m.vertices@.len() as int) =~= gpu_vertices_of(*m));
    }
}

/// Appends a mesh's indices to the flattened index buffer.
fn append_indices(out: &mut Vec<u32>, m: &Mesh)
    ensures
        final(out)@ == old(out)@ + m.indices@,
{
    let mut k: usize = 0;
    while k < m.indices.len()
        invariant
            k <= m.indices@.len(),
            out@ == old(out)@ + m.indices@.take(k as int),
        decreases m.indices@.len() - k,
    {
        out.push(m.indices[k]);
        proof {
            assert(out@ =~= old(out)@ + m.indices@.take(k + 1 as int));
        }
        k = k + 1;
    }
    proof {
        assert(m.indices@.take(m.indices@.len() as int) =~= m.indices@);
    }
}

/// The per-mesh upload table the compiler builds: which meshes were
/// uploaded, where each one's data starts, how large each one is, and the
/// flattened buffers themselves.
struct MeshTable {
    handles: Vec<DenseStorageIndex>,
    vertex_offsets: Vec<u32>,
    index_offsets: Vec<u32>,
    vertex_counts: Vec<u32>,
    index_counts: Vec<u32>,
    vertices: Vec<GpuVertex>,
    indices: Vec<u32>,
}

impl MeshTable {
    /// The table describes the meshes the surviving keys reference.
    spec fn wf_for(&self, mslots: Seq<(u32, Option<Mesh>)>, sk: Seq<GroupKey>) -> bool {
        let rm = referenced_meshes_of(sk);
        &&& self.handles@ == rm
        &&& self.vertex_offsets@.len() == rm.len()
        &&& self.index_offsets@.len() == rm.len()
        &&& self.vertex_counts@.len() == rm.len()
        &&& self.index_counts@.len() == rm.len()
        &&& forall|j: int|
            0 <= j < rm.len() ==> (#[trigger] self.vertex_offsets@[j]) as int == flat_vertices_of(
                mslots,
                rm.take(j),
            ).len()
        &&& forall|j: int|
            0 <= j < rm.len() ==> (#[trigger] self.index_offsets@[j]) as int == flat_indices_of(
                mslots,
                rm.take(j),
            ).len()
        &&& forall|j: int|
            0 <= j < rm.len() ==> (#[trigger] self.vertex_counts@[j]) as int == gpu_vertices_of(
                spec_get(mslots, rm[j])->0,
            ).len()
        &&& forall|j: int|
            0 <= j < rm.len() ==> (#[trigger] self.index_counts@[j]) as int == spec_get(
                mslots,
                rm[j],
            )->0.indices@.len()
        &&& self.vertices@ == flat_vertices_of(mslots, rm)
        &&& self.indices@ == flat_indices_of(mslots, rm)
    }
}

impl Scene {
    /// Drops the groups whose mesh or material handle no longer resolves,
    /// keeping the rest in order with their transforms.
    fn surviving_groups(
        &self,
        keys: &Vec<GroupKey>,
        groups: Vec<Vec<Transform>>,
        objs: Ghost<Seq<MeshObject>>,
    ) -> (r: (Vec<GroupKey>, Vec<Vec<Transform>>))
        requires
            groups@.len() == keys@.len(),
            forall|i: int|
                0 <= i < keys@.len() ==> (#[trigger] groups@[i])@ == group_transforms_of(
                    objs@,
                    keys@[i],
                ),
        ensures
            r.0@ == surviving_keys_of(keys@, self.meshes.storage@, self.materials.storage@),
            r.1@.len() == r.0@.len(),
            forall|i: int|
                0 <= i < r.0@.len() ==> (#[trigger] r.1@[i])@ == group_transforms_of(
                    objs@,
                    r.0@[i],
                ),
            forall|i: int| 0 <= i < r.0@.len() ==> self.key_resolves(#[trigger] r.0@[i]),
    {
        let mut groups = groups;
        let mut out_keys: Vec<GroupKey> = Vec::new();
        let mut out_groups: Vec<Vec<Transform>> = Vec::new();
        let mut i: usize = 0;
        while i < keys.len()
            invariant
                i <= keys@.len(),
                groups@.len() == keys@.len(),
                forall|l: int|
                    i <= l < keys@.len() ==> (#[trigger] groups@[l])@ == group_transforms_of(
                        objs@,
                        keys@[l],
                    ),
                out_keys@ == surviving_keys_of(
                    keys@.take(i as int),
                    self.meshes.storage@,
                    self.materials.storage@,
                ),
                out_groups@.len() == out_keys@.len(),
                forall|l: int|
                    0 <= l < out_keys@.len() ==> (#[trigger] out_groups@[l])@ == group_transforms_of(
                        objs@,
                        out_keys@[l],
                    ),
                forall|l: int| 0 <= l < out_keys@.len() ==> self.key_resolves(#[trigger] out_keys@[l]),
            decreases keys@.len() - i,
        {
            let k = keys[i];
            proof {
                assert(keys@.take(i + 1 as int).drop_last() =~= keys@.take(i as int));
                assert(keys@.take(i + 1 as int).last() == keys@[i as int]);
            }
            let mesh_ok = self.meshes.get(k.mesh).is_some();
            let material_ok = self.materials.get(k.material).is_some();
            if mesh_ok && material_ok {
                let mut taken: Vec<Transform> = Vec::new();
                core::mem::swap(&mut taken, &mut groups[i]);
                out_keys.push(k);
                out_groups.push(taken);
            }
            i = i + 1;
        }
        proof {
            assert(keys@.take(keys@.len() as int) =~= keys@);
        }
        (out_keys, out_groups)
    }

    /// Uploads each referenced mesh once: flattens vertices and indices into
    /// shared buffers and records each mesh's offsets and sizes. Fails only
    /// when a flattened buffer would outgrow the 32-bit offsets the instance
    /// records hold.
    fn flatten_meshes(&self, sk: &Vec<GroupKey>) -> (r: Option<MeshTable>)
        requires
            forall|i: int|
                0 <= i < sk@.len() ==> spec_get(self.meshes.storage@, (#[trigger] sk@[i]).mesh) is Some,
        ensures
            r is Some <==> (flat_vertices_of(self.meshes.storage@, referenced_meshes_of(sk@)).len()
                <= u32::MAX && flat_indices_of(self.meshes.storage@, referenced_meshes_of(sk@)).len()
                <= u32::MAX),
            r is Some ==> r->0.wf_for(self.meshes.storage@, sk@),
    {
        let ghost mslots = self.meshes.storage@;
        // collect the distinct mesh handles of the surviving keys, first seen first
        let mut handles: Vec<DenseStorageIndex> = Vec::new();
        let mut i: usize = 0;
        while i < sk.len()
            invariant
                i <= sk@.len(),
                handles@ == referenced_meshes_of(sk@.take(i as int)),
            decreases sk@.len() - i,
        {
            let h = sk[i].mesh;
            proof {
                assert(sk@.take(i + 1 as int).drop_last() =~= sk@.take(i as int));
                assert(sk@.take(i + 1 as int).last() == sk@[i as int]);
            }
            match find_handle(&handles, h) {
                Some(j) => {
                    proof {
                        assert(handles@[j as int] == h);
                        assert(referenced_meshes_of(sk@.take(i as int)).contains(h));
                    }
                }
                None => {
                    proof {
                        if referenced_meshes_of(sk@.take(i as int)).contains(h) {
                            let j = choose|j: int|
                                0 <= j < handles@.len() && referenced_meshes_of(
                                    sk@.take(i as int),
                                )[j] == h;
                            assert(handles@[j] == h);
                        }
                    }
                    handles.push(h);
                }
            }
            i = i + 1;
        }
        proof {
            assert(sk@.take(sk@.len() as int) =~= sk@);
        }
        let ghost rm = referenced_meshes_of(sk@);
        // flatten each mesh once, recording offsets and sizes
        let mut vertex_offsets: Vec<u32> = Vec::new();
        let mut index_offsets: Vec<u32> = Vec::new();
        let mut vertex_counts: Vec<u32> = Vec::new();
        let mut index_counts: Vec<u32> = Vec::new();
        let mut vertices: Vec<GpuVertex> = Vec::new();
        let mut indices: Vec<u32> = Vec::new();
        let mut j: usize = 0;
        while j < handles.len()
            invariant
                j <= rm.len(),
                handles@ == rm,
                rm == referenced_meshes_of(sk@),
                mslots == self.meshes.storage@,
                forall|i: int|
                    0 <= i < sk@.len() ==> spec_get(mslots, (#[trigger] sk@[i]).mesh) is Some,
                vertices@ == flat_vertices_of(mslots, rm.take(j as int)),
                indices@ == flat_indices_of(mslots, rm.take(j as int)),
                vertices@.len() <= u32::MAX,
                indices@.len() <= u32::MAX,
                vertex_offsets@.len() == j,
                index_offsets@.len() == j,
                vertex_counts@.len() == j,
                index_counts@.len() == j,
                forall|l: int|
                    0 <= l < j ==> (#[trigger] vertex_offsets@[l]) as int == flat_vertices_of(
                        mslots,
                        rm.take(l),
                    ).len(),
                forall|l: int|
                    0 <= l < j ==> (#[trigger] index_offsets@[l]) as int == flat_indices_of(
                        mslots,
                        rm.take(l),
                    ).len(),
                forall|l: int|
                    0 <= l < j ==> (#[trigger] vertex_counts@[l]) as int == gpu_vertices_of(
                        spec_get(mslots, rm[l])->0,
                    ).len(),
                forall|l: int|
                    0 <= l < j ==> (#[trigger] index_counts@[l]) as int == spec_get(
                        mslots,
                        rm[l],
                    )->0.indices@.len(),
            decreases rm.len() - j,
        {
            let h = handles[j];
            proof {
                assert(rm.contains(h)) by {
                    assert(rm[j as int] == h);
                }
                lemma_referenced_contains(sk@, h);
            }
            let m = match self.meshes.get(h) {
                Some(m) => m,
                None => {
                    proof {
                        assert(false);
                    }
                    return None;
                }
            };
            proof {
                assert(rm.take(j + 1 as int).drop_last() =~= rm.take(j as int));
                assert(rm.take(j + 1 as int).last() == rm[j as int]);
            }
            // the flattened buffers must stay addressable by 32-bit offsets
            if m.vertices.len() > (u32::MAX as usize) - vertices.len() {
                proof {
                    assert(flat_vertices_of(mslots, rm.take(j + 1 as int)).len() > u32::MAX);
                    lemma_flat_vertices_take_le(mslots, rm, j + 1 as int);
                }
                return None;
            }
            if m.indices.len() > (u32::MAX as usize) - indices.len() {
                proof {
                    assert(flat_indices_of(mslots, rm.take(j + 1 as int)).len() > u32::MAX);
                    lemma_flat_indices_take_le(mslots, rm, j + 1 as int);
                }
                return None;
            }
            vertex_offsets.push(vertices.len() as u32);
            index_offsets.push(indices.len() as u32);
            vertex_counts.push(m.vertices.len() as u32);
            index_counts.push(m.indices.len() as u32);
            append_gpu_vertices(&mut vertices, m);
            append_indices(&mut indices, m);
            j = j + 1;
        }
        proof {
            assert(rm.take(rm.len() as int) =~= rm);
        }
        Some(
            MeshTable {
                handles,
                vertex_offsets,
                index_offsets,
                vertex_counts,
                index_counts,
                vertices,
                indices,
            },
        )
    }
}

impl Scene {
    /// Emits one instance record, one material record and one substructure
    /// size declaration per surviving group, in group order. The group's
    /// position is its material index. Fails only when the group count would
    /// outgrow the 32-bit material index.
    fn build_instances(&self, sk: &Vec<GroupKey>, table: &MeshTable) -> (r: Option<
        (Vec<GpuInstance>, Vec<GpuMaterial>, Vec<BlasSizeDescriptor>),
    >)
        requires
            forall|i: int| 0 <= i < sk@.len() ==> self.key_resolves(#[trigger] sk@[i]),
            table.wf_for(self.meshes.storage@, sk@),
        ensures
            r is Some <==> sk@.len() <= u32::MAX,
            r is Some ==> {
                let (instances, materials, blas_sizes) = r->0;
                &&& instances@.len() == sk@.len()
                &&& materials@.len() == sk@.len()
                &&& blas_sizes@.len() == sk@.len()
                &&& forall|i: int|
                    0 <= i < sk@.len() ==> (#[trigger] materials@[i]) == gpu_material_of(
                        spec_get(self.materials.storage@, sk@[i].material)->0,
                    )
                &&& forall|i: int|
                    0 <= i < sk@.len() ==> (#[trigger] table.handles@.index_of_first(
                        sk@[i].mesh,
                    )) is Some
                &&& forall|i: int|
                    0 <= i < sk@.len() ==> {
                        let j = table.handles@.index_of_first(sk@[i].mesh);
                        &&& j is Some
                        &&& (#[trigger] instances@[i]) == (GpuInstance {
                            first_vertex: table.vertex_offsets@[j->0],
                            first_index: table.index_offsets@[j->0],
                            material_index: i as u32,
                            _p0: 0,
                        })
                        &&& blas_sizes@[i] == (BlasSizeDescriptor {
                            vertex_count: table.vertex_counts@[j->0],
                            index_count: table.index_counts@[j->0],
                        })
                    }
            },
    {
        if sk.len() > u32::MAX as usize {
            return None;
        }
        let mut instances: Vec<GpuInstance> = Vec::new();
        let mut materials: Vec<GpuMaterial> = Vec::new();
        let mut blas_sizes: Vec<BlasSizeDescriptor> = Vec::new();
        let mut i: usize = 0;
        while i < sk.len()
            invariant
                i <= sk@.len(),
                sk@.len() <= u32::MAX,
                forall|l: int| 0 <= l < sk@.len() ==> self.key_resolves(#[trigger] sk@[l]),
                table.wf_for(self.meshes.storage@, sk@),
                instances@.len() == i,
                materials@.len() == i,
                blas_sizes@.len() == i,
                forall|l: int|
                    0 <= l < i ==> (#[trigger] materials@[l]) == gpu_material_of(
                        spec_get(self.materials.storage@, sk@[l].material)->0,
                    ),
                forall|l: int|
                    0 <= l < i ==> (#[trigger] table.handles@.index_of_first(
                        sk@[l].mesh,
                    )) is Some,
                forall|l: int|
                    0 <= l < i ==> {
                        let j = table.handles@.index_of_first(sk@[l].mesh);
                        &&& j is Some
                        &&& (#[trigger] instances@[l]) == (GpuInstance {
                            first_vertex: table.vertex_offsets@[j->0],
                            first_index: table.index_offsets@[j->0],
                            material_index: l as u32,
                            _p0: 0,
                        })
                        &&& blas_sizes@[l] == (BlasSizeDescriptor {
                            vertex_count: table.vertex_counts@[j->0],
                            index_count: table.index_counts@[j->0],
                        })
                    },
            decreases sk@.len() - i,
        {
            let k = sk[i];
            let material = match self.materials.get(k.material) {
                Some(m) => *m,
                None => {
                    proof {
                        assert(self.key_resolves(sk@[i as int]));
                        assert(false);
                    }
                    return None;
                }
            };
            let j = match find_handle(&table.handles, k.mesh) {
                Some(j) => j,
                None => {
                    proof {
                        assert(referenced_meshes_of(sk@).contains(k.mesh)) by {
                            lemma_referenced_contains(sk@, k.mesh);
                            assert((sk@[i as int]).mesh == k.mesh);
                        }
                        let w = choose|w: int|
                            0 <= w < referenced_meshes_of(sk@).len() && referenced_meshes_of(
                                sk@,
                            )[w] == k.mesh;
                        assert(table.handles@[w] == k.mesh);
                        assert(false);
                    }
                    return None;
                }
            };
            proof {
                table.handles@.index_of_first_ensures(k.mesh);
                assert(table.handles@.contains(k.mesh)) by {
                    assert(table.handles@[j as int] == k.mesh);
                }
                let i0 = table.handles@.index_of_first(k.mesh)->0;
                if i0 < j as int {
                    assert(table.handles@[i0] != k.mesh);
                }
                assert(table.handles@.index_of_first(k.mesh) == Some(j as int));
            }
            let ghost prev_instances = instances@;
            let ghost prev_blas = blas_sizes@;
            instances.push(
                GpuInstance {
                    first_vertex: table.vertex_offsets[j],
                    first_index: table.index_offsets[j],
                    material_index: i as u32,
                    _p0: 0,
                },
            );
            materials.push(
                GpuMaterial {
                    albedo: material.albedo,
                    emissive: material.emissive,
                    emissive_strength: material.emissive_strength,
                },
            );
            blas_sizes.push(
                BlasSizeDescriptor {
                    vertex_count: table.vertex_counts[j],
                    index_count: table.index_counts[j],
                },
            );
            proof {
                assert forall|l: int| 0 <= l < i + 1 implies (#[trigger] table.handles@.index_of_first(
                    sk@[l].mesh,
                )) is Some by {
                    if l == i as int {
                        assert(table.handles@.index_of_first(sk@[l].mesh) == Some(j as int));
                    }
                }
                assert forall|l: int| 0 <= l < i + 1 implies {
                    let jl = table.handles@.index_of_first(sk@[l].mesh);
                    &&& jl is Some
                    &&& (#[trigger] instances@[l]) == (GpuInstance {
                        first_vertex: table.vertex_offsets@[jl->0],
                        first_index: table.index_offsets@[jl->0],
                        material_index: l as u32,
                        _p0: 0,
                    })
                    &&& blas_sizes@[l] == (BlasSizeDescriptor {
                        vertex_count: table.vertex_counts@[jl->0],
                        index_count: table.index_counts@[jl->0],
                    })
                } by {
                    if l == i as int {
                        assert(table.handles@.index_of_first(sk@[l].mesh) == Some(j as int));
                        assert(instances@[l] == (GpuInstance {
                            first_vertex: table.vertex_offsets@[j as int],
                            first_index: table.index_offsets@[j as int],
                            material_index: i as u32,
                            _p0: 0,
                        }));
                    } else {
                        assert(instances@[l] == prev_instances[l]);
                        assert(blas_sizes@[l] == prev_blas[l]);
                    }
                }
            }
            i = i + 1;
        }
        Some((instances, materials, blas_sizes))
    }
}

impl Scene {
    /// Whether the scene's compiled form fits the 32-bit offsets and indices
    /// of the GPU records; exceeding them is a fatal misconfiguration, not a
    /// recoverable error.
    pub open spec fn compile_fits(&self) -> bool {
        &&& flat_vertices_of(self.meshes.storage@, self.referenced_meshes()).len() <= u32::MAX
        &&& flat_indices_of(self.meshes.storage@, self.referenced_meshes()).len() <= u32::MAX
        &&& self.surviving_keys().len() <= u32::MAX
    }

    /// What a compiled snapshot holds, apart from the camera uniform: the
    /// flattened buffers of the referenced meshes, the per-mesh offsets, and
    /// one material record, instance record, size declaration and transform
    /// list per surviving group, in group order.
    pub open spec fn snapshot_matches(&self, g: GpuScene) -> bool {
        let mslots = self.meshes.storage@;
        let tslots = self.materials.storage@;
        let sk = self.surviving_keys();
        let rm = self.referenced_meshes();
        &&& g.vertices@ == flat_vertices_of(mslots, rm)
        &&& g.indices@ == flat_indices_of(mslots, rm)
        &&& g.mesh_handles@ == rm
        &&& g.mesh_vertex_offsets@.len() == rm.len()
        &&& g.mesh_index_offsets@.len() == rm.len()
        &&& forall|j: int|
            0 <= j < rm.len() ==> (#[trigger] g.mesh_vertex_offsets@[j]) as int == flat_vertices_of(
                mslots,
                rm.take(j),
            ).len()
        &&& forall|j: int|
            0 <= j < rm.len() ==> (#[trigger] g.mesh_index_offsets@[j]) as int == flat_indices_of(
                mslots,
                rm.take(j),
            ).len()
        &&& g.instances@.len() == sk.len()
        &&& g.materials@.len() == sk.len()
        &&& g.blas_sizes@.len() == sk.len()
        &&& g.instance_transforms@.len() == sk.len()
        &&& forall|i: int|
            0 <= i < sk.len() ==> (#[trigger] g.materials@[i]) == gpu_material_of(
                spec_get(tslots, sk[i].material)->0,
            )
        &&& forall|i: int|
            0 <= i < sk.len() ==> (#[trigger] g.instance_transforms@[i])@ == group_transforms_of(
                self.live(),
                sk[i],
            )
        &&& forall|i: int|
            0 <= i < sk.len() ==> (#[trigger] rm.index_of_first(sk[i].mesh)) is Some
        &&& forall|i: int|
            0 <= i < sk.len() ==> {
                let j = rm.index_of_first(sk[i].mesh)->0;
                &&& (#[trigger] g.instances@[i]) == (GpuInstance {
                    first_vertex: g.mesh_vertex_offsets@[j],
                    first_index: g.mesh_index_offsets@[j],
                    material_index: i as u32,
                    _p0: 0,
                })
                &&& g.blas_sizes@[i].vertex_count as int == gpu_vertices_of(
                    spec_get(mslots, rm[j])->0,
                ).len()
                &&& g.blas_sizes@[i].index_count as int == spec_get(mslots, rm[j])->0.indices@.len()
            }
    }

    /// Compiles the scene into a GPU-ready snapshot for a viewport aspect
    /// ratio. Groups whose handles no longer resolve are dropped silently.
    /// Fails only when the compiled form outgrows its 32-bit offsets.
    pub fn compile(&self, aspect: u32) -> (r: Option<GpuScene>)
        requires
            self.wf(),
        ensures
            r is Some <==> self.compile_fits(),
            r is Some ==> self.snapshot_matches(r->0),
            r is Some ==> r->0.uniform_bytes@ == camera_uniform_bytes_of(self.camera, aspect)
                && r->0.uniform_bytes@.len() == 128,
    {
        let objs = self.live_mesh_objects();
        let (keys, groups) = group_objects(&objs);
        let (sk, instance_transforms) = self.surviving_groups(&keys, groups, Ghost(objs@));
        let table = match self.flatten_meshes(&sk) {
            Some(t) => t,
            None => {
                return None;
            }
        };
        let built = match self.build_instances(&sk, &table) {
            Some(b) => b,
            None => {
                return None;
            }
        };
        let (instances, materials, blas_sizes) = built;
        let uniform_bytes = crate::mat::camera_uniform_bytes(&self.camera, aspect);
        let g = GpuScene {
            uniform_bytes,
            vertices: table.vertices,
            indices: table.indices,
            mesh_handles: table.handles,
            mesh_vertex_offsets: table.vertex_offsets,
            mesh_index_offsets: table.index_offsets,
            materials,
            instances,
            instance_transforms,
            blas_sizes,
        };
        proof {
            let rm = self.referenced_meshes();
            let skv = self.surviving_keys();
            assert forall|i: int| 0 <= i < skv.len() implies (#[trigger] rm.index_of_first(
                skv[i].mesh,
            )) is Some by {
                assert(g.mesh_handles@.index_of_first(sk@[i].mesh) is Some);
            }
            assert forall|i: int| 0 <= i < skv.len() implies {
                let j = rm.index_of_first(skv[i].mesh)->0;
                &&& (#[trigger] g.blas_sizes@[i]).vertex_count as int == gpu_vertices_of(
                    spec_get(self.meshes.storage@, rm[j])->0,
                ).len()
                &&& g.blas_sizes@[i].index_count as int == spec_get(
                    self.meshes.storage@,
                    rm[j],
                )->0.indices@.len()
            } by {
                rm.index_of_first_ensures(skv[i].mesh);
                let j = rm.index_of_first(skv[i].mesh)->0;
                assert(0 <= j < rm.len());
                let inst = g.instances@[i];
                assert(rm == table.handles@);
                assert(g.blas_sizes@[i].vertex_count == table.vertex_counts@[j]);
            }
        }
        Some(g)
    }

    /// Returns the compiled snapshot, compiling it first if none is cached;
    /// a cached snapshot is returned unconditionally, even if the scene has
    /// since been edited.
    pub fn get_or_compile(&mut self, aspect: u32) -> (r: Option<&GpuScene>)
        requires
            old(self).wf(),
        ensures
            final(self).meshes == old(self).meshes,
            final(self).materials == old(self).materials,
            final(self).mesh_objects == old(self).mesh_objects,
            final(self).camera == old(self).camera,
            final(self).wf(),
            old(self).gpu_scene is Some ==> final(self).gpu_scene == old(self).gpu_scene && r is Some,
            old(self).gpu_scene is None ==> {
                &&& (r is Some <==> old(self).compile_fits())
                &&& (r is Some ==> final(self).gpu_scene is Some && old(self).snapshot_matches(
                    final(self).gpu_scene->0,
                ) && final(self).gpu_scene->0.uniform_bytes@ == camera_uniform_bytes_of(
                    old(self).camera,
                    aspect,
                ))
                &&& (r is None ==> final(self).gpu_scene is None)
            },
            r is Some ==> final(self).gpu_scene is Some && *r->0 == final(self).gpu_scene->0,
    {
        if self.gpu_scene.is_none() {
            match self.compile(aspect) {
                Some(g) => {
                    self.gpu_scene = Some(g);
                }
                None => {
                    return None;
                }
            }
        }
        self.gpu_scene.as_ref()
    }

    /// Recomputes the camera uniform for a new viewport aspect ratio and
    /// writes it into the cached snapshot; a no-op while nothing is compiled.
    /// Geometry, materials and instances are untouched.
    pub fn update_camera_size(&mut self, aspect: u32)
        requires
            old(self).wf(),
        ensures
            final(self).meshes == old(self).meshes,
            final(self).materials == old(self).materials,
            final(self).mesh_objects == old(self).mesh_objects,
            final(self).camera == old(self).camera,
            final(self).wf(),
            old(self).gpu_scene is None ==> final(self).gpu_scene is None,
            old(self).gpu_scene is Some ==> {
                let g0 = old(self).gpu_scene->0;
                let g1 = final(self).gpu_scene->0;
                &&& final(self).gpu_scene is Some
                &&& g1.uniform_bytes@ == camera_uniform_bytes_of(old(self).camera, aspect)
                &&& g1.uniform_bytes@.len() == 128
                &&& g1.vertices == g0.vertices
                &&& g1.indices == g0.indices
                &&& g1.mesh_handles == g0.mesh_handles
                &&& g1.mesh_vertex_offsets == g0.mesh_vertex_offsets
                &&& g1.mesh_index_offsets == g0.mesh_index_offsets
                &&& g1.materials == g0.materials
                &&& g1.instances == g0.instances
                &&& g1.instance_transforms == g0.instance_transforms
                &&& g1.blas_sizes == g0.blas_sizes
            },
            camera_update_applied(*old(self), *final(self), aspect),
    {
        if self.gpu_scene.is_some() {
            let bytes = crate::mat::camera_uniform_bytes(&self.camera, aspect);
            match &mut self.gpu_scene {
                Some(g) => {
                    g.uniform_bytes = bytes;
                }
                None => {}
            }
        }
    }
}

/// What one camera update does: it keeps the camera and rewrites the cached
/// snapshot's uniform payload to the payload of that camera and aspect ratio.
pub open spec fn camera_update_applied(pre: Scene, post: Scene, aspect: u32) -> bool {
    &&& post.camera == pre.camera
    &&& (pre.gpu_scene is Some ==> post.gpu_scene is Some && post.gpu_scene->0.uniform_bytes@
        == camera_uniform_bytes_of(pre.camera, aspect))
}

/// Camera update idempotence: two camera updates with the same aspect ratio
/// leave byte-identical uniform payloads.
pub proof fn lemma_camera_update_idempotent(s0: Scene, s1: Scene, s2: Scene, aspect: u32)
    requires
        s0.gpu_scene is Some,
        camera_update_applied(s0, s1, aspect),
        camera_update_applied(s1, s2, aspect),
    ensures
        s1.gpu_scene->0.uniform_bytes@ == s2.gpu_scene->0.uniform_bytes@,
{
}

/// Compilation conservation: the flattened vertex buffer holds exactly the
/// sum of the vertex counts of the referenced meshes; meshes no surviving
/// group references contribute nothing.
pub proof fn lemma_compilation_conservation(s: Scene, g: GpuScene)
    requires
        s.snapshot_matches(g),
    ensures
        g.vertices@.len() == total_vertex_count(s.meshes.storage@, s.referenced_meshes()),
{
    lemma_flat_vertices_len(s.meshes.storage@, s.referenced_meshes());
}

/// A mesh is referenced exactly when some live scene object points at it
/// through a key whose mesh and material both still resolve.
pub proof fn lemma_referenced_iff_live(s: Scene, h: DenseStorageIndex)
    ensures
        s.referenced_meshes().contains(h) <==> exists|i: int|
            0 <= i < s.live().len() && (#[trigger] s.live()[i]).mesh == h && s.key_resolves(
                key_of(s.live()[i]),
            ),
{
    let live = s.live();
    let ks = s.group_keys();
    let sk = s.surviving_keys();
    lemma_referenced_contains(sk, h);
    if s.referenced_meshes().contains(h) {
        let w = choose|w: int| 0 <= w < sk.len() && (#[trigger] sk[w]).mesh == h;
        let k = sk[w];
        assert(sk.contains(k)) by {
            assert(sk[w] == k);
        }
        lemma_surviving_contains(ks, s.meshes.storage@, s.materials.storage@, k);
        lemma_group_keys_contains(live, k);
        let i = choose|i: int| 0 <= i < live.len() && key_of(#[trigger] live[i]) == k;
        assert(live[i].mesh == h && s.key_resolves(key_of(live[i])));
    }
    if exists|i: int|
        0 <= i < live.len() && (#[trigger] live[i]).mesh == h && s.key_resolves(key_of(live[i])) {
        let i = choose|i: int|
            0 <= i < live.len() && (#[trigger] live[i]).mesh == h && s.key_resolves(
                key_of(live[i]),
            );
        let k = key_of(live[i]);
        lemma_group_keys_contains(live, k);
        assert(ks.contains(k)) by {
            assert(key_of(live[i]) == k);
        }
        lemma_surviving_contains(ks, s.meshes.storage@, s.materials.storage@, k);
        let w = choose|w: int| 0 <= w < sk.len() && sk[w] == k;
        assert((sk[w]).mesh == h);
    }
}

/// Dangling drop: a live object whose mesh or material no longer resolves
/// contributes no surviving group, so the compiler emits no instance record,
/// material record or size declaration for it.
pub proof fn lemma_dangling_drop(s: Scene, i: int)
    requires
        0 <= i < s.live().len(),
        !s.key_resolves(key_of(s.live()[i])),
    ensures
        !s.surviving_keys().contains(key_of(s.live()[i])),
        forall|l: int|
            0 <= l < s.surviving_keys().len() ==> s.surviving_keys()[l] != key_of(s.live()[i]),
{
    let k = key_of(s.live()[i]);
    lemma_surviving_contains(s.group_keys(), s.meshes.storage@, s.materials.storage@, k);
    assert forall|l: int| 0 <= l < s.surviving_keys().len() implies s.surviving_keys()[l] != k by {
        if s.surviving_keys()[l] == k {
            assert(s.surviving_keys().contains(k));
        }
    }
}

/// Transforms gathered from a prefix never outnumber those of a longer
/// prefix.
pub proof fn lemma_group_transforms_prefix_le(objs: Seq<MeshObject>, k: GroupKey, n1: int, n2: int)
    requires
        0 <= n1 <= n2 <= objs.len(),
    ensures
        group_transforms_of(objs.take(n1), k).len() <= group_transforms_of(objs.take(n2), k).len(),
    decreases n2,
{
    if n2 > n1 {
        lemma_group_transforms_prefix_le(objs, k, n1, n2 - 1);
        assert(objs.take(n2).drop_last() =~= objs.take(n2 - 1));
    }
}

/// Batch grouping: two objects sharing one (mesh, material) key fall into a
/// single group (keys are distinct, and theirs is present) that carries at
/// least both their transforms, so one substructure serves two or more
/// top-level instance slots.
pub proof fn lemma_batch_grouping(objs: Seq<MeshObject>, i1: int, i2: int)
    requires
        0 <= i1 < i2 < objs.len(),
        key_of(objs[i1]) == key_of(objs[i2]),
    ensures
        group_keys_of(objs).contains(key_of(objs[i1])),
        forall|a: int, b: int|
            0 <= a < b < group_keys_of(objs).len() ==> group_keys_of(objs)[a] != group_keys_of(
                objs,
            )[b],
        group_transforms_of(objs, key_of(objs[i1])).len() >= 2,
{
    let k = key_of(objs[i1]);
    lemma_group_keys_distinct(objs);
    lemma_group_keys_contains(objs, k);
    assert(group_keys_of(objs).contains(k)) by {
        assert(key_of(objs[i1]) == k);
    }
    assert(objs.take(i1 + 1).drop_last() =~= objs.take(i1));
    assert(objs.take(i1 + 1).last() == objs[i1]);
    assert(group_transforms_of(objs.take(i1 + 1), k).len() >= 1);
    lemma_group_transforms_prefix_le(objs, k, i1 + 1, i2);
    assert(objs.take(i2 + 1).drop_last() =~= objs.take(i2));
    assert(objs.take(i2 + 1).last() == objs[i2]);
    assert(group_transforms_of(objs.take(i2 + 1), k).len() >= 2);
    lemma_group_transforms_prefix_le(objs, k, i2 + 1, objs.len() as int);
    assert(objs.take(objs.len() as int) =~= objs);
}

} // verus!

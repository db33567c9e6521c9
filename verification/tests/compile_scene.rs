use scene_rt::float_bits::Float3;
use scene_rt::material::Material;
use scene_rt::mesh::{build_mesh, Mesh};
use scene_rt::mesh_object::MeshObject;
use scene_rt::scene::Scene;
use scene_rt::shader_types::{GpuInstance, GpuMaterial};
use scene_rt::transform::Transform;

fn bits(values: &[f32]) -> Vec<u32> {
    values.iter().map(|v| v.to_bits()).collect()
}

fn float3(x: f32, y: f32, z: f32) -> Float3 {
    Float3 { x: x.to_bits(), y: y.to_bits(), z: z.to_bits() }
}

fn translated(x: f32, y: f32, z: f32) -> Transform {
    Transform { translation: float3(x, y, z), ..Transform::default() }
}

/// A quad: four vertices, two triangles.
fn quad_mesh() -> Mesh {
    let positions = bits(&[
        0.0, 0.0, 0.0, //
        1.0, 0.0, 0.0, //
        1.0, 1.0, 0.0, //
        0.0, 1.0, 0.0,
    ]);
    let normals = bits(&[
        0.0, 0.0, 1.0, //
        0.0, 0.0, 1.0, //
        0.0, 0.0, 1.0, //
        0.0, 0.0, 1.0,
    ]);
    let indices = vec![0u32, 1, 2, 0, 2, 3];
    build_mesh(positions, normals, indices).expect("a valid quad")
}

fn aspect_one() -> u32 {
    1.0f32.to_bits()
}

#[test]
fn end_to_end_quad_scene() {
    let mut scene = Scene::new();
    let mesh = scene.insert_mesh(quad_mesh());
    let material = scene.insert_material(Material { albedo: float3(0.2, 0.4, 0.6), ..Material::default() });
    scene.insert_mesh_object(MeshObject { mesh, material, transform: translated(0.0, 0.0, 0.0) });
    scene.insert_mesh_object(MeshObject { mesh, material, transform: translated(2.0, 0.0, 0.0) });

    let compiled = scene.compile(aspect_one()).expect("the scene fits");
    assert_eq!(compiled.vertices.len(), 4);
    assert_eq!(compiled.indices.len(), 6);
    assert_eq!(compiled.indices, vec![0, 1, 2, 0, 2, 3]);
    assert_eq!(compiled.materials.len(), 1);
    assert_eq!(
        compiled.materials[0],
        GpuMaterial {
            albedo: float3(0.2, 0.4, 0.6),
            emissive: float3(0.0, 0.0, 0.0),
            emissive_strength: 0.0f32.to_bits(),
        }
    );
    // one bottom-level substructure, sized from the quad
    assert_eq!(compiled.blas_sizes.len(), 1);
    assert_eq!(compiled.blas_sizes[0].vertex_count, 4);
    assert_eq!(compiled.blas_sizes[0].index_count, 6);
    // one instance record at the start of both buffers
    assert_eq!(compiled.instances.len(), 1);
    assert_eq!(
        compiled.instances[0],
        GpuInstance { first_vertex: 0, first_index: 0, material_index: 0, _p0: 0 }
    );
    // two top-level transforms for the single group, in object order
    assert_eq!(compiled.instance_transforms.len(), 1);
    assert_eq!(
        compiled.instance_transforms[0],
        vec![translated(0.0, 0.0, 0.0), translated(2.0, 0.0, 0.0)]
    );
    // the first vertex record round-trips the positions and normals
    assert_eq!(compiled.vertices[0].pos, float3(0.0, 0.0, 0.0));
    assert_eq!(compiled.vertices[2].pos, float3(1.0, 1.0, 0.0));
    assert_eq!(compiled.vertices[3].normal, float3(0.0, 0.0, 1.0));
    assert_eq!(compiled.uniform_bytes.len(), 128);
}

#[test]
fn dangling_mesh_drops_group() {
    let mut scene = Scene::new();
    let mesh = scene.insert_mesh(quad_mesh());
    let material = scene.insert_material(Material::default());
    scene.insert_mesh_object(MeshObject { mesh, material, transform: Transform::default() });
    scene.meshes.remove(mesh);

    let compiled = scene.compile(aspect_one()).expect("an empty scene still compiles");
    assert!(compiled.instances.is_empty());
    assert!(compiled.materials.is_empty());
    assert!(compiled.blas_sizes.is_empty());
    assert!(compiled.instance_transforms.is_empty());
    assert!(compiled.vertices.is_empty());
    assert!(compiled.indices.is_empty());
}

#[test]
fn dangling_material_drops_group() {
    let mut scene = Scene::new();
    let mesh = scene.insert_mesh(quad_mesh());
    let material = scene.insert_material(Material::default());
    scene.insert_mesh_object(MeshObject { mesh, material, transform: Transform::default() });
    scene.materials.remove(material);

    let compiled = scene.compile(aspect_one()).expect("an empty scene still compiles");
    assert!(compiled.instances.is_empty());
    // the dangling object's mesh is not uploaded either
    assert!(compiled.vertices.is_empty());
}

#[test]
fn unreferenced_mesh_is_not_uploaded() {
    let mut scene = Scene::new();
    let used = scene.insert_mesh(quad_mesh());
    let positions = bits(&[0.0, 0.0, 0.0, 1.0, 0.0, 0.0, 0.0, 1.0, 0.0]);
    let normals = bits(&[0.0, 0.0, 1.0, 0.0, 0.0, 1.0, 0.0, 0.0, 1.0]);
    let _unused = scene.insert_mesh(build_mesh(positions, normals, vec![0, 1, 2]).unwrap());
    let material = scene.insert_material(Material::default());
    scene.insert_mesh_object(MeshObject { mesh: used, material, transform: Transform::default() });

    let compiled = scene.compile(aspect_one()).expect("the scene fits");
    // only the referenced quad's vertices are in the buffer
    assert_eq!(compiled.vertices.len(), 4);
    assert_eq!(compiled.indices.len(), 6);
    assert_eq!(compiled.mesh_handles, vec![used]);
}

#[test]
fn batch_grouping_collapses_shared_pairs() {
    let mut scene = Scene::new();
    let mesh = scene.insert_mesh(quad_mesh());
    let material = scene.insert_material(Material::default());
    let other_material = scene.insert_material(Material { emissive_strength: 3.0f32.to_bits(), ..Material::default() });
    scene.insert_mesh_object(MeshObject { mesh, material, transform: translated(0.0, 0.0, 0.0) });
    scene.insert_mesh_object(MeshObject { mesh, material, transform: translated(2.0, 0.0, 0.0) });
    scene.insert_mesh_object(MeshObject { mesh, material: other_material, transform: translated(0.0, 5.0, 0.0) });

    let compiled = scene.compile(aspect_one()).expect("the scene fits");
    // two groups: the shared (mesh, material) pair collapses into one
    assert_eq!(compiled.instances.len(), 2);
    assert_eq!(compiled.instance_transforms[0].len(), 2);
    assert_eq!(compiled.instance_transforms[1].len(), 1);
    // the mesh is uploaded once, and both groups point at its start
    assert_eq!(compiled.vertices.len(), 4);
    assert_eq!(compiled.instances[0].first_vertex, 0);
    assert_eq!(compiled.instances[1].first_vertex, 0);
    assert_eq!(compiled.instances[0].material_index, 0);
    assert_eq!(compiled.instances[1].material_index, 1);
}

#[test]
fn two_meshes_get_disjoint_ranges() {
    let mut scene = Scene::new();
    let quad = scene.insert_mesh(quad_mesh());
    let positions = bits(&[0.0, 0.0, 0.0, 1.0, 0.0, 0.0, 0.0, 1.0, 0.0]);
    let normals = bits(&[0.0, 0.0, 1.0, 0.0, 0.0, 1.0, 0.0, 0.0, 1.0]);
    let triangle = scene.insert_mesh(build_mesh(positions, normals, vec![0, 1, 2]).unwrap());
    let material = scene.insert_material(Material::default());
    scene.insert_mesh_object(MeshObject { mesh: quad, material, transform: Transform::default() });
    scene.insert_mesh_object(MeshObject { mesh: triangle, material, transform: Transform::default() });

    let compiled = scene.compile(aspect_one()).expect("the scene fits");
    assert_eq!(compiled.vertices.len(), 7);
    assert_eq!(compiled.indices.len(), 9);
    assert_eq!(compiled.instances.len(), 2);
    assert_eq!(compiled.instances[0].first_vertex, 0);
    assert_eq!(compiled.instances[0].first_index, 0);
    assert_eq!(compiled.instances[1].first_vertex, 4);
    assert_eq!(compiled.instances[1].first_index, 6);
    assert_eq!(compiled.blas_sizes[1].vertex_count, 3);
    assert_eq!(compiled.blas_sizes[1].index_count, 3);
}

#[test]
fn cached_snapshot_is_not_invalidated() {
    let mut scene = Scene::new();
    let mesh = scene.insert_mesh(quad_mesh());
    let material = scene.insert_material(Material::default());
    scene.insert_mesh_object(MeshObject { mesh, material, transform: Transform::default() });

    let first_len = scene.get_or_compile(aspect_one()).expect("the scene fits").instances.len();
    assert_eq!(first_len, 1);
    // a later edit does not invalidate the cached snapshot
    scene.insert_mesh_object(MeshObject { mesh, material, transform: translated(1.0, 0.0, 0.0) });
    let cached = scene.get_or_compile(aspect_one()).expect("still cached");
    assert_eq!(cached.instances.len(), 1);
    assert_eq!(cached.instance_transforms[0].len(), 1);
}

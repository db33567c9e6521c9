use scene_rt::float_bits::Float3;
use scene_rt::frame::build_tlas_slots;
use scene_rt::mat::transform_rows;
use scene_rt::material::Material;
use scene_rt::mesh::build_mesh;
use scene_rt::mesh_object::MeshObject;
use scene_rt::scene::Scene;
use scene_rt::transform::Transform;

fn float3(x: f32, y: f32, z: f32) -> Float3 {
    Float3 { x: x.to_bits(), y: y.to_bits(), z: z.to_bits() }
}

fn translated(x: f32, y: f32, z: f32) -> Transform {
    Transform { translation: float3(x, y, z), ..Transform::default() }
}

fn two_instance_scene() -> Scene {
    let mut scene = Scene::new();
    let positions = vec![0u32; 12];
    let normals = vec![0u32; 12];
    let mesh = scene.insert_mesh(build_mesh(positions, normals, vec![0, 1, 2, 0, 2, 3]).unwrap());
    let material = scene.insert_material(Material::default());
    scene.insert_mesh_object(MeshObject { mesh, material, transform: translated(0.0, 0.0, 0.0) });
    scene.insert_mesh_object(MeshObject { mesh, material, transform: translated(2.0, 0.0, 0.0) });
    scene
}

#[test]
fn one_group_two_slots() {
    let scene = two_instance_scene();
    let compiled = scene.compile(1.0f32.to_bits()).expect("the scene fits");
    assert_eq!(compiled.blas_sizes.len(), 1);

    let slots = build_tlas_slots(&compiled, 64).expect("within capacity");
    assert_eq!(slots.len(), 2);
    for slot in &slots {
        assert_eq!(slot.blas_index, 0);
        assert_eq!(slot.custom_index, 0);
        assert_eq!(slot.mask, 0xff);
        assert_eq!(slot.transform_rows.len(), 12);
    }
    // a pure translation flattens to the identity rows with the translation
    // in the last column, row-major
    let expected: Vec<u32> = [
        1.0f32, 0.0, 0.0, 0.0, //
        0.0, 1.0, 0.0, 0.0, //
        0.0, 0.0, 1.0, 0.0,
    ]
    .iter()
    .map(|v| v.to_bits())
    .collect();
    assert_eq!(slots[0].transform_rows, expected);
    let expected_translated: Vec<u32> = [
        1.0f32, 0.0, 0.0, 2.0, //
        0.0, 1.0, 0.0, 0.0, //
        0.0, 0.0, 1.0, 0.0,
    ]
    .iter()
    .map(|v| v.to_bits())
    .collect();
    assert_eq!(slots[1].transform_rows, expected_translated);
}

#[test]
fn capacity_exhaustion_is_fatal() {
    let scene = two_instance_scene();
    let compiled = scene.compile(1.0f32.to_bits()).expect("the scene fits");
    assert!(build_tlas_slots(&compiled, 1).is_none());
    assert!(build_tlas_slots(&compiled, 2).is_some());
}

#[test]
fn empty_scene_needs_no_slots() {
    let scene = Scene::new();
    let compiled = scene.compile(1.0f32.to_bits()).expect("an empty scene compiles");
    let slots = build_tlas_slots(&compiled, 64).expect("nothing to place");
    assert!(slots.is_empty());
}

#[test]
fn transform_rows_compose_scale_rotate_translate() {
    // scale by 2, rotate a quarter turn around Z, then translate: matches
    // glam's own composition
    let half_sqrt = (0.5f32).sqrt();
    let t = Transform {
        translation: float3(1.0, 2.0, 3.0),
        scale: float3(2.0, 2.0, 2.0),
        rotation: scene_rt::float_bits::Float4 {
            x: 0.0f32.to_bits(),
            y: 0.0f32.to_bits(),
            z: half_sqrt.to_bits(),
            w: half_sqrt.to_bits(),
        },
    };
    let rows = transform_rows(&t);

    let m = glam::Mat4::from_scale_rotation_translation(
        glam::Vec3::splat(2.0),
        glam::Quat::from_xyzw(0.0, 0.0, half_sqrt, half_sqrt),
        glam::Vec3::new(1.0, 2.0, 3.0),
    );
    let expected: Vec<u32> =
        m.transpose().to_cols_array()[..12].iter().map(|v| v.to_bits()).collect();
    assert_eq!(rows, expected);
}

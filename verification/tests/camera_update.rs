use scene_rt::camera::{F32_1000_BITS, F32_90_BITS, F32_TENTH_BITS};
use scene_rt::float_bits::{F32_ONE_BITS, F32_ZERO_BITS};
use scene_rt::mat::camera_uniform_bytes;
use scene_rt::material::Material;
use scene_rt::mesh::build_mesh;
use scene_rt::mesh_object::MeshObject;
use scene_rt::scene::Scene;
use scene_rt::transform::Transform;

fn small_scene() -> Scene {
    let mut scene = Scene::new();
    let positions = vec![0u32; 9];
    let normals = vec![0u32; 9];
    let mesh = scene.insert_mesh(build_mesh(positions, normals, vec![0, 1, 2]).unwrap());
    let material = scene.insert_material(Material::default());
    scene.insert_mesh_object(MeshObject { mesh, material, transform: Transform::default() });
    scene
}

#[test]
fn float_constants_match_their_values() {
    assert_eq!(F32_ZERO_BITS, 0.0f32.to_bits());
    assert_eq!(F32_ONE_BITS, 1.0f32.to_bits());
    assert_eq!(F32_90_BITS, 90.0f32.to_bits());
    assert_eq!(F32_TENTH_BITS, 0.1f32.to_bits());
    assert_eq!(F32_1000_BITS, 1000.0f32.to_bits());
}

#[test]
fn camera_update_is_idempotent() {
    let mut scene = small_scene();
    let aspect = (800.0f32 / 600.0f32).to_bits();
    scene.get_or_compile(aspect).expect("the scene fits");

    scene.update_camera_size(aspect);
    let first = scene.gpu_scene.as_ref().unwrap().uniform_bytes.clone();
    scene.update_camera_size(aspect);
    let second = scene.gpu_scene.as_ref().unwrap().uniform_bytes.clone();
    // byte-identical payloads both times
    assert_eq!(first, second);
    assert_eq!(first.len(), 128);
}

#[test]
fn camera_update_without_snapshot_is_noop() {
    let mut scene = small_scene();
    scene.update_camera_size(1.0f32.to_bits());
    assert!(scene.gpu_scene.is_none());
}

#[test]
fn uniform_payload_matches_the_matrix_math() {
    // the default camera: 90 degree fov, clip range 0.1 to 1000, identity view
    let scene = small_scene();
    let aspect = 2.0f32;
    let got = camera_uniform_bytes(&scene.camera, aspect.to_bits());

    let view = glam::Mat4::from_scale_rotation_translation(
        glam::Vec3::ONE,
        glam::Quat::IDENTITY,
        glam::Vec3::ZERO,
    );
    let proj = glam::camera::rh::proj::directx::perspective(
        90.0f32.to_radians(),
        aspect,
        0.1,
        1000.0,
    );
    let mut expected: Vec<u8> = Vec::new();
    for c in view.inverse().to_cols_array() {
        expected.extend_from_slice(&c.to_bits().to_le_bytes());
    }
    for c in proj.inverse().to_cols_array() {
        expected.extend_from_slice(&c.to_bits().to_le_bytes());
    }
    assert_eq!(got, expected);
}

#[test]
fn different_aspect_ratios_give_different_payloads() {
    let scene = small_scene();
    let one = camera_uniform_bytes(&scene.camera, 1.0f32.to_bits());
    let two = camera_uniform_bytes(&scene.camera, 2.0f32.to_bits());
    assert_ne!(one, two);
}

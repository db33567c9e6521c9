use scene_rt::float_bits::Float3;
use scene_rt::mesh::{build_mesh, Vertex};

fn bits(values: &[f32]) -> Vec<u32> {
    values.iter().map(|v| v.to_bits()).collect()
}

#[test]
fn build_mesh_zips_positions_and_normals() {
    let positions = bits(&[1.0, 2.0, 3.0, 4.0, 5.0, 6.0]);
    let normals = bits(&[0.0, 1.0, 0.0, 0.0, 0.0, 1.0]);
    let indices = vec![0u32, 1, 0];
    let mesh = build_mesh(positions, normals, indices).expect("a valid mesh");
    assert_eq!(mesh.vertices.len(), 2);
    assert_eq!(
        mesh.vertices[0],
        Vertex {
            pos: Float3 { x: 1.0f32.to_bits(), y: 2.0f32.to_bits(), z: 3.0f32.to_bits() },
            normal: Float3 { x: 0.0f32.to_bits(), y: 1.0f32.to_bits(), z: 0.0f32.to_bits() },
        }
    );
    assert_eq!(
        mesh.vertices[1],
        Vertex {
            pos: Float3 { x: 4.0f32.to_bits(), y: 5.0f32.to_bits(), z: 6.0f32.to_bits() },
            normal: Float3 { x: 0.0f32.to_bits(), y: 0.0f32.to_bits(), z: 1.0f32.to_bits() },
        }
    );
    assert_eq!(mesh.indices, vec![0, 1, 0]);
}

#[test]
fn build_mesh_rejects_unequal_lengths() {
    let positions = bits(&[1.0, 2.0, 3.0, 4.0, 5.0, 6.0]);
    let normals = bits(&[0.0, 1.0, 0.0]);
    assert!(build_mesh(positions, normals, vec![0, 0, 0]).is_none());
}

#[test]
fn build_mesh_rejects_ragged_components() {
    let positions = bits(&[1.0, 2.0, 3.0, 4.0]);
    let normals = bits(&[0.0, 1.0, 0.0, 0.0]);
    assert!(build_mesh(positions, normals, vec![0, 0, 0]).is_none());
}

#[test]
fn build_mesh_rejects_partial_triangles() {
    let positions = bits(&[1.0, 2.0, 3.0]);
    let normals = bits(&[0.0, 1.0, 0.0]);
    assert!(build_mesh(positions, normals, vec![0, 0]).is_none());
}

#[test]
fn build_mesh_accepts_empty() {
    let mesh = build_mesh(Vec::new(), Vec::new(), Vec::new()).expect("an empty mesh");
    assert!(mesh.vertices.is_empty());
    assert!(mesh.indices.is_empty());
}

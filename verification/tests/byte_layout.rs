use scene_rt::float_bits::Float3;
use scene_rt::shader_types::{
    instance_buffer_to_bytes, material_buffer_to_bytes, vertex_buffer_to_bytes, words_to_bytes,
    GpuInstance, GpuMaterial, GpuVertex,
};

fn float3(x: f32, y: f32, z: f32) -> Float3 {
    Float3 { x: x.to_bits(), y: y.to_bits(), z: z.to_bits() }
}

#[test]
fn words_serialize_little_endian() {
    let words = vec![0x0403_0201u32, 0x0807_0605];
    assert_eq!(words_to_bytes(&words), vec![1, 2, 3, 4, 5, 6, 7, 8]);
}

#[test]
fn vertex_record_is_32_bytes_with_padding() {
    let v = GpuVertex { pos: float3(1.0, 2.0, 3.0), normal: float3(0.0, 1.0, 0.0) };
    let bytes = vertex_buffer_to_bytes(&vec![v, v]);
    assert_eq!(bytes.len(), 64);
    let mut expected: Vec<u8> = Vec::new();
    for value in [1.0f32, 2.0, 3.0] {
        expected.extend_from_slice(&value.to_bits().to_le_bytes());
    }
    expected.extend_from_slice(&[0, 0, 0, 0]);
    for value in [0.0f32, 1.0, 0.0] {
        expected.extend_from_slice(&value.to_bits().to_le_bytes());
    }
    expected.extend_from_slice(&[0, 0, 0, 0]);
    assert_eq!(&bytes[..32], &expected[..]);
    assert_eq!(&bytes[32..], &expected[..]);
}

#[test]
fn material_record_is_32_bytes() {
    let m = GpuMaterial {
        albedo: float3(0.5, 0.25, 0.125),
        emissive: float3(1.0, 1.0, 1.0),
        emissive_strength: 3.0f32.to_bits(),
    };
    let bytes = material_buffer_to_bytes(&vec![m]);
    assert_eq!(bytes.len(), 32);
    let mut expected: Vec<u8> = Vec::new();
    for value in [0.5f32, 0.25, 0.125] {
        expected.extend_from_slice(&value.to_bits().to_le_bytes());
    }
    expected.extend_from_slice(&[0, 0, 0, 0]);
    for value in [1.0f32, 1.0, 1.0, 3.0] {
        expected.extend_from_slice(&value.to_bits().to_le_bytes());
    }
    assert_eq!(bytes, expected);
}

#[test]
fn instance_record_is_16_bytes() {
    let record = GpuInstance { first_vertex: 4, first_index: 6, material_index: 1, _p0: 0 };
    let bytes = instance_buffer_to_bytes(&vec![record]);
    assert_eq!(
        bytes,
        vec![4, 0, 0, 0, 6, 0, 0, 0, 1, 0, 0, 0, 0, 0, 0, 0]
    );
}

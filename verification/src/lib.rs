pub mod camera;
pub mod dense_storage;
pub mod float_bits;
pub mod frame;
pub mod mat;
pub mod material;
pub mod mesh;
pub mod mesh_object;
pub mod scene;
pub mod shader_types;
pub mod transform;

pub mod sdf_shape;

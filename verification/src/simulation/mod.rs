pub mod gpu;
pub mod profiling;
pub mod shaders;
pub mod upload;
pub mod viewport;

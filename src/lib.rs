//! Host-side preparation of GPU resources: SPIR-V validation, buffers created
//! with initial contents, and textures uploaded with all their mip levels.
pub mod device;
pub mod layout;
pub mod spirv;
pub mod util;

pub use spirv::make_spirv;
pub use util::{BufferInitDescriptor, DeviceExt};

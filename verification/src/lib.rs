//! Verified core of a small Vulkan compute framework: the decisions and data
//! handling around the GPU calls, stated and proved with Verus.

pub mod memory;
pub mod queue;
pub mod spirv;
pub mod pointcloud;
pub mod buffer;
pub mod dispatch;
pub mod pixels;
pub mod version;

//! A GPU device layer: object caches, memory-backed resources, command recording
//! and the swapchain frame protocol, with the driver calls made by the caller.
use vstd::prelude::*;

pub mod backend;
pub mod buffer;
pub mod cache;
pub mod command;
pub mod descriptor;
pub mod device;
pub mod framebuffer;
pub mod image;
pub mod recency;
pub mod shader;
pub mod render_pass;
pub mod swapchain;
pub mod sync;
pub mod usage;

verus! {

/// Most color attachments a render pass may have.
pub const MAX_COLOR_ATTACHMENTS: usize = 8;

/// A range that reaches to the end of a buffer (Vulkan's `VK_WHOLE_SIZE`).
pub const WHOLE_SIZE: u64 = 0xffff_ffff_ffff_ffff;

// Driver enumerations and flag sets, as Vulkan's raw values.
pub type ImageFormat = i32;
pub type ImageLayout = i32;
pub type ImageType = i32;
pub type ImageViewType = i32;
pub type ImageAspectFlags = u32;
pub type AccessFlags = u32;
pub type DescriptorType = i32;
pub type IndexType = i32;
pub type PipelineStageFlags = u32;
pub type ShaderStageFlags = u32;
pub type ColorSpace = i32;
pub type PresentMode = i32;

/// Options given when the backend is made.
pub struct BackendConfig {
    pub debugging: bool,
}

#[derive(Clone, Copy, Debug)]
pub struct Rect<T> {
    pub x: T,
    pub y: T,
    pub width: T,
    pub height: T,
}

#[derive(Clone, Copy, Debug, PartialEq, Eq, Structural)]
pub struct Extent2d {
    pub width: u32,
    pub height: u32,
}

#[derive(Clone, Copy, Debug, PartialEq, Eq, Structural)]
pub struct Extent3d {
    pub width: u32,
    pub height: u32,
    pub depth: u32,
}

/// Source text of a shader stage.
pub enum ShaderSource<'a> {
    Hlsl(&'a str),
}

#[derive(Debug)]
pub enum BeginFrameError {
    OutdatedSwapchain,
}

#[derive(Debug)]
pub enum EndFrameError {
    OutdatedSwapchain,
}

} // verus!

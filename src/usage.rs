//! Usage flags of buffers and images, and what they decide about memory placement
//! and about the driver's own usage flags.
use vstd::prelude::*;

use gpu_allocator::MemoryLocation;

verus! {

/// `gpu_allocator::MemoryLocation`, whose variants verified code builds and compares.
#[verifier::external_type_specification]
pub struct ExMemoryLocation(MemoryLocation);

/// Whether every bit of `flag` is set in `bits`.
pub open spec fn has_flag(bits: u32, flag: u32) -> bool {
    bits & flag == flag
}

/// The buffer may be mapped for reading on the host (staging readback).
pub const BUFFER_MAP_READ: u32 = 1;
/// The buffer may be mapped for writing on the host (staging upload).
pub const BUFFER_MAP_WRITE: u32 = 2;
pub const BUFFER_TRANSFER_SRC: u32 = 4;
pub const BUFFER_TRANSFER_DST: u32 = 8;
pub const BUFFER_UNIFORM: u32 = 16;
pub const BUFFER_STORAGE: u32 = 32;
pub const BUFFER_INDEX: u32 = 64;
pub const BUFFER_VERTEX: u32 = 128;
pub const BUFFER_INDIRECT: u32 = 256;

pub const IMAGE_TRANSFER_SRC: u32 = 1;
pub const IMAGE_TRANSFER_DST: u32 = 2;
pub const IMAGE_SAMPLED: u32 = 4;
pub const IMAGE_STORAGE: u32 = 8;
pub const IMAGE_COLOR_ATTACHMENT: u32 = 16;
pub const IMAGE_DEPTH_STENCIL_ATTACHMENT: u32 = 32;

/// Vulkan's `VkBufferUsageFlagBits` values that usages map to.
pub const VK_BUFFER_TRANSFER_SRC: u32 = 0x1;
pub const VK_BUFFER_TRANSFER_DST: u32 = 0x2;
pub const VK_BUFFER_UNIFORM_BUFFER: u32 = 0x10;
pub const VK_BUFFER_STORAGE_BUFFER: u32 = 0x20;
pub const VK_BUFFER_INDEX_BUFFER: u32 = 0x40;
pub const VK_BUFFER_VERTEX_BUFFER: u32 = 0x80;

/// Vulkan's `VkImageUsageFlagBits` values that usages map to.
pub const VK_IMAGE_TRANSFER_SRC: u32 = 0x1;
pub const VK_IMAGE_TRANSFER_DST: u32 = 0x2;
pub const VK_IMAGE_SAMPLED: u32 = 0x4;
pub const VK_IMAGE_STORAGE: u32 = 0x8;
pub const VK_IMAGE_COLOR_ATTACHMENT: u32 = 0x10;
pub const VK_IMAGE_DEPTH_STENCIL_ATTACHMENT: u32 = 0x20;

/// How a buffer will be used, as a set of `BUFFER_*` bits.
#[derive(Clone, Copy, Debug, PartialEq, Eq, Structural)]
pub struct BufferUsage {
    pub bits: u32,
}

/// How an image will be used, as a set of `IMAGE_*` bits.
#[derive(Clone, Copy, Debug, PartialEq, Eq, Structural)]
pub struct ImageUsage {
    pub bits: u32,
}

impl BufferUsage {
    pub fn contains(&self, flag: u32) -> (r: bool)
        ensures
            r == has_flag(self.bits, flag),
    {
        self.bits & flag == flag
    }
}

impl ImageUsage {
    pub fn contains(&self, flag: u32) -> (r: bool)
        ensures
            r == has_flag(self.bits, flag),
    {
        self.bits & flag == flag
    }
}

/// Where a buffer's memory goes: host-readable memory when it is mapped for reading,
/// host-writable memory when it is mapped for writing, device-local memory otherwise.
pub open spec fn buffer_location(bits: u32) -> MemoryLocation {
    if has_flag(bits, BUFFER_MAP_READ) {
        MemoryLocation::GpuToCpu
    } else if has_flag(bits, BUFFER_MAP_WRITE) {
        MemoryLocation::CpuToGpu
    } else {
        MemoryLocation::GpuOnly
    }
}

pub fn memory_location(usage: &BufferUsage) -> (r: MemoryLocation)
    ensures
        r == buffer_location(usage.bits),
{
    if usage.contains(BUFFER_MAP_READ) {
        MemoryLocation::GpuToCpu
    } else if usage.contains(BUFFER_MAP_WRITE) {
        MemoryLocation::CpuToGpu
    } else {
        MemoryLocation::GpuOnly
    }
}

/// The driver usage flag of a buffer: the first usage present, in the order transfer
/// source, transfer destination, uniform, storage, index, vertex, selects a single flag.
pub open spec fn vk_buffer_usage(bits: u32) -> u32 {
    if has_flag(bits, BUFFER_TRANSFER_SRC) {
        VK_BUFFER_TRANSFER_SRC
    } else if has_flag(bits, BUFFER_TRANSFER_DST) {
        VK_BUFFER_TRANSFER_DST
    } else if has_flag(bits, BUFFER_UNIFORM) {
        VK_BUFFER_UNIFORM_BUFFER
    } else if has_flag(bits, BUFFER_STORAGE) {
        VK_BUFFER_STORAGE_BUFFER
    } else if has_flag(bits, BUFFER_INDEX) {
        VK_BUFFER_INDEX_BUFFER
    } else if has_flag(bits, BUFFER_VERTEX) {
        VK_BUFFER_VERTEX_BUFFER
    } else {
        0
    }
}

pub fn buffer_usage_flags(usage: &BufferUsage) -> (r: u32)
    ensures
        r == vk_buffer_usage(usage.bits),
{
    if usage.contains(BUFFER_TRANSFER_SRC) {
        VK_BUFFER_TRANSFER_SRC
    } else if usage.contains(BUFFER_TRANSFER_DST) {
        VK_BUFFER_TRANSFER_DST
    } else if usage.contains(BUFFER_UNIFORM) {
        VK_BUFFER_UNIFORM_BUFFER
    } else if usage.contains(BUFFER_STORAGE) {
        VK_BUFFER_STORAGE_BUFFER
    } else if usage.contains(BUFFER_INDEX) {
        VK_BUFFER_INDEX_BUFFER
    } else if usage.contains(BUFFER_VERTEX) {
        VK_BUFFER_VERTEX_BUFFER
    } else {
        0
    }
}

/// The driver usage flag of an image: the first usage present, in the order transfer
/// source, transfer destination, sampled, storage, color attachment, depth-stencil
/// attachment, selects a single flag.
pub open spec fn vk_image_usage(bits: u32) -> u32 {
    if has_flag(bits, IMAGE_TRANSFER_SRC) {
        VK_IMAGE_TRANSFER_SRC
    } else if has_flag(bits, IMAGE_TRANSFER_DST) {
        VK_IMAGE_TRANSFER_DST
    } else if has_flag(bits, IMAGE_SAMPLED) {
        VK_IMAGE_SAMPLED
    } else if has_flag(bits, IMAGE_STORAGE) {
        VK_IMAGE_STORAGE
    } else if has_flag(bits, IMAGE_COLOR_ATTACHMENT) {
        VK_IMAGE_COLOR_ATTACHMENT
    } else if has_flag(bits, IMAGE_DEPTH_STENCIL_ATTACHMENT) {
        VK_IMAGE_DEPTH_STENCIL_ATTACHMENT
    } else {
        0
    }
}

pub fn image_usage_flags(usage: &ImageUsage) -> (r: u32)
    ensures
        r == vk_image_usage(usage.bits),
{
    if usage.contains(IMAGE_TRANSFER_SRC) {
        VK_IMAGE_TRANSFER_SRC
    } else if usage.contains(IMAGE_TRANSFER_DST) {
        VK_IMAGE_TRANSFER_DST
    } else if usage.contains(IMAGE_SAMPLED) {
        VK_IMAGE_SAMPLED
    } else if usage.contains(IMAGE_STORAGE) {
        VK_IMAGE_STORAGE
    } else if usage.contains(IMAGE_COLOR_ATTACHMENT) {
        VK_IMAGE_COLOR_ATTACHMENT
    } else if usage.contains(IMAGE_DEPTH_STENCIL_ATTACHMENT) {
        VK_IMAGE_DEPTH_STENCIL_ATTACHMENT
    } else {
        0
    }
}

} // verus!

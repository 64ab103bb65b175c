use gpu_allocator::vulkan::Allocation;
use gpu_allocator::MemoryLocation;

use blick::buffer::{buffer_allocation_request, Buffer, BufferDesc};
use blick::image::{image_allocation_request, Image, ImageDesc, ImageView, ImageViewDesc, ReleaseStep};
use blick::usage::{
    buffer_usage_flags, image_usage_flags, memory_location, BufferUsage, ImageUsage, BUFFER_INDEX,
    BUFFER_MAP_READ, BUFFER_MAP_WRITE, BUFFER_STORAGE, BUFFER_TRANSFER_DST, BUFFER_UNIFORM, BUFFER_VERTEX,
    IMAGE_COLOR_ATTACHMENT, IMAGE_SAMPLED, IMAGE_TRANSFER_SRC,
};
use blick::Extent3d;

/// Carries out release steps against a counting stand-in for the allocator and driver.
#[derive(Default)]
struct CountingDevice {
    frees: u32,
    destroyed_images: Vec<u64>,
    destroyed_buffers: Vec<u64>,
    destroyed_views: Vec<u64>,
    order: Vec<&'static str>,
}

impl CountingDevice {
    fn run(&mut self, steps: Vec<ReleaseStep>) {
        for step in steps {
            match step {
                ReleaseStep::DestroyImageView(v) => {
                    self.destroyed_views.push(v);
                    self.order.push("view");
                }
                ReleaseStep::FreeAllocation(_) => {
                    self.frees += 1;
                    self.order.push("free");
                }
                ReleaseStep::DestroyImage(i) => {
                    self.destroyed_images.push(i);
                    self.order.push("image");
                }
                ReleaseStep::DestroyBuffer(b) => {
                    self.destroyed_buffers.push(b);
                    self.order.push("buffer");
                }
                ReleaseStep::DestroySwapchain(_) => self.order.push("swapchain"),
            }
        }
    }
}

fn image_desc() -> ImageDesc {
    ImageDesc {
        image_type: 1,
        format: 37,
        extent: Extent3d { width: 4, height: 4, depth: 1 },
        usage: ImageUsage { bits: IMAGE_SAMPLED },
    }
}

fn view_desc(level: u32) -> ImageViewDesc {
    ImageViewDesc { view_type: 1, aspect_mask: 1, format: 37, base_mip_level: level, level_count: 1 }
}

#[test]
fn borrowed_image_never_frees_owned_always_does() {
    let mut device = CountingDevice::default();
    let mut borrowed = Image::from_raw(7, image_desc());
    borrowed.view(view_desc(0), |_| ImageView { raw: 70 });
    device.run(borrowed.release());
    assert_eq!(device.frees, 0);
    assert!(device.destroyed_images.is_empty());
    assert_eq!(device.destroyed_views, vec![70]);

    let mut owned = Image::new(8, image_desc(), Allocation::default());
    owned.view(view_desc(0), |_| ImageView { raw: 80 });
    device.run(owned.release());
    assert_eq!(device.frees, 1);
    assert_eq!(device.destroyed_images, vec![8]);
    assert_eq!(device.order, vec!["view", "view", "free", "image"]);
}

#[test]
fn image_views_are_made_once_per_descriptor() {
    let mut image = Image::from_raw(3, image_desc());
    let mut made = 0;
    let a = image.view(view_desc(0), |_| {
        made += 1;
        ImageView { raw: 100 }
    });
    let b = image.view(view_desc(0), |_| {
        made += 1;
        ImageView { raw: 101 }
    });
    let c = image.view(view_desc(1), |_| {
        made += 1;
        ImageView { raw: 102 }
    });
    assert_eq!(made, 2);
    assert_eq!(a, b);
    assert_eq!(c.raw, 102);
    let steps = image.release();
    assert_eq!(steps.len(), 2);
}

#[test]
fn image_memory_is_tiled_and_device_local() {
    let r = image_allocation_request(&image_desc());
    assert!(matches!(r.location, MemoryLocation::GpuOnly));
    assert!(!r.linear);
}

#[test]
fn buffer_placement_follows_mapping() {
    let loc = |bits: u32| memory_location(&BufferUsage { bits });
    assert!(matches!(loc(BUFFER_MAP_READ), MemoryLocation::GpuToCpu));
    assert!(matches!(loc(BUFFER_MAP_READ | BUFFER_MAP_WRITE), MemoryLocation::GpuToCpu));
    assert!(matches!(loc(BUFFER_MAP_WRITE | BUFFER_UNIFORM), MemoryLocation::CpuToGpu));
    assert!(matches!(loc(BUFFER_STORAGE), MemoryLocation::GpuOnly));
    let r = buffer_allocation_request(&BufferDesc { size: 48, usage: BufferUsage { bits: BUFFER_MAP_WRITE } });
    assert!(matches!(r.location, MemoryLocation::CpuToGpu));
    assert!(r.linear);
}

#[test]
fn buffer_release_frees_before_destroying() {
    let desc = BufferDesc { size: 48, usage: BufferUsage { bits: BUFFER_STORAGE } };
    let buffer = Buffer::new(21, desc, Allocation::default());
    assert_eq!(buffer.raw(), 21);
    assert_eq!(buffer.desc().size, 48);
    let mut device = CountingDevice::default();
    device.run(buffer.release());
    assert_eq!(device.order, vec!["free", "buffer"]);
    assert_eq!(device.destroyed_buffers, vec![21]);
}

#[test]
fn usage_flags_map_to_driver_flags() {
    let b = |bits: u32| buffer_usage_flags(&BufferUsage { bits });
    assert_eq!(b(BUFFER_STORAGE), 0x20);
    assert_eq!(b(BUFFER_UNIFORM), 0x10);
    assert_eq!(b(BUFFER_INDEX), 0x40);
    assert_eq!(b(BUFFER_VERTEX), 0x80);
    assert_eq!(b(BUFFER_TRANSFER_DST | BUFFER_STORAGE), 0x2);
    assert_eq!(b(BUFFER_MAP_READ), 0);
    let i = |bits: u32| image_usage_flags(&ImageUsage { bits });
    assert_eq!(i(IMAGE_COLOR_ATTACHMENT), 0x10);
    assert_eq!(i(IMAGE_TRANSFER_SRC | IMAGE_SAMPLED), 0x1);
    assert_eq!(i(0), 0);
}

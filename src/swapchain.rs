//! The swapchain: its configuration, chosen from what the surface supports, and its
//! ring of presentable images.
use vstd::prelude::*;

use crate::image::{
    Image, ImageDesc, ImageView, ImageViewDesc, ReleaseStep, IMAGE_TYPE_2D, has_view, view_step,
    image_release_steps,
};
use crate::sync::Semaphore;
use crate::usage::{ImageUsage, IMAGE_COLOR_ATTACHMENT};
use crate::{ColorSpace, Extent2d, Extent3d, ImageFormat, PresentMode};

verus! {

/// Vulkan's `VK_FORMAT_B8G8R8A8_SRGB`.
pub const FORMAT_B8G8R8A8_SRGB: ImageFormat = 50;
/// Vulkan's `VK_COLOR_SPACE_SRGB_NONLINEAR_KHR`.
pub const COLOR_SPACE_SRGB_NONLINEAR: ColorSpace = 0;
/// Vulkan's `VkPresentModeKHR` values.
pub const PRESENT_MODE_IMMEDIATE: PresentMode = 0;
pub const PRESENT_MODE_MAILBOX: PresentMode = 1;
pub const PRESENT_MODE_FIFO: PresentMode = 2;
pub const PRESENT_MODE_FIFO_RELAXED: PresentMode = 3;
/// The number of swapchain images asked for, unless the surface allows fewer.
pub const PREFERRED_IMAGE_COUNT: u32 = 3;
/// A current extent of this width means the surface takes the swapchain's extent.
pub const EXTENT_UNDEFINED: u32 = 0xffff_ffff;

pub enum SwapchainError {
    Outdated,
}

/// What the surface reports of the extents and image counts it supports.
#[derive(Clone, Copy, Debug, PartialEq, Eq, Structural)]
pub struct SurfaceCapabilities {
    pub current_extent: Extent2d,
    pub min_image_extent: Extent2d,
    pub max_image_extent: Extent2d,
    /// Zero when there is no upper bound.
    pub max_image_count: u32,
}

#[derive(Clone, Copy, Debug, PartialEq, Eq, Structural)]
pub struct SurfaceFormat {
    pub format: ImageFormat,
    pub color_space: ColorSpace,
}

#[derive(Clone, Copy, Debug, PartialEq, Eq, Structural)]
pub struct SwapchainDesc {
    pub format: ImageFormat,
    pub color_space: ColorSpace,
    pub extent: Extent2d,
    pub image_count: u32,
    pub present_mode: PresentMode,
}

/// `v` brought into `[lo, hi]`; `hi` wins when the bounds cross.
pub open spec fn clamp(v: u32, lo: u32, hi: u32) -> u32 {
    let raised = if v < lo { lo } else { v };
    if raised > hi { hi } else { raised }
}

/// The surface's fixed extent when it reports one, else the requested extent
/// clamped to the supported range.
pub open spec fn swapchain_extent(caps: SurfaceCapabilities, width: u32, height: u32) -> Extent2d {
    if caps.current_extent.width != EXTENT_UNDEFINED {
        caps.current_extent
    } else {
        Extent2d {
            width: clamp(width, caps.min_image_extent.width, caps.max_image_extent.width),
            height: clamp(height, caps.min_image_extent.height, caps.max_image_extent.height),
        }
    }
}

fn clamp_u32(v: u32, lo: u32, hi: u32) -> (r: u32)
    ensures
        r == clamp(v, lo, hi),
{
    let raised = if v < lo { lo } else { v };
    if raised > hi { hi } else { raised }
}

pub fn make_swapchain_extent(caps: &SurfaceCapabilities, width: u32, height: u32) -> (r: Extent2d)
    ensures
        r == swapchain_extent(*caps, width, height),
{
    if caps.current_extent.width != EXTENT_UNDEFINED {
        caps.current_extent
    } else {
        Extent2d {
            width: clamp_u32(width, caps.min_image_extent.width, caps.max_image_extent.width),
            height: clamp_u32(height, caps.min_image_extent.height, caps.max_image_extent.height),
        }
    }
}

/// A requested size outside the supported range comes out at the nearest bound, and
/// one inside it comes out unchanged, when the surface reports no fixed extent.
pub proof fn lemma_resize_clamps(caps: SurfaceCapabilities, width: u32, height: u32)
    requires
        caps.current_extent.width == EXTENT_UNDEFINED,
        caps.min_image_extent.width <= caps.max_image_extent.width,
        caps.min_image_extent.height <= caps.max_image_extent.height,
    ensures
        ({
            let e = swapchain_extent(caps, width, height);
            &&& width < caps.min_image_extent.width ==> e.width == caps.min_image_extent.width
            &&& width > caps.max_image_extent.width ==> e.width == caps.max_image_extent.width
            &&& caps.min_image_extent.width <= width <= caps.max_image_extent.width ==> e.width == width
            &&& height < caps.min_image_extent.height ==> e.height == caps.min_image_extent.height
            &&& height > caps.max_image_extent.height ==> e.height == caps.max_image_extent.height
            &&& caps.min_image_extent.height <= height <= caps.max_image_extent.height ==> e.height
                == height
        }),
{
}

/// The present modes tried in order: relaxed then strict vertical sync with vsync on,
/// mailbox then immediate without.
pub open spec fn preferred_present_modes(vsync: bool) -> Seq<PresentMode> {
    if vsync {
        seq![PRESENT_MODE_FIFO_RELAXED, PRESENT_MODE_FIFO]
    } else {
        seq![PRESENT_MODE_MAILBOX, PRESENT_MODE_IMMEDIATE]
    }
}

/// The first preferred mode the surface supports, else FIFO, which every surface
/// supports.
pub open spec fn chosen_present_mode(vsync: bool, supported: Seq<PresentMode>) -> PresentMode {
    let preferred = preferred_present_modes(vsync);
    if supported.contains(preferred[0]) {
        preferred[0]
    } else if supported.contains(preferred[1]) {
        preferred[1]
    } else {
        PRESENT_MODE_FIFO
    }
}

/// Three images, or fewer when the surface allows fewer.
pub open spec fn chosen_image_count(caps: SurfaceCapabilities) -> u32 {
    if caps.max_image_count > 0 && caps.max_image_count < PREFERRED_IMAGE_COUNT {
        caps.max_image_count
    } else {
        PREFERRED_IMAGE_COUNT
    }
}

/// The one surface format swapchains are made with: 8-bit BGRA sRGB, nonlinear.
pub open spec fn srgb_surface_format() -> SurfaceFormat {
    SurfaceFormat { format: FORMAT_B8G8R8A8_SRGB, color_space: COLOR_SPACE_SRGB_NONLINEAR }
}

fn contains_mode(modes: &[PresentMode], mode: PresentMode) -> (r: bool)
    ensures
        r == modes@.contains(mode),
{
    let mut i: usize = 0;
    while i < modes.len()
        invariant
            0 <= i <= modes@.len(),
            forall|j: int| 0 <= j < i ==> modes@[j] != mode,
        decreases modes@.len() - i,
    {
        if modes[i] == mode {
            return true;
        }
        i = i + 1;
    }
    false
}

fn offers_srgb(formats: &[SurfaceFormat]) -> (r: bool)
    ensures
        r == formats@.contains(srgb_surface_format()),
{
    let mut i: usize = 0;
    while i < formats.len()
        invariant
            0 <= i <= formats@.len(),
            forall|j: int| 0 <= j < i ==> formats@[j] != srgb_surface_format(),
        decreases formats@.len() - i,
    {
        if formats[i].format == FORMAT_B8G8R8A8_SRGB && formats[i].color_space
            == COLOR_SPACE_SRGB_NONLINEAR {
            assert(formats@[i as int] == srgb_surface_format());
            return true;
        }
        i = i + 1;
    }
    false
}

/// A swapchain configuration the surface supports, or `None` when the surface does
/// not offer the sRGB format.
pub fn make_swapchain_desc(
    width: u32,
    height: u32,
    caps: &SurfaceCapabilities,
    formats: &[SurfaceFormat],
    present_modes: &[PresentMode],
    vsync: bool,
) -> (r: Option<SwapchainDesc>)
    ensures
        r is Some <==> formats@.contains(srgb_surface_format()),
        r matches Some(d) ==> {
            &&& d.format == FORMAT_B8G8R8A8_SRGB
            &&& d.color_space == COLOR_SPACE_SRGB_NONLINEAR
            &&& d.extent == swapchain_extent(*caps, width, height)
            &&& d.present_mode == chosen_present_mode(vsync, present_modes@)
            &&& d.image_count == chosen_image_count(*caps)
        },
{
    if !offers_srgb(formats) {
        return None;
    }
    let extent = make_swapchain_extent(caps, width, height);
    let (first, second) = if vsync {
        (PRESENT_MODE_FIFO_RELAXED, PRESENT_MODE_FIFO)
    } else {
        (PRESENT_MODE_MAILBOX, PRESENT_MODE_IMMEDIATE)
    };
    let present_mode = if contains_mode(present_modes, first) {
        first
    } else if contains_mode(present_modes, second) {
        second
    } else {
        PRESENT_MODE_FIFO
    };
    let image_count = if caps.max_image_count > 0 && caps.max_image_count < PREFERRED_IMAGE_COUNT {
        caps.max_image_count
    } else {
        PREFERRED_IMAGE_COUNT
    };
    Some(
        SwapchainDesc {
            format: FORMAT_B8G8R8A8_SRGB,
            color_space: COLOR_SPACE_SRGB_NONLINEAR,
            extent,
            image_count,
            present_mode,
        },
    )
}

/// An acquired swapchain image: its place in the ring, its driver handle and what it is.
#[derive(Clone, Copy, Debug, PartialEq, Eq, Structural)]
pub struct SwapchainImage {
    pub index: u32,
    pub image: u64,
    pub desc: ImageDesc,
}

/// What the driver is asked when the next image is acquired: the image-available
/// semaphore to signal, and no time limit.
#[derive(Clone, Copy, Debug, PartialEq, Eq, Structural)]
pub struct AcquireRequest {
    pub swapchain: u64,
    pub signal_semaphore: u64,
    pub timeout: u64,
}

/// What the driver is asked when an image is presented: the semaphore to wait on
/// and the image.
#[derive(Clone, Copy, Debug, PartialEq, Eq, Structural)]
pub struct PresentRequest {
    pub swapchain: u64,
    pub wait_semaphore: u64,
    pub image_index: u32,
}

/// What each swapchain image is: a single-layer 2D color attachment of the
/// swapchain's format and extent.
pub open spec fn swapchain_image_desc(desc: SwapchainDesc) -> ImageDesc {
    ImageDesc {
        image_type: IMAGE_TYPE_2D,
        format: desc.format,
        extent: Extent3d { width: desc.extent.width, height: desc.extent.height, depth: 1 },
        usage: ImageUsage { bits: IMAGE_COLOR_ATTACHMENT },
    }
}

/// The release steps of each image of `images`, in order.
pub open spec fn ring_release_steps(images: Seq<Image>) -> Seq<ReleaseStep>
    decreases images.len(),
{
    if images.len() == 0 {
        Seq::empty()
    } else {
        image_release_steps(images[0].views(), images[0].spec_allocation(), images[0].spec_raw())
            + ring_release_steps(images.drop_first())
    }
}

/// The ring of presentable images; the images belong to the driver's swapchain.
pub struct Swapchain {
    raw: u64,
    images: Vec<Image>,
}

impl Swapchain {
    pub closed spec fn spec_raw(&self) -> u64 {
        self.raw
    }

    pub closed spec fn images(&self) -> Seq<Image> {
        self.images@
    }

    /// The ring fits `u32` indices, and every image is well formed and borrowed:
    /// it owns no memory.
    pub open spec fn wf(&self) -> bool {
        &&& self.images().len() <= 0xffff_ffff
        &&& forall|i: int| 0 <= i < self.images().len() ==> (#[trigger] self.images()[i]).wf()
        &&& forall|i: int|
            0 <= i < self.images().len() ==> (#[trigger] self.images()[i]).spec_allocation() is None
    }

    /// The entry of the ring at `i`, as handed out on acquisition.
    pub open spec fn image_at(&self, i: int) -> SwapchainImage {
        SwapchainImage {
            index: i as u32,
            image: self.images()[i].spec_raw(),
            desc: self.images()[i].spec_desc(),
        }
    }

    /// The ring of the driver's swapchain `raw` made with `desc`, whose images are
    /// `images`, in the driver's order; none of them is owned here.
    pub fn new(raw: u64, desc: &SwapchainDesc, images: &[u64]) -> (r: Swapchain)
        requires
            images@.len() <= 0xffff_ffff,
        ensures
            r.wf(),
            r.spec_raw() == raw,
            r.images().len() == images@.len(),
            forall|i: int|
                0 <= i < images@.len() ==> (#[trigger] r.images()[i]).spec_raw() == images@[i]
                    && r.images()[i].spec_desc() == swapchain_image_desc(*desc)
                    && r.images()[i].views().len() == 0 && r.images()[i].spec_allocation() is None,
    {
        let image_desc = ImageDesc {
            image_type: IMAGE_TYPE_2D,
            format: desc.format,
            extent: Extent3d { width: desc.extent.width, height: desc.extent.height, depth: 1 },
            usage: ImageUsage { bits: IMAGE_COLOR_ATTACHMENT },
        };
        let mut ring: Vec<Image> = Vec::new();
        let n = images.len();
        let mut i: usize = 0;
        while i < n
            invariant
                n == images@.len(),
                n <= 0xffff_ffff,
                0 <= i <= n,
                image_desc == swapchain_image_desc(*desc),
                ring@.len() == i,
                forall|j: int|
                    0 <= j < i ==> (#[trigger] ring@[j]).spec_raw() == images@[j]
                        && ring@[j].spec_desc() == image_desc && ring@[j].views().len() == 0
                        && ring@[j].wf() && ring@[j].spec_allocation() is None,
            decreases n - i,
        {
            ring.push(Image::from_raw(images[i], image_desc));
            i = i + 1;
        }
        Swapchain { raw, images: ring }
    }

    pub fn raw(&self) -> (r: u64)
        ensures
            r == self.spec_raw(),
    {
        self.raw
    }

    pub fn len(&self) -> (r: usize)
        ensures
            r == self.images().len(),
    {
        self.images.len()
    }

    /// The view of ring image `index` made for `desc`; see [`Image::view`].
    pub fn image_view<F: FnOnce(ImageViewDesc) -> ImageView>(
        &mut self,
        index: u32,
        desc: ImageViewDesc,
        create: F,
    ) -> (r: ImageView)
        requires
            old(self).wf(),
            index < old(self).images().len(),
            create.requires((desc,)),
        ensures
            final(self).wf(),
            final(self).spec_raw() == old(self).spec_raw(),
            final(self).images().len() == old(self).images().len(),
            forall|i: int|
                0 <= i < old(self).images().len() && i != index ==> final(self).images()[i]
                    == old(self).images()[i],
            final(self).images()[index as int].spec_raw() == old(self).images()[index as int].spec_raw(),
            final(self).images()[index as int].spec_desc() == old(self).images()[index as int].spec_desc(),
            view_step(old(self).images()[index as int].views(), desc, final(self).images()[index as int].views(), r),
            !has_view(old(self).images()[index as int].views(), desc) ==> create.ensures((desc,), r),
    {
        let i = index as usize;
        let r = self.images[i].view(desc, create);
        r
    }

    /// Takes the swapchain apart into the steps that release it: the views of each
    /// image, ring order, then the driver's swapchain.
    pub fn release(self) -> (r: Vec<ReleaseStep>)
        ensures
            r@ == ring_release_steps(self.images()).push(ReleaseStep::DestroySwapchain(self.spec_raw())),
    {
        let Swapchain { raw, images } = self;
        let ghost all = images@;
        let mut steps: Vec<ReleaseStep> = Vec::new();
        let mut ring = images;
        while ring.len() > 0
            invariant
                steps@ + ring_release_steps(ring@) == ring_release_steps(all),
            decreases ring@.len(),
        {
            let ghost before = ring@;
            let image = ring.remove(0);
            let mut image_steps = image.release();
            proof {
                assert(ring@ =~= before.drop_first());
                assert(steps@ + image_steps@ + ring_release_steps(ring@) =~= steps@ + ring_release_steps(
                    before,
                ));
            }
            steps.append(&mut image_steps);
        }
        proof {
            assert(steps@ =~= ring_release_steps(all));
        }
        steps.push(ReleaseStep::DestroySwapchain(raw));
        steps
    }

    /// Acquires the next image through `acquire`, asked to signal `semaphore`; an
    /// outdated swapchain is handed back as such.
    pub fn acquire_next_image<F: FnOnce(AcquireRequest) -> Result<u32, SwapchainError>>(
        &self,
        semaphore: &Semaphore,
        acquire: F,
    ) -> (r: Result<SwapchainImage, SwapchainError>)
        requires
            self.wf(),
            acquire.requires(
                (AcquireRequest { swapchain: self.spec_raw(), signal_semaphore: semaphore.raw, timeout: u64::MAX },),
            ),
            forall|q: AcquireRequest, res: Result<u32, SwapchainError>|
                acquire.ensures((q,), res) ==> (res matches Ok(i) ==> i < self.images().len()),
        ensures
            ({
                let q = AcquireRequest {
                    swapchain: self.spec_raw(),
                    signal_semaphore: semaphore.raw,
                    timeout: u64::MAX,
                };
                &&& r matches Ok(img) ==> acquire.ensures((q,), Ok(img.index)) && img == self.image_at(
                    img.index as int,
                )
                &&& r is Err ==> acquire.ensures((q,), Err(SwapchainError::Outdated))
            }),
    {
        let request = AcquireRequest { swapchain: self.raw, signal_semaphore: semaphore.raw, timeout: u64::MAX };
        let result = acquire(request);
        match result {
            Ok(index) => {
                let i = index as usize;
                Ok(
                    SwapchainImage {
                        index,
                        image: self.images[i].raw(),
                        desc: self.images[i].desc(),
                    },
                )
            },
            Err(e) => {
                assert(result == Err::<u32, SwapchainError>(SwapchainError::Outdated));
                Err(e)
            },
        }
    }

    /// Presents `image` through `present`, asked to wait on `render_finished`; an
    /// outdated swapchain is handed back as such.
    pub fn present_image<F: FnOnce(PresentRequest) -> Result<(), SwapchainError>>(
        &self,
        image: &SwapchainImage,
        render_finished: &Semaphore,
        present: F,
    ) -> (r: Result<(), SwapchainError>)
        requires
            present.requires(
                (PresentRequest { swapchain: self.spec_raw(), wait_semaphore: render_finished.raw, image_index: image.index },),
            ),
        ensures
            present.ensures(
                (PresentRequest { swapchain: self.spec_raw(), wait_semaphore: render_finished.raw, image_index: image.index },),
                r,
            ),
    {
        let request = PresentRequest {
            swapchain: self.raw,
            wait_semaphore: render_finished.raw,
            image_index: image.index,
        };
        present(request)
    }
}

} // verus!

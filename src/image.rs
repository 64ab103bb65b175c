//! Images: owned ones, whose memory comes from the allocator, and borrowed ones,
//! such as swapchain images; each keeps the views made of it.
use vstd::prelude::*;

use gpu_allocator::vulkan::Allocation;
use gpu_allocator::MemoryLocation;

use crate::usage::ImageUsage;
use crate::{Extent3d, ImageAspectFlags, ImageFormat, ImageType, ImageViewType};

verus! {

/// `gpu_allocator::vulkan::Allocation`, held opaque: an image or buffer carries its
/// memory until it is handed back to the allocator.
#[verifier::external_type_specification]
#[verifier::external_body]
pub struct ExAllocation(Allocation);

/// Vulkan's `VK_IMAGE_TYPE_2D`.
pub const IMAGE_TYPE_2D: ImageType = 1;
/// Vulkan's `VK_IMAGE_VIEW_TYPE_2D`.
pub const IMAGE_VIEW_TYPE_2D: ImageViewType = 1;
/// Vulkan's `VK_IMAGE_ASPECT_COLOR_BIT`.
pub const IMAGE_ASPECT_COLOR: ImageAspectFlags = 1;

#[derive(Clone, Copy, Debug, PartialEq, Eq, Structural)]
pub struct ImageDesc {
    pub image_type: ImageType,
    pub format: ImageFormat,
    pub extent: Extent3d,
    pub usage: ImageUsage,
}

#[derive(Clone, Copy, Debug, PartialEq, Eq, Structural)]
pub struct ImageViewDesc {
    pub view_type: ImageViewType,
    pub aspect_mask: ImageAspectFlags,
    pub format: ImageFormat,
    pub base_mip_level: u32,
    pub level_count: u32,
}

/// A view of an image, by its driver handle.
#[derive(Clone, Copy, Debug, PartialEq, Eq, Structural)]
pub struct ImageView {
    pub raw: u64,
}

/// What the allocator is asked for when a resource gets memory.
#[derive(Clone, Copy, Debug)]
pub struct AllocationRequest {
    pub location: MemoryLocation,
    /// Linear (buffer) rather than tiled (image) placement.
    pub linear: bool,
}

/// One step of releasing a resource, to be carried out in order.
pub enum ReleaseStep {
    DestroyImageView(u64),
    FreeAllocation(Allocation),
    DestroyImage(u64),
    DestroyBuffer(u64),
    DestroySwapchain(u64),
}

/// Image memory is always tiled and device-local.
pub fn image_allocation_request(desc: &ImageDesc) -> (r: AllocationRequest)
    ensures
        r.location == MemoryLocation::GpuOnly,
        !r.linear,
{
    AllocationRequest { location: MemoryLocation::GpuOnly, linear: false }
}

/// Whether some view of `views` was made for `desc`.
pub open spec fn has_view(views: Seq<(ImageViewDesc, ImageView)>, desc: ImageViewDesc) -> bool {
    exists|i: int| 0 <= i < views.len() && views[i].0 == desc
}

/// The view stored for `desc` among `views`.
pub open spec fn stored_view(views: Seq<(ImageViewDesc, ImageView)>, desc: ImageViewDesc) -> ImageView {
    views[choose|i: int| 0 <= i < views.len() && views[i].0 == desc].1
}

/// One request for a view of `desc` on an image whose views go from `pre` to `post`
/// and which hands back `r`: the stored view when one was made for an equal
/// descriptor, else a new view, which is kept.
pub open spec fn view_step(
    pre: Seq<(ImageViewDesc, ImageView)>,
    desc: ImageViewDesc,
    post: Seq<(ImageViewDesc, ImageView)>,
    r: ImageView,
) -> bool {
    if has_view(pre, desc) {
        post == pre && r == stored_view(pre, desc)
    } else {
        post == pre.push((desc, r))
    }
}

/// No two of `views` were made for equal descriptors.
pub open spec fn distinct_views(views: Seq<(ImageViewDesc, ImageView)>) -> bool {
    forall|i: int, j: int| 0 <= i < views.len() && 0 <= j < views.len() && i != j ==> views[i].0 != views[j].0
}

/// Asking an image twice for a view of equal descriptors hands back the same view,
/// and the second request makes none.
pub proof fn lemma_equal_descs_share_view(
    v0: Seq<(ImageViewDesc, ImageView)>,
    d1: ImageViewDesc,
    v1: Seq<(ImageViewDesc, ImageView)>,
    r1: ImageView,
    d2: ImageViewDesc,
    v2: Seq<(ImageViewDesc, ImageView)>,
    r2: ImageView,
)
    requires
        distinct_views(v0),
        view_step(v0, d1, v1, r1),
        view_step(v1, d2, v2, r2),
        d1 == d2,
    ensures
        r2 == r1,
        v2 == v1,
        has_view(v1, d2),
{
    if has_view(v0, d1) {
        let c = choose|c: int| 0 <= c < v0.len() && v0[c].0 == d1;
        assert(v0[c].1 == r1);
    } else {
        let last = v1.len() - 1;
        assert(v1[last] == (d1, r1));
        assert(has_view(v1, d2));
        let c = choose|c: int| 0 <= c < v1.len() && v1[c].0 == d2;
        if c != last {
            assert(v1[c] == v0[c]);
        }
    }
}

/// The steps that release an image holding `views`: its views first, in the order
/// they were made, then, for an owned image only, its memory and the image itself.
pub open spec fn image_release_steps(
    views: Seq<(ImageViewDesc, ImageView)>,
    allocation: Option<Allocation>,
    raw: u64,
) -> Seq<ReleaseStep> {
    let destroy_views = views.map_values(
        |v: (ImageViewDesc, ImageView)| ReleaseStep::DestroyImageView(v.1.raw),
    );
    match allocation {
        Some(a) => destroy_views.push(ReleaseStep::FreeAllocation(a)).push(
            ReleaseStep::DestroyImage(raw),
        ),
        None => destroy_views,
    }
}

pub struct Image {
    raw: u64,
    desc: ImageDesc,
    allocation: Option<Allocation>,
    views: Vec<(ImageViewDesc, ImageView)>,
}

impl Image {
    pub closed spec fn spec_raw(&self) -> u64 {
        self.raw
    }

    pub closed spec fn spec_desc(&self) -> ImageDesc {
        self.desc
    }

    /// The memory an owned image holds; none for a borrowed one.
    pub closed spec fn spec_allocation(&self) -> Option<Allocation> {
        self.allocation
    }

    /// The views made so far, in the order they were made.
    pub closed spec fn views(&self) -> Seq<(ImageViewDesc, ImageView)> {
        self.views@
    }

    /// No two views were made for equal descriptors.
    pub open spec fn wf(&self) -> bool {
        distinct_views(self.views())
    }

    /// An image that owns `allocation`, bound to it by the caller.
    pub fn new(raw: u64, desc: ImageDesc, allocation: Allocation) -> (r: Image)
        ensures
            r.wf(),
            r.spec_raw() == raw,
            r.spec_desc() == desc,
            r.spec_allocation() == Some(allocation),
            r.views().len() == 0,
    {
        Image { raw, desc, allocation: Some(allocation), views: Vec::new() }
    }

    /// An image that someone else owns, such as a swapchain image: releasing it
    /// destroys only the views made of it.
    pub fn from_raw(raw: u64, desc: ImageDesc) -> (r: Image)
        ensures
            r.wf(),
            r.spec_raw() == raw,
            r.spec_desc() == desc,
            r.spec_allocation() == Option::<Allocation>::None,
            r.views().len() == 0,
    {
        Image { raw, desc, allocation: None, views: Vec::new() }
    }

    pub fn raw(&self) -> (r: u64)
        ensures
            r == self.spec_raw(),
    {
        self.raw
    }

    pub fn desc(&self) -> (r: ImageDesc)
        ensures
            r == self.spec_desc(),
    {
        self.desc
    }

    pub fn is_owned(&self) -> (r: bool)
        ensures
            r == self.spec_allocation().is_some(),
    {
        self.allocation.is_some()
    }

    /// The view of this image made for `desc`: the one made before for an equal
    /// descriptor, else a new one from `create`, which is kept.
    pub fn view<F: FnOnce(ImageViewDesc) -> ImageView>(&mut self, desc: ImageViewDesc, create: F) -> (r:
        ImageView)
        requires
            old(self).wf(),
            create.requires((desc,)),
        ensures
            final(self).wf(),
            final(self).spec_raw() == old(self).spec_raw(),
            final(self).spec_desc() == old(self).spec_desc(),
            final(self).spec_allocation() == old(self).spec_allocation(),
            view_step(old(self).views(), desc, final(self).views(), r),
            !has_view(old(self).views(), desc) ==> create.ensures((desc,), r),
    {
        let n = self.views.len();
        let mut i: usize = 0;
        while i < n
            invariant
                n == self.views.len(),
                0 <= i <= n,
                forall|j: int| 0 <= j < i ==> self.views@[j].0 != desc,
                self.wf(),
                self.views@ == old(self).views@,
                self.raw == old(self).raw,
                self.desc == old(self).desc,
                self.allocation == old(self).allocation,
            decreases n - i,
        {
            if self.views[i].0 == desc {
                proof {
                    let c = choose|c: int| 0 <= c < self.views@.len() && self.views@[c].0 == desc;
                    assert(self.views@[i as int].0 == desc);
                    if c != i {
                        assert(self.views()[c].0 != self.views()[i as int].0);
                    }
                }
                return self.views[i].1;
            }
            i = i + 1;
        }
        let v = create(desc);
        let ghost before = self.views@;
        self.views.push((desc, v));
        proof {
            assert forall|a: int, b: int|
                0 <= a < self.views().len() && 0 <= b < self.views().len() && a != b implies self.views()[a].0
                != self.views()[b].0 by {
                if a < n && b < n {
                    assert(before[a] == self.views@[a] && before[b] == self.views@[b]);
                    assert(old(self).views()[a].0 != old(self).views()[b].0);
                }
            }
        }
        v
    }

    /// Takes the image apart into the steps that release it; see [`image_release_steps`].
    pub fn release(self) -> (r: Vec<ReleaseStep>)
        ensures
            r@ == image_release_steps(self.views(), self.spec_allocation(), self.spec_raw()),
    {
        let Image { raw, desc: _, allocation, views } = self;
        let mut steps: Vec<ReleaseStep> = Vec::new();
        let n = views.len();
        let mut i: usize = 0;
        while i < n
            invariant
                n == views.len(),
                0 <= i <= n,
                steps@ == views@.subrange(0, i as int).map_values(
                    |v: (ImageViewDesc, ImageView)| ReleaseStep::DestroyImageView(v.1.raw),
                ),
            decreases n - i,
        {
            steps.push(ReleaseStep::DestroyImageView(views[i].1.raw));
            proof {
                assert(views@.subrange(0, i + 1) =~= views@.subrange(0, i as int).push(views@[i as int]));
            }
            i = i + 1;
        }
        proof {
            assert(views@.subrange(0, n as int) =~= views@);
        }
        match allocation {
            Some(a) => {
                steps.push(ReleaseStep::FreeAllocation(a));
                steps.push(ReleaseStep::DestroyImage(raw));
            },
            None => {},
        }
        steps
    }
}

/// Releasing a borrowed image never frees memory; releasing an owned image frees its
/// memory exactly once, after its views are destroyed and before the image is.
pub proof fn lemma_release_frees_only_owned(
    views: Seq<(ImageViewDesc, ImageView)>,
    allocation: Option<Allocation>,
    raw: u64,
)
    ensures
        ({
            let steps = image_release_steps(views, allocation, raw);
            &&& allocation is None ==> forall|i: int|
                0 <= i < steps.len() ==> !(#[trigger] steps[i] is FreeAllocation)
            &&& allocation is Some ==> {
                &&& steps.len() == views.len() + 2
                &&& steps[views.len() as int] == ReleaseStep::FreeAllocation(allocation->0)
                &&& steps[views.len() as int + 1] == ReleaseStep::DestroyImage(raw)
                &&& forall|i: int|
                    0 <= i < steps.len() && i != views.len() ==> !(#[trigger] steps[i] is FreeAllocation)
            }
        }),
{
    let steps = image_release_steps(views, allocation, raw);
    let destroy_views = views.map_values(
        |v: (ImageViewDesc, ImageView)| ReleaseStep::DestroyImageView(v.1.raw),
    );
    assert forall|i: int| 0 <= i < destroy_views.len() implies destroy_views[i] is DestroyImageView by {}
}

} // verus!

//! Render passes: the attachment layout built from a descriptor, and the cache that
//! shares one render pass among equal descriptors.
use vstd::prelude::*;

use std::sync::Arc;

use crate::cache::{CacheKey, ResourceCache, cache_step, distinct_keys, has_key};
use crate::{ImageFormat, ImageLayout};

verus! {

/// Vulkan's `VK_ATTACHMENT_UNUSED`: a color slot with no attachment.
pub const ATTACHMENT_UNUSED: u32 = 0xffff_ffff;
/// Vulkan's `VK_IMAGE_LAYOUT_UNDEFINED`.
pub const IMAGE_LAYOUT_UNDEFINED: ImageLayout = 0;
/// Vulkan's `VK_IMAGE_LAYOUT_COLOR_ATTACHMENT_OPTIMAL`.
pub const IMAGE_LAYOUT_COLOR_ATTACHMENT_OPTIMAL: ImageLayout = 2;
/// Vulkan's `VK_IMAGE_LAYOUT_PRESENT_SRC_KHR`.
pub const IMAGE_LAYOUT_PRESENT_SRC: ImageLayout = 1000001002;

#[derive(Clone, Copy, Debug, PartialEq, Eq, Structural)]
pub struct ColorAttachmentDesc {
    pub format: ImageFormat,
    pub layout: ImageLayout,
}

/// Color slots of a render pass; an empty slot is `None`.
pub struct RenderPassDesc<'a> {
    pub color_attachments: &'a [Option<ColorAttachmentDesc>],
}

/// One attachment of a render pass. Its contents are cleared on load (so it starts
/// from an undefined layout), stored at the end, single-sampled, and left in
/// `final_layout`.
#[derive(Clone, Copy, Debug, PartialEq, Eq, Structural)]
pub struct AttachmentDescription {
    pub format: ImageFormat,
    pub final_layout: ImageLayout,
}

/// A color slot of the subpass: the attachment it uses and the layout it uses it in.
#[derive(Clone, Copy, Debug, PartialEq, Eq, Structural)]
pub struct AttachmentReference {
    pub attachment: u32,
    pub layout: ImageLayout,
}

/// The attachments of a single-subpass render pass and the subpass's color slots.
pub struct RenderPassLayout {
    pub attachments: Vec<AttachmentDescription>,
    pub color_refs: Vec<AttachmentReference>,
}

/// The attachments of the occupied slots, in slot order.
pub open spec fn layout_attachments(slots: Seq<Option<ColorAttachmentDesc>>) -> Seq<
    AttachmentDescription,
>
    decreases slots.len(),
{
    if slots.len() == 0 {
        Seq::empty()
    } else {
        let before = layout_attachments(slots.drop_last());
        match slots.last() {
            Some(c) => before.push(AttachmentDescription { format: c.format, final_layout: c.layout }),
            None => before,
        }
    }
}

/// The subpass's slot for `slots[i]`: the attachment made for it, or none.
pub open spec fn layout_ref(slots: Seq<Option<ColorAttachmentDesc>>, i: int) -> AttachmentReference {
    match slots[i] {
        Some(c) => AttachmentReference {
            attachment: layout_attachments(slots.subrange(0, i)).len() as u32,
            layout: c.layout,
        },
        None => AttachmentReference { attachment: ATTACHMENT_UNUSED, layout: IMAGE_LAYOUT_UNDEFINED },
    }
}

proof fn lemma_attachments_len(slots: Seq<Option<ColorAttachmentDesc>>)
    ensures
        layout_attachments(slots).len() <= slots.len(),
    decreases slots.len(),
{
    if slots.len() > 0 {
        lemma_attachments_len(slots.drop_last());
    }
}

/// Lays out a render pass: each occupied slot gets the next attachment, each empty
/// slot is marked unused.
pub fn render_pass_layout(slots: &[Option<ColorAttachmentDesc>]) -> (r: RenderPassLayout)
    requires
        slots@.len() < 0xffff_ffff,
    ensures
        r.attachments@ == layout_attachments(slots@),
        r.color_refs@.len() == slots@.len(),
        forall|i: int| 0 <= i < slots@.len() ==> #[trigger] r.color_refs@[i] == layout_ref(slots@, i),
{
    let mut attachments: Vec<AttachmentDescription> = Vec::new();
    let mut color_refs: Vec<AttachmentReference> = Vec::new();
    let n = slots.len();
    let mut i: usize = 0;
    while i < n
        invariant
            n == slots@.len(),
            n < 0xffff_ffff,
            0 <= i <= n,
            attachments@ == layout_attachments(slots@.subrange(0, i as int)),
            color_refs@.len() == i,
            forall|j: int| 0 <= j < i ==> #[trigger] color_refs@[j] == layout_ref(slots@, j),
        decreases n - i,
    {
        proof {
            lemma_attachments_len(slots@.subrange(0, i as int));
            assert(slots@.subrange(0, i + 1).drop_last() =~= slots@.subrange(0, i as int));
        }
        match slots[i] {
            Some(c) => {
                color_refs.push(
                    AttachmentReference { attachment: attachments.len() as u32, layout: c.layout },
                );
                attachments.push(AttachmentDescription { format: c.format, final_layout: c.layout });
            },
            None => {
                color_refs.push(
                    AttachmentReference { attachment: ATTACHMENT_UNUSED, layout: IMAGE_LAYOUT_UNDEFINED },
                );
            },
        }
        i = i + 1;
    }
    proof {
        assert(slots@.subrange(0, n as int) =~= slots@);
    }
    RenderPassLayout { attachments, color_refs }
}

/// A render pass descriptor as a cache key: its slots, compared one by one.
pub struct RenderPassKey {
    pub color_attachments: Vec<Option<ColorAttachmentDesc>>,
}

impl View for RenderPassKey {
    type V = Seq<Option<ColorAttachmentDesc>>;

    open spec fn view(&self) -> Seq<Option<ColorAttachmentDesc>> {
        self.color_attachments@
    }
}

fn same_slot(a: &Option<ColorAttachmentDesc>, b: &Option<ColorAttachmentDesc>) -> (r: bool)
    ensures
        r == (*a == *b),
{
    match (a, b) {
        (Some(x), Some(y)) => *x == *y,
        (None, None) => true,
        _ => false,
    }
}

impl CacheKey for RenderPassKey {
    fn same_key(&self, other: &Self) -> (r: bool) {
        let n = self.color_attachments.len();
        if n != other.color_attachments.len() {
            return false;
        }
        let mut i: usize = 0;
        while i < n
            invariant
                n == self.color_attachments@.len(),
                n == other.color_attachments@.len(),
                0 <= i <= n,
                forall|j: int| 0 <= j < i ==> self.color_attachments@[j] == other.color_attachments@[j],
            decreases n - i,
        {
            if !same_slot(&self.color_attachments[i], &other.color_attachments[i]) {
                return false;
            }
            i = i + 1;
        }
        proof {
            assert(self.color_attachments@ =~= other.color_attachments@);
        }
        true
    }
}

impl RenderPassKey {
    pub fn from_desc(desc: &RenderPassDesc) -> (r: RenderPassKey)
        ensures
            r@ == desc.color_attachments@,
    {
        let mut slots: Vec<Option<ColorAttachmentDesc>> = Vec::new();
        let n = desc.color_attachments.len();
        let mut i: usize = 0;
        while i < n
            invariant
                n == desc.color_attachments@.len(),
                0 <= i <= n,
                slots@ == desc.color_attachments@.subrange(0, i as int),
            decreases n - i,
        {
            slots.push(desc.color_attachments[i]);
            proof {
                assert(desc.color_attachments@.subrange(0, i + 1) =~= slots@);
            }
            i = i + 1;
        }
        proof {
            assert(desc.color_attachments@.subrange(0, n as int) =~= desc.color_attachments@);
        }
        RenderPassKey { color_attachments: slots }
    }
}

/// Whether `l` is the layout of a render pass with color slots `slots`.
pub open spec fn is_layout_of(l: RenderPassLayout, slots: Seq<Option<ColorAttachmentDesc>>) -> bool {
    &&& l.attachments@ == layout_attachments(slots)
    &&& l.color_refs@.len() == slots.len()
    &&& forall|i: int| 0 <= i < slots.len() ==> #[trigger] l.color_refs@[i] == layout_ref(slots, i)
}

/// Render passes shared among equal descriptors; `T` is the caller's render pass object.
pub struct RenderPassCache<T> {
    cache: ResourceCache<RenderPassKey, T>,
}

impl<T> RenderPassCache<T> {
    pub closed spec fn wf(&self) -> bool {
        self.cache.wf()
    }

    /// The cached render passes by their slots, least recently used first.
    pub closed spec fn entries(&self) -> Seq<(Seq<Option<ColorAttachmentDesc>>, Arc<T>)> {
        self.cache.entries()
    }

    pub closed spec fn spec_capacity(&self) -> nat {
        self.cache.spec_capacity()
    }

    /// The entries of a well-formed cache have distinct keys and fit its capacity,
    /// which is positive.
    pub proof fn lemma_entries_valid(&self)
        requires
            self.wf(),
        ensures
            self.spec_capacity() > 0,
            self.entries().len() <= self.spec_capacity(),
            distinct_keys(self.entries()),
    {
        self.cache.lemma_entries_valid();
    }

    /// A cache holding at most `size` render passes.
    pub fn new(size: usize) -> (r: Self)
        requires
            size > 0,
        ensures
            r.wf(),
            r.entries().len() == 0,
            r.spec_capacity() == size,
    {
        RenderPassCache { cache: ResourceCache::new(size) }
    }

    /// The render pass for `desc`: the cached one for equal slots, else one made by
    /// `create` from the pass's layout and cached, evicting the least recently used.
    pub fn get_or_create<F: FnOnce(RenderPassLayout) -> T>(
        &mut self,
        desc: &RenderPassDesc,
        create: F,
    ) -> (r: Arc<T>)
        requires
            old(self).wf(),
            desc.color_attachments@.len() < 0xffff_ffff,
            forall|l: RenderPassLayout| create.requires((l,)),
        ensures
            final(self).wf(),
            final(self).spec_capacity() == old(self).spec_capacity(),
            cache_step(
                old(self).entries(),
                old(self).spec_capacity(),
                desc.color_attachments@,
                final(self).entries(),
                r,
            ),
            !has_key(old(self).entries(), desc.color_attachments@) ==> exists|l: RenderPassLayout|
                is_layout_of(l, desc.color_attachments@) && create.ensures((l,), *r),
    {
        let key = RenderPassKey::from_desc(desc);
        let layout = render_pass_layout(desc.color_attachments);
        let ghost made = layout;
        let make = move || -> (t: T)
            requires
                create.requires((layout,)),
            ensures
                create.ensures((made,), t),
        {
            create(layout)
        };
        let r = self.cache.get_or_create(key, make);
        proof {
            if !has_key(old(self).entries(), desc.color_attachments@) {
                assert(make.ensures((), *r));
                assert(create.ensures((made,), *r));
                assert(is_layout_of(made, desc.color_attachments@));
            }
        }
        r
    }
}

} // verus!

//! Framebuffers, shared among equal descriptors by a cache.
use vstd::prelude::*;

use std::sync::Arc;

use crate::cache::{CacheKey, ResourceCache, cache_step, distinct_keys, has_key};
use crate::image::ImageView;
use crate::Extent2d;

verus! {

pub struct Attachment {
    pub image_view: ImageView,
}

pub struct FramebufferDesc<'a> {
    /// The render pass, by its driver handle.
    pub render_pass: u64,
    pub attachments: &'a [Attachment],
    pub extent: Extent2d,
}

/// What identifies a framebuffer: its render pass, the driver handles of its image
/// views, its size and its layer count (always one).
pub struct FramebufferKey {
    pub attachments: Vec<u64>,
    pub render_pass: u64,
    pub width: u32,
    pub height: u32,
    pub layers: u32,
}

impl View for FramebufferKey {
    type V = (Seq<u64>, u64, u32, u32, u32);

    open spec fn view(&self) -> (Seq<u64>, u64, u32, u32, u32) {
        (self.attachments@, self.render_pass, self.width, self.height, self.layers)
    }
}

/// The key of a framebuffer descriptor.
pub open spec fn framebuffer_key(desc: FramebufferDesc) -> (Seq<u64>, u64, u32, u32, u32) {
    (
        desc.attachments@.map_values(|a: Attachment| a.image_view.raw),
        desc.render_pass,
        desc.extent.width,
        desc.extent.height,
        1,
    )
}

impl CacheKey for FramebufferKey {
    fn same_key(&self, other: &Self) -> (r: bool) {
        if self.render_pass != other.render_pass || self.width != other.width || self.height
            != other.height || self.layers != other.layers {
            return false;
        }
        let n = self.attachments.len();
        if n != other.attachments.len() {
            return false;
        }
        let mut i: usize = 0;
        while i < n
            invariant
                n == self.attachments@.len(),
                n == other.attachments@.len(),
                0 <= i <= n,
                forall|j: int| 0 <= j < i ==> self.attachments@[j] == other.attachments@[j],
            decreases n - i,
        {
            if self.attachments[i] != other.attachments[i] {
                return false;
            }
            i = i + 1;
        }
        proof {
            assert(self.attachments@ =~= other.attachments@);
        }
        true
    }
}

impl FramebufferKey {
    pub fn from_desc(desc: &FramebufferDesc) -> (r: FramebufferKey)
        ensures
            r@ == framebuffer_key(*desc),
    {
        let mut views: Vec<u64> = Vec::new();
        let n = desc.attachments.len();
        let mut i: usize = 0;
        while i < n
            invariant
                n == desc.attachments@.len(),
                0 <= i <= n,
                views@ == desc.attachments@.subrange(0, i as int).map_values(
                    |a: Attachment| a.image_view.raw,
                ),
            decreases n - i,
        {
            views.push(desc.attachments[i].image_view.raw);
            proof {
                assert(desc.attachments@.subrange(0, i + 1) =~= desc.attachments@.subrange(
                    0,
                    i as int,
                ).push(desc.attachments@[i as int]));
            }
            i = i + 1;
        }
        proof {
            assert(desc.attachments@.subrange(0, n as int) =~= desc.attachments@);
        }
        FramebufferKey {
            attachments: views,
            render_pass: desc.render_pass,
            width: desc.extent.width,
            height: desc.extent.height,
            layers: 1,
        }
    }
}

/// Framebuffers shared among equal descriptors; `T` is the caller's framebuffer object.
pub struct FramebufferCache<T> {
    cache: ResourceCache<FramebufferKey, T>,
}

impl<T> FramebufferCache<T> {
    pub closed spec fn wf(&self) -> bool {
        self.cache.wf()
    }

    /// The cached framebuffers by their keys, least recently used first.
    pub closed spec fn entries(&self) -> Seq<((Seq<u64>, u64, u32, u32, u32), Arc<T>)> {
        self.cache.entries()
    }

    pub closed spec fn spec_capacity(&self) -> nat {
        self.cache.spec_capacity()
    }

    /// The entries of a well-formed cache have distinct keys and fit its capacity,
    /// which is positive.
    pub proof fn lemma_entries_valid(&self)
        requires
            self.wf(),
        ensures
            self.spec_capacity() > 0,
            self.entries().len() <= self.spec_capacity(),
            distinct_keys(self.entries()),
    {
        self.cache.lemma_entries_valid();
    }

    /// A cache holding at most `size` framebuffers.
    pub fn new(size: usize) -> (r: Self)
        requires
            size > 0,
        ensures
            r.wf(),
            r.entries().len() == 0,
            r.spec_capacity() == size,
    {
        FramebufferCache { cache: ResourceCache::new(size) }
    }

    /// The framebuffer for `desc`: the cached one for an equal key, else one made by
    /// `create` from the key and cached, evicting the least recently used.
    pub fn get_or_create<F: FnOnce(FramebufferKey) -> T>(
        &mut self,
        desc: &FramebufferDesc,
        create: F,
    ) -> (r: Arc<T>)
        requires
            old(self).wf(),
            forall|k: FramebufferKey| create.requires((k,)),
        ensures
            final(self).wf(),
            final(self).spec_capacity() == old(self).spec_capacity(),
            cache_step(
                old(self).entries(),
                old(self).spec_capacity(),
                framebuffer_key(*desc),
                final(self).entries(),
                r,
            ),
            !has_key(old(self).entries(), framebuffer_key(*desc)) ==> exists|k: FramebufferKey|
                k@ == framebuffer_key(*desc) && create.ensures((k,), *r),
    {
        let key = FramebufferKey::from_desc(desc);
        let info = FramebufferKey::from_desc(desc);
        let ghost made = info;
        let make = move || -> (t: T)
            requires
                create.requires((info,)),
            ensures
                create.ensures((made,), t),
        {
            create(info)
        };
        let r = self.cache.get_or_create(key, make);
        proof {
            if !has_key(old(self).entries(), framebuffer_key(*desc)) {
                assert(make.ensures((), *r));
                assert(create.ensures((made,), *r));
            }
        }
        r
    }
}

} // verus!

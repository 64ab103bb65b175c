use std::cell::Cell;
use std::sync::Arc;

use blick::cache::ResourceCache;
use blick::framebuffer::{Attachment, FramebufferCache, FramebufferDesc};
use blick::image::ImageView;
use blick::render_pass::{ColorAttachmentDesc, RenderPassCache, RenderPassDesc, RenderPassKey};
use blick::Extent2d;

fn slots(format: i32) -> Vec<Option<ColorAttachmentDesc>> {
    vec![Some(ColorAttachmentDesc { format, layout: 2 })]
}

#[test]
fn render_pass_cache_evicts_first_of_seventeen() {
    let made = Cell::new(0u32);
    let mut cache: RenderPassCache<u32> = RenderPassCache::new(16);
    let descs: Vec<Vec<Option<ColorAttachmentDesc>>> = (1..=17).map(slots).collect();
    let mut handles = Vec::new();
    for d in &descs {
        let h = cache.get_or_create(&RenderPassDesc { color_attachments: d }, |layout| {
            made.set(made.get() + 1);
            layout.attachments[0].format as u32
        });
        handles.push(h);
    }
    assert_eq!(made.get(), 17);

    let d2 = cache.get_or_create(&RenderPassDesc { color_attachments: &descs[1] }, |_| {
        made.set(made.get() + 1);
        0
    });
    assert_eq!(made.get(), 17, "D2 must be a hit");
    assert!(Arc::ptr_eq(&d2, &handles[1]));

    let d1 = cache.get_or_create(&RenderPassDesc { color_attachments: &descs[0] }, |_| {
        made.set(made.get() + 1);
        99
    });
    assert_eq!(made.get(), 18, "D1 must be a miss");
    assert!(!Arc::ptr_eq(&d1, &handles[0]));
    assert_eq!(*d1, 99);
}

#[test]
fn equal_descriptors_share_one_render_pass() {
    let mut cache: RenderPassCache<u32> = RenderPassCache::new(16);
    let a = vec![Some(ColorAttachmentDesc { format: 50, layout: 2 }), None];
    let b = vec![Some(ColorAttachmentDesc { format: 50, layout: 2 }), None];
    let mut made = 0;
    let r1 = cache.get_or_create(&RenderPassDesc { color_attachments: &a }, |_| {
        made += 1;
        7
    });
    let r2 = cache.get_or_create(&RenderPassDesc { color_attachments: &b }, |_| {
        made += 1;
        8
    });
    assert_eq!(made, 1);
    assert!(Arc::ptr_eq(&r1, &r2));
    assert_eq!(*r2, 7);
}

#[test]
fn render_pass_created_from_its_layout() {
    let mut cache: RenderPassCache<(usize, Vec<u32>)> = RenderPassCache::new(4);
    let d = vec![None, Some(ColorAttachmentDesc { format: 44, layout: 2 }), Some(ColorAttachmentDesc { format: 37, layout: 5 })];
    let r = cache.get_or_create(&RenderPassDesc { color_attachments: &d }, |layout| {
        (layout.attachments.len(), layout.color_refs.iter().map(|c| c.attachment).collect())
    });
    assert_eq!(r.0, 2);
    assert_eq!(r.1, vec![0xffff_ffff, 0, 1]);
}

#[test]
fn evicted_handle_stays_usable() {
    let mut cache: RenderPassCache<String> = RenderPassCache::new(1);
    let a = slots(1);
    let b = slots(2);
    let first = cache.get_or_create(&RenderPassDesc { color_attachments: &a }, |_| "first".to_string());
    let _second = cache.get_or_create(&RenderPassDesc { color_attachments: &b }, |_| "second".to_string());
    assert_eq!(Arc::strong_count(&first), 1);
    assert_eq!(first.as_str(), "first");
    let again = cache.get_or_create(&RenderPassDesc { color_attachments: &a }, |_| "rebuilt".to_string());
    assert_eq!(again.as_str(), "rebuilt");
}

#[test]
fn least_recently_used_entry_leaves() {
    let mut cache: ResourceCache<RenderPassKey, u32> = ResourceCache::new(2);
    let key = |f: i32| RenderPassKey { color_attachments: slots(f) };
    cache.get_or_create(key(1), || 1);
    cache.get_or_create(key(2), || 2);
    // Touch 1 so 2 becomes the least recently used.
    let hit = cache.get_or_create(key(1), || 100);
    assert_eq!(*hit, 1);
    cache.get_or_create(key(3), || 3);
    assert_eq!(cache.len(), 2);
    assert_eq!(*cache.get_or_create(key(1), || 100), 1);
    assert_eq!(*cache.get_or_create(key(2), || 200), 200);
}

#[test]
fn framebuffer_cache_keys_on_views_and_extent() {
    let mut cache: FramebufferCache<Vec<u64>> = FramebufferCache::new(16);
    let views = [Attachment { image_view: ImageView { raw: 11 } }];
    let same = [Attachment { image_view: ImageView { raw: 11 } }];
    let other = [Attachment { image_view: ImageView { raw: 12 } }];
    let extent = Extent2d { width: 800, height: 600 };
    let mut made = 0;
    let f1 = cache.get_or_create(&FramebufferDesc { render_pass: 5, attachments: &views, extent }, |k| {
        made += 1;
        assert_eq!(k.layers, 1);
        k.attachments
    });
    let f2 = cache.get_or_create(&FramebufferDesc { render_pass: 5, attachments: &same, extent }, |k| {
        made += 1;
        k.attachments
    });
    let f3 = cache.get_or_create(&FramebufferDesc { render_pass: 5, attachments: &other, extent }, |k| {
        made += 1;
        k.attachments
    });
    let f4 = cache.get_or_create(
        &FramebufferDesc { render_pass: 5, attachments: &views, extent: Extent2d { width: 801, height: 600 } },
        |k| {
            made += 1;
            k.attachments
        },
    );
    assert_eq!(made, 3);
    assert!(Arc::ptr_eq(&f1, &f2));
    assert!(!Arc::ptr_eq(&f1, &f3));
    assert!(!Arc::ptr_eq(&f1, &f4));
    assert_eq!(*f3, vec![12]);
}

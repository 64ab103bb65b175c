use std::cell::RefCell;

use blick::backend::Backend;
use blick::image::{ImageView, ImageViewDesc, ReleaseStep};
use blick::swapchain::{
    make_swapchain_desc, make_swapchain_extent, SurfaceCapabilities, SurfaceFormat, SwapchainError,
    COLOR_SPACE_SRGB_NONLINEAR, FORMAT_B8G8R8A8_SRGB, PRESENT_MODE_FIFO, PRESENT_MODE_FIFO_RELAXED,
    PRESENT_MODE_IMMEDIATE, PRESENT_MODE_MAILBOX,
};
use blick::sync::Semaphore;
use blick::{BeginFrameError, EndFrameError, Extent2d};

fn caps(current: u32, min: (u32, u32), max: (u32, u32), max_count: u32) -> SurfaceCapabilities {
    SurfaceCapabilities {
        current_extent: Extent2d { width: current, height: current },
        min_image_extent: Extent2d { width: min.0, height: min.1 },
        max_image_extent: Extent2d { width: max.0, height: max.1 },
        max_image_count: max_count,
    }
}

const SRGB: SurfaceFormat = SurfaceFormat { format: FORMAT_B8G8R8A8_SRGB, color_space: COLOR_SPACE_SRGB_NONLINEAR };

#[test]
fn resize_clamps_to_surface_range() {
    let c = caps(u32::MAX, (100, 50), (1000, 500), 0);
    assert_eq!(make_swapchain_extent(&c, 10, 20), Extent2d { width: 100, height: 50 });
    assert_eq!(make_swapchain_extent(&c, 4000, 4000), Extent2d { width: 1000, height: 500 });
    assert_eq!(make_swapchain_extent(&c, 800, 300), Extent2d { width: 800, height: 300 });
    assert_eq!(make_swapchain_extent(&c, 100, 500), Extent2d { width: 100, height: 500 });
    let fixed = caps(640, (1, 1), (4096, 4096), 0);
    assert_eq!(make_swapchain_extent(&fixed, 800, 300), Extent2d { width: 640, height: 640 });
}

#[test]
fn swapchain_config_prefers_relaxed_vsync() {
    let c = caps(u32::MAX, (1, 1), (4096, 4096), 0);
    let other = SurfaceFormat { format: 44, color_space: 0 };
    let all = [PRESENT_MODE_IMMEDIATE, PRESENT_MODE_MAILBOX, PRESENT_MODE_FIFO, PRESENT_MODE_FIFO_RELAXED];
    let d = make_swapchain_desc(800, 600, &c, &[other, SRGB], &all, true).unwrap();
    assert_eq!(d.format, 50);
    assert_eq!(d.color_space, 0);
    assert_eq!(d.extent, Extent2d { width: 800, height: 600 });
    assert_eq!(d.present_mode, PRESENT_MODE_FIFO_RELAXED);
    assert_eq!(d.image_count, 3);
    let d = make_swapchain_desc(800, 600, &c, &[SRGB], &[PRESENT_MODE_FIFO], true).unwrap();
    assert_eq!(d.present_mode, PRESENT_MODE_FIFO);
    let d = make_swapchain_desc(800, 600, &c, &[SRGB], &all, false).unwrap();
    assert_eq!(d.present_mode, PRESENT_MODE_MAILBOX);
    let d = make_swapchain_desc(800, 600, &c, &[SRGB], &[PRESENT_MODE_IMMEDIATE, PRESENT_MODE_FIFO], false).unwrap();
    assert_eq!(d.present_mode, PRESENT_MODE_IMMEDIATE);
    let d = make_swapchain_desc(800, 600, &c, &[SRGB], &[PRESENT_MODE_FIFO_RELAXED], false).unwrap();
    assert_eq!(d.present_mode, PRESENT_MODE_FIFO);
}

#[test]
fn swapchain_config_image_count_and_format() {
    let two = caps(u32::MAX, (1, 1), (4096, 4096), 2);
    assert_eq!(make_swapchain_desc(8, 8, &two, &[SRGB], &[], true).unwrap().image_count, 2);
    let eight = caps(u32::MAX, (1, 1), (4096, 4096), 8);
    assert_eq!(make_swapchain_desc(8, 8, &eight, &[SRGB], &[], true).unwrap().image_count, 3);
    let linear = SurfaceFormat { format: FORMAT_B8G8R8A8_SRGB, color_space: 1 };
    assert!(make_swapchain_desc(8, 8, &eight, &[linear], &[], true).is_none());
    assert!(make_swapchain_desc(8, 8, &eight, &[], &[], true).is_none());
}

fn backend() -> Backend {
    let c = caps(u32::MAX, (1, 1), (4096, 4096), 0);
    let desc = make_swapchain_desc(800, 600, &c, &[SRGB], &[PRESENT_MODE_FIFO], true).unwrap();
    Backend::with_swapchain(desc, 900, &[901, 902, 903])
}

/// Records which semaphore each driver operation signals or waits on, and checks that
/// every wait follows a signal of the same binary semaphore.
#[derive(Default)]
struct SyncLog {
    pending: Vec<u64>,
    events: Vec<(&'static str, u64)>,
}

impl SyncLog {
    fn signal(&mut self, s: u64) {
        self.pending.push(s);
        self.events.push(("signal", s));
    }
    fn wait(&mut self, s: u64) {
        let at = self.pending.iter().position(|p| *p == s).expect("wait on a semaphore nobody signalled");
        self.pending.remove(at);
        self.events.push(("wait", s));
    }
}

#[test]
fn frames_wait_on_what_was_signalled() {
    let mut backend = backend();
    let log = RefCell::new(SyncLog::default());
    for n in 0..5u64 {
        let (available, finished) = (Semaphore { raw: 10 * n + 1 }, Semaphore { raw: 10 * n + 2 });
        let frame = backend
            .begin_frame(available, finished, |req| {
                assert_eq!(req.swapchain, 900);
                assert_eq!(req.timeout, u64::MAX);
                log.borrow_mut().signal(req.signal_semaphore);
                Ok((n % 3) as u32)
            })
            .unwrap();
        assert_eq!(frame.swapchain_image.index as u64, n % 3);
        assert_eq!(frame.swapchain_image.image, 901 + n % 3);
        assert_eq!(frame.swapchain_image.desc.extent.width, 800);
        let sync = frame.submit_sync();
        log.borrow_mut().wait(sync.wait_semaphore);
        log.borrow_mut().signal(sync.signal_semaphore);
        backend
            .end_frame(frame, |req| {
                assert_eq!(req.image_index as u64, n % 3);
                log.borrow_mut().wait(req.wait_semaphore);
                Ok(())
            })
            .unwrap();
    }
    let log = log.into_inner();
    assert!(log.pending.is_empty());
    assert_eq!(log.events[..4], [("signal", 1), ("wait", 1), ("signal", 2), ("wait", 2)]);
}

#[test]
fn outdated_swapchain_is_reported() {
    let mut backend = backend();
    let r = backend.begin_frame(Semaphore { raw: 1 }, Semaphore { raw: 2 }, |_| Err(SwapchainError::Outdated));
    assert!(matches!(r, Err(BeginFrameError::OutdatedSwapchain)));
    let frame = backend.begin_frame(Semaphore { raw: 1 }, Semaphore { raw: 2 }, |_| Ok(0)).unwrap();
    let r = backend.end_frame(frame, |_| Err(SwapchainError::Outdated));
    assert!(matches!(r, Err(EndFrameError::OutdatedSwapchain)));
}

#[test]
fn resize_recreates_from_previous_swapchain() {
    let mut backend = backend();
    backend.swapchain_image_view(
        0,
        ImageViewDesc { view_type: 1, aspect_mask: 1, format: 50, base_mip_level: 0, level_count: 1 },
        |_| ImageView { raw: 77 },
    );
    let c = caps(u32::MAX, (100, 100), (1000, 1000), 0);
    let previous = backend.resize_swapchain(&c, 5000, 20, |req| {
        assert_eq!(req.old_swapchain, 900);
        assert_eq!(req.desc.extent, Extent2d { width: 1000, height: 100 });
        (950, vec![951, 952])
    });
    assert_eq!(backend.swapchain_desc().extent, Extent2d { width: 1000, height: 100 });
    assert_eq!(backend.swapchain_desc().present_mode, PRESENT_MODE_FIFO);
    assert_eq!(backend.swapchain().raw(), 950);
    assert_eq!(backend.swapchain().len(), 2);
    let frame = backend.begin_frame(Semaphore { raw: 1 }, Semaphore { raw: 2 }, |_| Ok(1)).unwrap();
    assert_eq!(frame.swapchain_image.image, 952);
    assert_eq!(frame.swapchain_image.desc.extent.width, 1000);
    assert_eq!(frame.swapchain_image.desc.extent.height, 100);
    assert_eq!(previous.raw(), 900);
    let steps = previous.release();
    assert_eq!(steps.len(), 2);
    assert!(matches!(steps[0], ReleaseStep::DestroyImageView(77)));
    assert!(matches!(steps[1], ReleaseStep::DestroySwapchain(900)));
}

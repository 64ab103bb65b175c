//! The frame protocol over the swapchain: acquire an image, let the caller record and
//! submit, present, and recreate the swapchain when the surface changes.
use vstd::multiset::Multiset;
use vstd::prelude::*;

use crate::image::{ImageView, ImageViewDesc, has_view, view_step};
use crate::swapchain::{
    AcquireRequest, PresentRequest, SurfaceCapabilities, Swapchain, SwapchainDesc, SwapchainError,
    SwapchainImage, make_swapchain_extent, swapchain_extent, swapchain_image_desc,
};
use crate::sync::Semaphore;
use crate::{BeginFrameError, EndFrameError};

verus! {

/// One frame in flight: the semaphore that acquisition signals, the one that the
/// frame's graphics work signals, and the acquired image.
pub struct Frame {
    pub image_available: Semaphore,
    pub render_finished: Semaphore,
    pub swapchain_image: SwapchainImage,
}

/// The semaphores a frame's graphics submission waits on and signals.
#[derive(Clone, Copy, Debug, PartialEq, Eq, Structural)]
pub struct SubmitSync {
    pub wait_semaphore: u64,
    pub signal_semaphore: u64,
}

/// What the driver is asked when a swapchain is made: the configuration and the
/// swapchain it replaces (zero for none), whose resources it may reuse.
#[derive(Clone, Copy, Debug, PartialEq, Eq, Structural)]
pub struct SwapchainRequest {
    pub desc: SwapchainDesc,
    pub old_swapchain: u64,
}

/// The acquisition request of a frame whose image-available semaphore is `semaphore`.
pub open spec fn acquire_request(swapchain: u64, semaphore: u64) -> AcquireRequest {
    AcquireRequest { swapchain, signal_semaphore: semaphore, timeout: u64::MAX }
}

/// The graphics work of `frame` waits until its image is available and signals that
/// rendering has finished.
pub open spec fn frame_submit_sync(frame: Frame) -> SubmitSync {
    SubmitSync {
        wait_semaphore: frame.image_available.raw,
        signal_semaphore: frame.render_finished.raw,
    }
}

/// Presenting `frame` waits until its rendering has finished.
pub open spec fn frame_present_request(swapchain: u64, frame: Frame) -> PresentRequest {
    PresentRequest {
        swapchain,
        wait_semaphore: frame.render_finished.raw,
        image_index: frame.swapchain_image.index,
    }
}

impl Frame {
    /// The semaphores to hand to the submission of this frame's graphics work.
    pub fn submit_sync(&self) -> (r: SubmitSync)
        ensures
            r == frame_submit_sync(*self),
    {
        SubmitSync {
            wait_semaphore: self.image_available.raw,
            signal_semaphore: self.render_finished.raw,
        }
    }
}

pub struct Backend {
    swapchain_desc: SwapchainDesc,
    swapchain: Swapchain,
}

impl Backend {
    pub open spec fn wf(&self) -> bool {
        self.spec_swapchain().wf()
    }

    pub closed spec fn spec_swapchain_desc(&self) -> SwapchainDesc {
        self.swapchain_desc
    }

    pub closed spec fn spec_swapchain(&self) -> Swapchain {
        self.swapchain
    }

    /// A backend presenting through the driver's swapchain `raw`, made with `desc`,
    /// whose images are `images`.
    pub fn with_swapchain(desc: SwapchainDesc, raw: u64, images: &[u64]) -> (r: Backend)
        requires
            images@.len() <= 0xffff_ffff,
        ensures
            r.wf(),
            r.spec_swapchain_desc() == desc,
            r.spec_swapchain().spec_raw() == raw,
            r.spec_swapchain().images().len() == images@.len(),
    {
        Backend { swapchain_desc: desc, swapchain: Swapchain::new(raw, &desc, images) }
    }

    pub fn swapchain_desc(&self) -> (r: &SwapchainDesc)
        ensures
            *r == self.spec_swapchain_desc(),
    {
        &self.swapchain_desc
    }

    pub fn swapchain(&self) -> (r: &Swapchain)
        ensures
            *r == self.spec_swapchain(),
    {
        &self.swapchain
    }

    /// Takes the backend apart, handing back its swapchain to be released.
    pub fn into_swapchain(self) -> (r: Swapchain)
        ensures
            r == self.spec_swapchain(),
    {
        self.swapchain
    }

    /// The view of swapchain image `index` made for `desc`; see [`Swapchain::image_view`].
    pub fn swapchain_image_view<F: FnOnce(ImageViewDesc) -> ImageView>(
        &mut self,
        index: u32,
        desc: ImageViewDesc,
        create: F,
    ) -> (r: ImageView)
        requires
            old(self).wf(),
            index < old(self).spec_swapchain().images().len(),
            create.requires((desc,)),
        ensures
            final(self).wf(),
            final(self).spec_swapchain_desc() == old(self).spec_swapchain_desc(),
            final(self).spec_swapchain().spec_raw() == old(self).spec_swapchain().spec_raw(),
            final(self).spec_swapchain().images().len() == old(self).spec_swapchain().images().len(),
            view_step(
                old(self).spec_swapchain().images()[index as int].views(),
                desc,
                final(self).spec_swapchain().images()[index as int].views(),
                r,
            ),
            forall|i: int|
                0 <= i < old(self).spec_swapchain().images().len() && i != index ==> final(self).spec_swapchain().images()[i] == old(self).spec_swapchain().images()[i],
            !has_view(old(self).spec_swapchain().images()[index as int].views(), desc) ==> create.ensures(
                (desc,),
                r,
            ),
    {
        self.swapchain.image_view(index, desc, create)
    }

    /// Starts a frame: acquires the next image through `acquire`, which is asked to
    /// signal `image_available`. Fails with `OutdatedSwapchain` when the swapchain no
    /// longer fits the surface.
    pub fn begin_frame<F: FnOnce(AcquireRequest) -> Result<u32, SwapchainError>>(
        &mut self,
        image_available: Semaphore,
        render_finished: Semaphore,
        acquire: F,
    ) -> (r: Result<Frame, BeginFrameError>)
        requires
            old(self).wf(),
            acquire.requires((acquire_request(old(self).spec_swapchain().spec_raw(), image_available.raw),)),
            forall|q: AcquireRequest, res: Result<u32, SwapchainError>|
                acquire.ensures((q,), res) ==> (res matches Ok(i) ==> i < old(
                    self,
                ).spec_swapchain().images().len()),
        ensures
            *final(self) == *old(self),
            ({
                let q = acquire_request(old(self).spec_swapchain().spec_raw(), image_available.raw);
                &&& r matches Ok(f) ==> {
                    &&& f.image_available == image_available
                    &&& f.render_finished == render_finished
                    &&& acquire.ensures((q,), Ok(f.swapchain_image.index))
                    &&& f.swapchain_image == old(self).spec_swapchain().image_at(
                        f.swapchain_image.index as int,
                    )
                    &&& f.swapchain_image.index < old(self).spec_swapchain().images().len()
                    &&& old(self).spec_swapchain().images()[f.swapchain_image.index as int].spec_allocation() is None
                }
                &&& r is Err ==> acquire.ensures((q,), Err(SwapchainError::Outdated))
            }),
    {
        match self.swapchain.acquire_next_image(&image_available, acquire) {
            Ok(swapchain_image) => Ok(Frame { image_available, render_finished, swapchain_image }),
            Err(_) => Err(BeginFrameError::OutdatedSwapchain),
        }
    }

    /// Ends a frame whose work the caller has submitted: presents its image through
    /// `present`, which is asked to wait on the frame's render-finished semaphore.
    /// Fails with `OutdatedSwapchain` when presentation reports the swapchain outdated.
    pub fn end_frame<F: FnOnce(PresentRequest) -> Result<(), SwapchainError>>(
        &mut self,
        frame: Frame,
        present: F,
    ) -> (r: Result<(), EndFrameError>)
        requires
            present.requires((frame_present_request(old(self).spec_swapchain().spec_raw(), frame),)),
        ensures
            *final(self) == *old(self),
            r is Ok ==> present.ensures(
                (frame_present_request(old(self).spec_swapchain().spec_raw(), frame),),
                Ok(()),
            ),
            r is Err ==> present.ensures(
                (frame_present_request(old(self).spec_swapchain().spec_raw(), frame),),
                Err(SwapchainError::Outdated),
            ),
    {
        let result = self.swapchain.present_image(&frame.swapchain_image, &frame.render_finished, present);
        match result {
            Ok(u) => {
                assert(result == Ok::<(), SwapchainError>(()));
                Ok(())
            },
            Err(e) => {
                assert(result == Err::<(), SwapchainError>(SwapchainError::Outdated));
                Err(EndFrameError::OutdatedSwapchain)
            },
        }
    }

    /// Resizes the swapchain to `width` by `height`, clamped to what the surface
    /// supports (or the surface's fixed extent): `recreate` makes the new driver
    /// swapchain from the new configuration and the previous swapchain, and hands back
    /// it and its images. The previous swapchain is handed back, to be released.
    pub fn resize_swapchain<F: FnOnce(SwapchainRequest) -> (u64, Vec<u64>)>(
        &mut self,
        caps: &SurfaceCapabilities,
        width: u32,
        height: u32,
        recreate: F,
    ) -> (r: Swapchain)
        requires
            old(self).wf(),
            forall|q: SwapchainRequest| recreate.requires((q,)),
            forall|q: SwapchainRequest, res: (u64, Vec<u64>)|
                recreate.ensures((q,), res) ==> res.1@.len() <= 0xffff_ffff,
        ensures
            final(self).wf(),
            final(self).spec_swapchain_desc() == (SwapchainDesc {
                extent: swapchain_extent(*caps, width, height),
                ..old(self).spec_swapchain_desc()
            }),
            r == old(self).spec_swapchain(),
            exists|res: (u64, Vec<u64>)|
                {
                    &&& recreate.ensures(
                        (SwapchainRequest {
                            desc: final(self).spec_swapchain_desc(),
                            old_swapchain: old(self).spec_swapchain().spec_raw(),
                        },),
                        res,
                    )
                    &&& final(self).spec_swapchain().spec_raw() == res.0
                    &&& final(self).spec_swapchain().images().len() == res.1@.len()
                    &&& forall|i: int|
                        0 <= i < res.1@.len() ==> (#[trigger] final(self).spec_swapchain().images()[i]).spec_raw()
                            == res.1@[i] && final(self).spec_swapchain().images()[i].spec_desc()
                            == swapchain_image_desc(final(self).spec_swapchain_desc())
                            && final(self).spec_swapchain().images()[i].spec_allocation() is None
                            && final(self).spec_swapchain().images()[i].views().len() == 0
                },
    {
        let desc = SwapchainDesc {
            extent: make_swapchain_extent(caps, width, height),
            ..self.swapchain_desc
        };
        let request = SwapchainRequest { desc, old_swapchain: self.swapchain.raw() };
        let made = recreate(request);
        let (raw, images) = made;
        let mut previous = Swapchain::new(raw, &desc, images.as_slice());
        self.swapchain_desc = desc;
        std::mem::swap(&mut self.swapchain, &mut previous);
        previous
    }
}

/// Over any run of frames, each frame's graphics work waits on the semaphore that its
/// acquisition signalled, and its presentation waits on the semaphore that its
/// graphics work signals.
pub proof fn lemma_frame_ordering(
    swapchain: u64,
    frames: Seq<Frame>,
    available: Seq<Semaphore>,
    finished: Seq<Semaphore>,
)
    requires
        frames.len() == available.len(),
        frames.len() == finished.len(),
        forall|i: int|
            0 <= i < frames.len() ==> (#[trigger] frames[i]).image_available == available[i]
                && frames[i].render_finished == finished[i],
    ensures
        forall|i: int|
            0 <= i < frames.len() ==> {
                &&& frame_submit_sync(#[trigger] frames[i]).wait_semaphore == acquire_request(
                    swapchain,
                    available[i].raw,
                ).signal_semaphore
                &&& frame_present_request(swapchain, frames[i]).wait_semaphore == frame_submit_sync(
                    frames[i],
                ).signal_semaphore
                &&& frame_present_request(swapchain, frames[i]).wait_semaphore == finished[i].raw
            },
{
}

/// A signal or a wait on a binary semaphore, by its driver handle.
pub enum SyncEvent {
    Signal(u64),
    Wait(u64),
}

/// Whether every wait of `events` finds a signal of the same semaphore that no earlier
/// wait consumed, starting with the signals in `pending`.
pub open spec fn waits_matched(events: Seq<SyncEvent>, pending: Multiset<u64>) -> bool
    decreases events.len(),
{
    if events.len() == 0 {
        true
    } else {
        match events[0] {
            SyncEvent::Signal(s) => waits_matched(events.drop_first(), pending.insert(s)),
            SyncEvent::Wait(s) => pending.count(s) > 0 && waits_matched(events.drop_first(), pending.remove(s)),
        }
    }
}

/// What one frame does on its semaphores, in order: acquisition signals, the graphics
/// submission waits then signals, presentation waits.
pub open spec fn frame_events(swapchain: u64, frame: Frame) -> Seq<SyncEvent> {
    seq![
        SyncEvent::Signal(acquire_request(swapchain, frame.image_available.raw).signal_semaphore),
        SyncEvent::Wait(frame_submit_sync(frame).wait_semaphore),
        SyncEvent::Signal(frame_submit_sync(frame).signal_semaphore),
        SyncEvent::Wait(frame_present_request(swapchain, frame).wait_semaphore),
    ]
}

/// What a run of frames does on its semaphores, frame after frame.
pub open spec fn run_events(swapchain: u64, frames: Seq<Frame>) -> Seq<SyncEvent>
    decreases frames.len(),
{
    if frames.len() == 0 {
        Seq::empty()
    } else {
        frame_events(swapchain, frames[0]) + run_events(swapchain, frames.drop_first())
    }
}

/// Across any run of frames, whatever was signalled before, no semaphore is ever
/// waited on without a matching earlier signal: each frame's submission waits on what
/// its acquisition signalled, and its presentation on what its submission signalled.
pub proof fn lemma_run_waits_matched(swapchain: u64, frames: Seq<Frame>, pending: Multiset<u64>)
    ensures
        waits_matched(run_events(swapchain, frames), pending),
    decreases frames.len(),
{
    if frames.len() > 0 {
        let f = frames[0];
        let rest = run_events(swapchain, frames.drop_first());
        let a = f.image_available.raw;
        let b = f.render_finished.raw;
        let e0 = frame_events(swapchain, f) + rest;
        let e1 = e0.drop_first();
        let e2 = e1.drop_first();
        let e3 = e2.drop_first();
        let e4 = e3.drop_first();
        assert(e0[0] == SyncEvent::Signal(a));
        assert(e1[0] == SyncEvent::Wait(a));
        assert(e2[0] == SyncEvent::Signal(b));
        assert(e3[0] == SyncEvent::Wait(b));
        assert(e4 =~= rest);
        let p1 = pending.insert(a);
        let p2 = p1.remove(a);
        let p3 = p2.insert(b);
        let p4 = p3.remove(b);
        assert(p2 =~= pending);
        assert(p4 =~= pending);
        lemma_run_waits_matched(swapchain, frames.drop_first(), pending);
        assert(waits_matched(e4, p4));
        assert(waits_matched(e3, p3));
        assert(waits_matched(e2, p2));
        assert(waits_matched(e1, p1));
    }
}

} // verus!

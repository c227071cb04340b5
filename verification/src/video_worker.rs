//! The thread that decodes video, apart from the one that reads packets and
//! decodes sound: a slow picture never starves the sound.

use vstd::prelude::*;

use crate::pipeline::FrameStep;
use crate::seek::SeekFilter;
use crate::timing::Seconds;

verus! {

/// How long a decoded picture waits for room in the queue, in milliseconds,
/// before it is dropped.
pub const FRAME_SEND_TIMEOUT: u64 = 100;

/// A message to the video thread. `P` is a compressed packet, `D` a decoder.
pub enum VideoWorkerMsg<P, D> {
    Packet(P),
    /// Replaces the decoder, and with it everything it held.
    Reset { decoder: Option<D>, skip_until: Option<Seconds> },
    /// The stream is over: deliver what is left and say so.
    Eof,
}

/// What the video thread does with a message.
pub enum WorkerStep<P> {
    /// Nothing more.
    Wait,
    /// Hand the packet to the decoder, and offer every frame it gives.
    Decode(P),
    /// Tell the decoder that the stream is over, offer every frame it still
    /// gives for so many milliseconds, then acknowledge.
    Drain(u64),
    /// Acknowledge.
    Acknowledge,
}

/// The state of the video thread.
pub struct VideoWorker<D> {
    pub decoder: Option<D>,
    pub filter: SeekFilter,
}

impl<D> VideoWorker<D> {
    /// The filter that a reset leaves.
    pub open spec fn filter_after_reset(skip_until: Option<Seconds>) -> SeekFilter {
        match skip_until {
            Some(t) => SeekFilter::aimed(t),
            None => SeekFilter::idle(),
        }
    }

    /// A thread with its first decoder, if the file has a picture.
    pub fn new(decoder: Option<D>) -> (r: VideoWorker<D>)
        ensures
            r.decoder == decoder,
            r.filter == SeekFilter::idle(),
    {
        VideoWorker { decoder, filter: SeekFilter::new() }
    }

    /// Takes in a message.
    pub fn on_message<P>(&mut self, msg: VideoWorkerMsg<P, D>) -> (r: WorkerStep<P>)
        ensures
            match msg {
                VideoWorkerMsg::Packet(p) => {
                    &&& *final(self) == *old(self)
                    &&& r == (if old(self).decoder is Some {
                        WorkerStep::Decode(p)
                    } else {
                        WorkerStep::Wait
                    })
                },
                VideoWorkerMsg::Reset { decoder, skip_until } => {
                    &&& r == WorkerStep::<P>::Wait
                    &&& final(self).decoder == decoder
                    &&& final(self).filter == Self::filter_after_reset(skip_until)
                },
                VideoWorkerMsg::Eof => {
                    &&& *final(self) == *old(self)
                    &&& r == (if old(self).decoder is Some {
                        WorkerStep::<P>::Drain(FRAME_SEND_TIMEOUT)
                    } else {
                        WorkerStep::<P>::Acknowledge
                    })
                },
            },
    {
        match msg {
            VideoWorkerMsg::Packet(p) => if self.decoder.is_some() {
                WorkerStep::Decode(p)
            } else {
                WorkerStep::Wait
            },
            VideoWorkerMsg::Reset { decoder, skip_until } => {
                self.decoder = decoder;
                self.filter = match skip_until {
                    Some(t) => SeekFilter::aim(t),
                    None => SeekFilter::new(),
                };
                WorkerStep::Wait
            },
            VideoWorkerMsg::Eof => if self.decoder.is_some() {
                WorkerStep::Drain(FRAME_SEND_TIMEOUT)
            } else {
                WorkerStep::Acknowledge
            },
        }
    }

    /// Takes in a decoded frame. A frame is skipped only when it comes before a
    /// seek's target; every other one is offered to the queue.
    pub fn on_frame(&mut self, pts: Seconds) -> (r: FrameStep)
        ensures
            r == (if old(self).filter.admits(pts) {
                FrameStep::Offer { position: pts, wait: FRAME_SEND_TIMEOUT }
            } else {
                FrameStep::Skip
            }),
            final(self).filter == old(self).filter.next(pts),
            final(self).decoder == old(self).decoder,
    {
        if self.filter.pass(pts) {
            FrameStep::Offer { position: pts, wait: FRAME_SEND_TIMEOUT }
        } else {
            FrameStep::Skip
        }
    }
}

/// A reset with a target holds back what comes before it, one without holds
/// back nothing, whatever was under way.
pub proof fn law_resets_aim_the_filter<D>(target: Seconds, pts: Seconds)
    ensures
        VideoWorker::<D>::filter_after_reset(Some(target)).skip_until == Some(target),
        VideoWorker::<D>::filter_after_reset(Some(target)).admits(pts) <==> pts.nanos + 50_000_000
            >= target.nanos || target.nanos > pts.nanos + 1_000_000_000,
        VideoWorker::<D>::filter_after_reset(None).admits(pts),
        VideoWorker::<D>::filter_after_reset(None).next(pts).skip_until is None,
        FRAME_SEND_TIMEOUT == 100,
{
}

} // verus!

//! Decoded sound: when it is played, and at what speed.

use std::collections::VecDeque;

use vstd::prelude::*;

use crate::bytes::ByteOrder;
use crate::pcm;
use crate::pcm::{interleave, read_single_words, Pcm, SampleBuffers, SampleKind};
use crate::tempo;
use crate::tempo::{atempo_chain, tempo_graph_args, Speed};
use crate::timing;
use crate::timing::{
    floor_div, saturating_sum, ExactTime, Seconds, TimeBase,
};

verus! {

/// A block of decoded sound.
pub struct DecodedAudioFrame {
    pub pts_secs: ExactTime,
    /// The channels alternate.
    pub samples: Pcm,
    pub sample_rate: u32,
    pub channels: u8,
}

/// A block of sound as the decoder gives it.
pub struct RawAudio {
    pub pts: Option<i64>,
    pub rate: u32,
    pub channels: u16,
    pub kind: SampleKind,
    pub planar: bool,
    /// The order of the bytes of a sample.
    pub order: ByteOrder,
    /// Samples of each channel.
    pub samples: usize,
    pub planes: Vec<Vec<u8>>,
}

/// What the decoder answers when asked for a block.
pub enum AudioReply {
    Frame(RawAudio),
    /// It needs more packets first.
    Again,
    Failed,
}

/// Why no block of sound comes.
#[derive(Debug, Clone, Copy, PartialEq, Eq, Structural)]
pub enum AudioError {
    /// The decoder failed.
    Decoder,
    /// The decoder writes samples in a format that is not played.
    UnsupportedFormat,
}

/// What to do after the decoder has answered.
pub enum AudioStep {
    /// No block yet.
    Nothing,
    /// Play this block.
    Deliver(DecodedAudioFrame),
    /// Send these samples through the filter chain, then hand what comes out to
    /// [`AudioDecoder::finish_stretch`].
    Stretch(StretchJob),
}

/// Samples to be sent through the filter chain.
pub struct StretchJob {
    /// The chain to build first, if none stands: the description of the sound,
    /// and the filters.
    pub graph: Option<(String, String)>,
    pub pts_secs: Seconds,
    /// The same time in samples.
    pub input_pts: i64,
    /// Samples of each channel.
    pub frames: usize,
    pub samples: Pcm,
}

/// A block that came out of the filter chain.
pub struct FilteredAudio {
    /// Its time in samples, if it has one.
    pub pts: Option<i64>,
    /// Its samples, single-precision numbers.
    pub data: Vec<u8>,
}

/// The state of the audio decoder.
pub struct AudioDecoder {
    pub time_base: TimeBase,
    /// Where the content starts on the container's axis.
    pub start_offset: Seconds,
    pub src_rate: u32,
    pub src_layout: u64,
    pub src_channels: u8,
    pub speed: Speed,
    /// When the next block is due: where the last one ended.
    pub next_pts: Option<ExactTime>,
    /// A filter chain for the current speed stands.
    pub tempo_built: bool,
    /// A time on the media axis, and the same time at the end of the chain.
    pub tempo_anchor: Option<(Seconds, Seconds)>,
    /// Blocks ready to be played.
    pub pending: VecDeque<DecodedAudioFrame>,
}

impl RawAudio {
    /// Channels, at least one.
    pub open spec fn channel_count(self) -> int {
        if self.channels < 1 {
            1
        } else {
            self.channels as int
        }
    }

    /// The buffers of the block.
    pub open spec fn buffers(self) -> SampleBuffers {
        SampleBuffers {
            kind: self.kind,
            planar: self.planar,
            order: self.order,
            channels: self.channel_count() as usize,
            samples: self.samples,
            planes: self.planes,
        }
    }
}

/// Time at the end of the filter chain, in nanoseconds.
pub open spec fn chain_time(pts: Option<i64>, rate: u32) -> int {
    (match pts {
        Some(p) => p as int,
        None => 0,
    }) * 1_000_000_000 / (rate as int)
}

/// The time on the media axis of what leaves the chain at `out`, when what left
/// it at `anchor.1` was at `anchor.0`: the chain compresses time by the speed.
pub open spec fn media_time(anchor: (Seconds, Seconds), out: int, speed: Speed) -> int {
    timing::saturated(
        anchor.0.nanos + (out - anchor.1.nanos) * speed.units / (tempo::SPEED_ONE as int),
    )
}

/// The anchor once `outputs` have left the chain, fed with sound at `pts`.
pub open spec fn anchor_after(
    anchor: Option<(Seconds, Seconds)>,
    pts: Seconds,
    outputs: Seq<FilteredAudio>,
    rate: u32,
) -> Option<(Seconds, Seconds)> {
    if anchor is Some || outputs.len() == 0 {
        anchor
    } else {
        Some((pts, Seconds { nanos: chain_time(outputs[0].pts, rate) as i128 }))
    }
}

/// The block that is handed out, as a sequence.
pub open spec fn handed_out(frame: Option<DecodedAudioFrame>) -> Seq<DecodedAudioFrame> {
    match frame {
        Some(f) => seq![f],
        None => seq![],
    }
}

impl AudioDecoder {
    /// The speed is one that playback can have, no block is due before the
    /// start, and the anchor is a time that a chain can give.
    pub open spec fn wf(self) -> bool {
        &&& self.speed.wf()
        &&& self.next_pts matches Some(due) ==> due.wf() && due.nanos >= 0
        &&& self.tempo_anchor matches Some(a) ==> -0x4000_0000_0000_0000_0000_0000 <= a.1.nanos
            <= 0x4000_0000_0000_0000_0000_0000
    }

    /// The time that the container gives a block, counted from the start of
    /// the content; never before it.
    pub open spec fn container_time(self, pts: Option<i64>) -> Option<ExactTime> {
        match pts {
            Some(p) => if p == i64::MIN {
                None
            } else {
                let t = self.time_base.exact(p as int, self.start_offset);
                Some(
                    if t.nanos < 0 {
                        ExactTime::zero()
                    } else {
                        t
                    },
                )
            },
            None => None,
        }
    }

    /// The container does not say when a block is played: it gives no time, or
    /// the very start, as some containers do for every block.
    pub open spec fn untimed(self, pts: Option<i64>) -> bool {
        self.container_time(pts) is None || self.container_time(pts) == Some(ExactTime::zero())
    }

    /// When a block is played: at the time that the container gives it, or
    /// where the last block ended when it gives none.
    pub open spec fn play_time(self, pts: Option<i64>) -> ExactTime {
        match (self.container_time(pts), self.next_pts) {
            (Some(t), Some(due)) => if !t.positive() && due.positive() {
                due
            } else {
                t
            },
            (Some(t), None) => t,
            (None, Some(due)) => due,
            (None, None) => ExactTime::zero(),
        }
    }

    /// When the block after `raw` is due: after the last sample of `raw`.
    pub open spec fn due_after(self, raw: RawAudio) -> Option<ExactTime> {
        if raw.rate == 0 {
            self.next_pts
        } else {
            Some(self.play_time(raw.pts).later(raw.samples as int, raw.rate))
        }
    }

    /// The decoder once it has taken in `raw`.
    pub open spec fn after_block(self, raw: RawAudio) -> AudioDecoder {
        AudioDecoder {
            src_rate: raw.rate,
            src_channels: (raw.channel_count() % 256) as u8,
            next_pts: self.due_after(raw),
            ..self
        }
    }

    /// `job` sends the samples of `raw` through the chain.
    pub open spec fn is_stretch_job(self, raw: RawAudio, job: StretchJob) -> bool {
        let channels: int = if raw.channel_count() % 256 == 0 {
            1
        } else {
            raw.channel_count() % 256
        };
        &&& job.graph is Some == !self.tempo_built
        &&& job.graph matches Some(g) ==> g.0@ == tempo::graph_args(raw.rate, self.src_layout)
            && g.1@ == tempo::chain_text(self.speed.factors())
        &&& job.pts_secs.nanos == self.play_time(raw.pts).nanos
        &&& job.input_pts == timing::saturated64(self.play_time(raw.pts).ticks(raw.rate))
        &&& job.frames == raw.buffers().total() / channels
        &&& pcm::is_interleaved(job.samples, raw.buffers())
    }

    /// `frame` is what left the chain as `out`.
    pub open spec fn is_stretched(
        self,
        frame: DecodedAudioFrame,
        out: FilteredAudio,
        anchor: (Seconds, Seconds),
    ) -> bool {
        &&& frame.pts_secs.num == 0 && frame.pts_secs.den == 1
        &&& frame.pts_secs.nanos == media_time(
            anchor,
            chain_time(out.pts, self.src_rate),
            self.speed,
        )
        &&& frame.samples matches Pcm::Single(words)
        &&& words@ == pcm::single_words(out.data@)
        &&& frame.sample_rate == self.src_rate
        &&& frame.channels == self.src_channels
    }

    /// A decoder of sound whose timestamps count `time_base`, at normal speed.
    pub fn new(time_base: TimeBase, rate: u32, layout: u64, channels: u16) -> (r: AudioDecoder)
        ensures
            r.wf(),
            r.time_base == time_base,
            r.start_offset.nanos == 0,
            r.src_rate == rate,
            r.src_layout == layout,
            r.src_channels == channels % 256,
            r.speed.units == tempo::SPEED_ONE,
            r.next_pts is None,
            !r.tempo_built,
            r.tempo_anchor is None,
            r.pending@.len() == 0,
    {
        AudioDecoder {
            time_base,
            start_offset: Seconds { nanos: 0 },
            src_rate: rate,
            src_layout: layout,
            src_channels: (channels % 256) as u8,
            speed: Speed::normal(),
            next_pts: None,
            tempo_built: false,
            tempo_anchor: None,
            pending: VecDeque::new(),
        }
    }

    /// Says where the content starts on the container's axis.
    pub fn set_start_offset(&mut self, offset: Seconds)
        ensures
            *final(self) == (AudioDecoder { start_offset: offset, ..*old(self) }),
    {
        self.start_offset = offset;
    }

    /// Changes the playback speed. Blocks already stretched for another speed
    /// are given up; a speed close to the current one changes nothing.
    pub fn set_speed(&mut self, speed: Speed)
        requires
            old(self).wf(),
        ensures
            final(self).wf(),
            speed.spec_clamped().close_to(old(self).speed) ==> *final(self) == *old(self),
            !speed.spec_clamped().close_to(old(self).speed) ==> {
                &&& final(self).speed == speed.spec_clamped()
                &&& !final(self).tempo_built
                &&& final(self).tempo_anchor is None
                &&& final(self).pending@.len() == 0
                &&& *final(self) == (AudioDecoder {
                    speed: final(self).speed,
                    tempo_built: false,
                    tempo_anchor: None,
                    pending: final(self).pending,
                    ..*old(self)
                })
            },
    {
        let speed = speed.clamped();
        if speed.is_close_to(self.speed) {
            return;
        }
        self.speed = speed;
        self.tempo_built = false;
        self.tempo_anchor = None;
        self.pending.clear();
    }

    /// The next block that is ready, if one is. The decoder is asked only when
    /// none is.
    pub fn next_pending(&mut self) -> (r: Option<DecodedAudioFrame>)
        ensures
            old(self).pending@.len() == 0 ==> r is None && final(self).pending@
                == old(self).pending@,
            old(self).pending@.len() > 0 ==> r == Some(old(self).pending@[0])
                && final(self).pending@ == old(self).pending@.skip(1),
            *final(self) == (AudioDecoder { pending: final(self).pending, ..*old(self) }),
    {
        let r = self.pending.pop_front();
        assert(old(self).pending@.len() > 0 ==> self.pending@ =~= old(self).pending@.skip(1));
        r
    }

    /// Takes in what the decoder answers. It is asked only when no block is
    /// ready: blocks are played in the order of the sound.
    pub fn receive_frame(&mut self, reply: AudioReply) -> (r: Result<AudioStep, AudioError>)
        requires
            old(self).wf(),
            old(self).pending@.len() == 0,
            reply matches AudioReply::Frame(raw) ==> raw.buffers().complete(),
        ensures
            final(self).wf(),
            match reply {
                AudioReply::Again => r == Ok::<AudioStep, AudioError>(AudioStep::Nothing)
                    && *final(self) == *old(self),
                AudioReply::Failed => r == Err::<AudioStep, AudioError>(AudioError::Decoder)
                    && *final(self) == *old(self),
                AudioReply::Frame(raw) => if raw.kind == SampleKind::Other {
                    &&& r == Err::<AudioStep, AudioError>(AudioError::UnsupportedFormat)
                    &&& *final(self) == *old(self)
                } else {
                    &&& *final(self) == old(self).after_block(raw)
                    &&& old(self).speed.close_to(Speed { units: tempo::SPEED_ONE }) ==> {
                        &&& r matches Ok(AudioStep::Deliver(frame))
                        &&& frame.pts_secs == old(self).play_time(raw.pts)
                        &&& pcm::is_interleaved(frame.samples, raw.buffers())
                        &&& frame.sample_rate == raw.rate
                        &&& frame.channels == raw.channel_count() % 256
                    }
                    &&& !old(self).speed.close_to(Speed { units: tempo::SPEED_ONE }) ==> {
                        &&& r matches Ok(AudioStep::Stretch(job))
                        &&& old(self).is_stretch_job(raw, job)
                    }
                },
            },
    {
        let raw = match reply {
            AudioReply::Again => return Ok(AudioStep::Nothing),
            AudioReply::Failed => return Err(AudioError::Decoder),
            AudioReply::Frame(raw) => raw,
        };
        let ghost whole = raw;
        let pts = raw.pts;
        let rate: u32 = raw.rate;
        let n: usize = raw.samples;
        let channels: u16 = if raw.channels < 1 {
            1
        } else {
            raw.channels
        };
        let buffers = SampleBuffers {
            kind: raw.kind,
            planar: raw.planar,
            order: raw.order,
            channels: channels as usize,
            samples: raw.samples,
            planes: raw.planes,
        };
        assert(buffers == whole.buffers());
        let samples = match interleave(&buffers) {
            Some(samples) => samples,
            None => return Err(AudioError::UnsupportedFormat),
        };
        let time = self.time_block(pts);
        if rate > 0 {
            self.next_pts = Some(time.plus_samples(n, rate));
        }
        self.src_rate = rate;
        self.src_channels = (channels % 256) as u8;
        if self.speed.is_close_to(Speed::normal()) {
            return Ok(
                AudioStep::Deliver(
                    DecodedAudioFrame {
                        pts_secs: time,
                        samples,
                        sample_rate: rate,
                        channels: (channels % 256) as u8,
                    },
                ),
            );
        }
        let per_frame: usize = if channels % 256 == 0 {
            1
        } else {
            (channels % 256) as usize
        };
        assert(buffers.samples * buffers.channels >= 0) by (nonlinear_arith);
        let total: usize = buffers.samples * buffers.channels;
        let graph = if self.tempo_built {
            None
        } else {
            Some((tempo_graph_args(rate, self.src_layout), atempo_chain(self.speed)))
        };
        Ok(
            AudioStep::Stretch(
                StretchJob {
                    graph,
                    pts_secs: time.whole(),
                    input_pts: time.to_ticks(rate),
                    frames: total / per_frame,
                    samples,
                },
            ),
        )
    }

    fn time_block(&self, pts: Option<i64>) -> (r: ExactTime)
        requires
            self.wf(),
        ensures
            r == self.play_time(pts),
            r.wf(),
            r.nanos >= 0,
    {
        let container: Option<ExactTime> = match pts {
            Some(p) => if p == i64::MIN {
                None
            } else {
                let t = self.time_base.time_since(p, self.start_offset);
                if t.nanos < 0 {
                    Some(ExactTime::from_whole(Seconds { nanos: 0 }))
                } else {
                    Some(t)
                }
            },
            None => None,
        };
        match (container, self.next_pts) {
            (Some(t), Some(due)) => if !t.is_positive() && due.is_positive() {
                due
            } else {
                t
            },
            (Some(t), None) => t,
            (None, Some(due)) => due,
            (None, None) => ExactTime::from_whole(Seconds { nanos: 0 }),
        }
    }

    /// Takes in that the filter chain of a [`StretchJob`] has been built.
    pub fn tempo_ready(&mut self)
        requires
            old(self).wf(),
        ensures
            final(self).wf(),
            *final(self) == (AudioDecoder { tempo_built: true, tempo_anchor: None, ..*old(self) }),
    {
        self.tempo_built = true;
        self.tempo_anchor = None;
    }

    /// Takes in what left the filter chain, fed with sound at `pts`, and gives
    /// the first block that is ready.
    pub fn finish_stretch(&mut self, pts: Seconds, outputs: Vec<FilteredAudio>) -> (r: Option<
        DecodedAudioFrame,
    >)
        requires
            old(self).wf(),
            old(self).src_rate > 0,
        ensures
            final(self).wf(),
            final(self).tempo_anchor == anchor_after(
                old(self).tempo_anchor,
                pts,
                outputs@,
                old(self).src_rate,
            ),
            *final(self) == (AudioDecoder {
                tempo_anchor: final(self).tempo_anchor,
                pending: final(self).pending,
                ..*old(self)
            }),
            r is Some == (old(self).pending@.len() + outputs@.len() > 0),
            ({
                let before = old(self).pending@;
                let ready = handed_out(r) + final(self).pending@;
                &&& ready.len() == before.len() + outputs@.len()
                &&& forall|k: int| 0 <= k < before.len() ==> #[trigger] ready[k] == before[k]
                &&& forall|k: int|
                    0 <= k < outputs@.len() ==> old(self).is_stretched(
                        ready[before.len() + k],
                        #[trigger] outputs@[k],
                        final(self).tempo_anchor->0,
                    )
            }),
    {
        let n: usize = outputs.len();
        let mut anchor = self.tempo_anchor;
        let ghost before = self.pending@;
        for k in 0..n
            invariant
                n == outputs@.len(),
                old(self).wf(),
                old(self).src_rate > 0,
                before == old(self).pending@,
                *self == (AudioDecoder { pending: self.pending, ..*old(self) }),
                anchor == anchor_after(
                    old(self).tempo_anchor,
                    pts,
                    outputs@.take(k as int),
                    old(self).src_rate,
                ),
                k > 0 ==> anchor is Some,
                k > 0 ==> anchor == anchor_after(
                    old(self).tempo_anchor,
                    pts,
                    outputs@,
                    old(self).src_rate,
                ),
                anchor matches Some(a) ==> -0x4000_0000_0000_0000_0000_0000 <= a.1.nanos
                    <= 0x4000_0000_0000_0000_0000_0000,
                self.pending@.len() == before.len() + k,
                forall|j: int| 0 <= j < before.len() ==> #[trigger] self.pending@[j] == before[j],
                forall|j: int|
                    0 <= j < k ==> old(self).is_stretched(
                        self.pending@[before.len() + j],
                        #[trigger] outputs@[j],
                        anchor->0,
                    ),
        {
            let out = &outputs[k];
            let ticks: i64 = match out.pts {
                Some(p) => p,
                None => 0,
            };
            let out_nanos: i128 = floor_div(ticks as i128 * timing::NANOS, self.src_rate as i128);
            proof {
                let rate = old(self).src_rate as int;
                let scaled = ticks * 1_000_000_000;
                assert(-0x4000_0000_0000_0000_0000_0000 <= scaled / rate
                    <= 0x4000_0000_0000_0000_0000_0000) by (nonlinear_arith)
                    requires
                        rate >= 1,
                        -0x4000_0000_0000_0000_0000_0000 <= scaled
                            <= 0x4000_0000_0000_0000_0000_0000,
                ;
            }
            let (media, start) = match anchor {
                Some(a) => a,
                None => (pts, Seconds { nanos: out_nanos }),
            };
            anchor = Some((media, start));
            let elapsed: i128 = out_nanos - start.nanos;
            let units: i128 = self.speed.units as i128;
            assert(-0x8000_0000_0000_0000_0000_0000 * 0x1000_0000 <= elapsed * units
                <= 0x8000_0000_0000_0000_0000_0000 * 0x1000_0000) by (nonlinear_arith)
                requires
                    -0x8000_0000_0000_0000_0000_0000 <= elapsed <= 0x8000_0000_0000_0000_0000_0000,
                    0 <= units <= 0x1000_0000,
            ;
            let shift: i128 = floor_div(elapsed * units, tempo::SPEED_ONE as i128);
            let frame = DecodedAudioFrame {
                pts_secs: ExactTime::from_whole(
                    Seconds { nanos: saturating_sum(media.nanos, shift) },
                ),
                samples: Pcm::Single(read_single_words(&out.data)),
                sample_rate: self.src_rate,
                channels: self.src_channels,
            };
            assert(old(self).is_stretched(frame, *out, anchor->0));
            self.pending.push_back(frame);
        }
        assert(outputs@.take(n as int) =~= outputs@);
        self.tempo_anchor = anchor;
        let ghost all = self.pending@;
        let r = self.pending.pop_front();
        assert(handed_out(r) + self.pending@ =~= all);
        r
    }

    /// Samples a second.
    pub fn sample_rate(&self) -> (r: u32)
        ensures
            r == self.src_rate,
    {
        self.src_rate
    }

    /// Channels.
    pub fn channels(&self) -> (r: u8)
        ensures
            r == self.src_channels,
    {
        self.src_channels
    }
}

impl AudioDecoder {
    /// The decoder once it has taken in `raws`.
    pub open spec fn after_blocks(self, raws: Seq<RawAudio>) -> AudioDecoder
        decreases raws.len(),
    {
        if raws.len() == 0 {
            self
        } else {
            self.after_blocks(raws.drop_last()).after_block(raws.last())
        }
    }
}

/// Samples of each channel in `raws`.
pub open spec fn samples_in(raws: Seq<RawAudio>) -> int
    decreases raws.len(),
{
    if raws.len() == 0 {
        0
    } else {
        samples_in(raws.drop_last()) + raws.last().samples
    }
}

proof fn lemma_play_time(d: AudioDecoder, pts: Option<i64>)
    requires
        d.wf(),
    ensures
        d.play_time(pts).wf(),
        d.play_time(pts).nanos >= 0,
        d.untimed(pts) ==> d.play_time(pts) == (match d.next_pts {
            Some(due) => due,
            None => ExactTime::zero(),
        }),
{
    if let Some(p) = pts {
        let div = d.time_base.divisor();
        let ticks = p * d.time_base.num * 1_000_000_000;
        vstd::arithmetic::div_mod::lemma_mod_bound(ticks, div);
    }
}

/// Sound whose container does not say when it is played continues exactly where
/// the block before it ended, whatever timed that block: the sample count takes
/// over, and time neither freezes nor jumps. The times are told by fractions
/// over the product of their denominators: no rounding stands between them.
pub proof fn law_untimed_sound_continues(d: AudioDecoder, raw: RawAudio, pts: Option<i64>)
    requires
        d.wf(),
        raw.rate > 0,
        d.untimed(pts),
        d.play_time(raw.pts).takes(raw.rate),
        d.play_time(raw.pts).nanos + raw.samples * 1_000_000_000 + 2 <= i128::MAX,
    ensures
        ({
            let before = d.play_time(raw.pts);
            let after = d.after_block(raw).play_time(pts);
            &&& after == before.later(raw.samples as int, raw.rate)
            &&& after.scaled() * (before.den * raw.rate) == (before.scaled() * raw.rate
                + raw.samples * 1_000_000_000 * before.den) * after.den
        }),
{
    let before = d.play_time(raw.pts);
    lemma_play_time(d, raw.pts);
    timing::law_samples_add_exactly(before, raw.samples as int, raw.rate);
    let next = d.after_block(raw);
    assert(next.container_time(pts) == d.container_time(pts));
    timing::lemma_later_is_wf(before, raw.samples as int, raw.rate);
    lemma_play_time(next, pts);
}

/// A block that the container times, or the first one, always leaves room for
/// the exact end of its samples.
pub proof fn law_timed_blocks_end_exactly(d: AudioDecoder, raw: RawAudio)
    requires
        d.wf(),
        raw.rate > 0,
        !d.untimed(raw.pts) || d.next_pts is None,
    ensures
        d.play_time(raw.pts).takes(raw.rate),
{
    lemma_play_time(d, raw.pts);
    let t = d.play_time(raw.pts);
    assert(t.den <= 0x7fff_ffff);
    assert(t.den * raw.rate <= u64::MAX) by (nonlinear_arith)
        requires
            0 < t.den <= 0x7fff_ffff,
            raw.rate <= 0xffff_ffff,
    ;
}

/// The same law, told of the blocks that are played: when `frame` is what was
/// delivered for `raw` and the block after it has no time, it is played at the
/// time of `frame` plus the samples of `frame` over its rate and channels.
pub proof fn law_the_next_block_follows_the_frame(
    d: AudioDecoder,
    raw: RawAudio,
    frame: DecodedAudioFrame,
    pts: Option<i64>,
)
    requires
        d.wf(),
        frame.sample_rate > 0,
        raw.channel_count() < 256,
        frame.pts_secs == d.play_time(raw.pts),
        pcm::is_interleaved(frame.samples, raw.buffers()),
        frame.sample_rate == raw.rate,
        frame.channels == raw.channel_count() % 256,
        d.untimed(pts),
        frame.pts_secs.takes(raw.rate),
        frame.pts_secs.nanos + frame.samples.len() * 1_000_000_000 + 2 <= i128::MAX,
    ensures
        ({
            let before = frame.pts_secs;
            let after = d.after_block(raw).play_time(pts);
            let per_second = frame.sample_rate * frame.channels;
            after.scaled() * (before.den * per_second) == (before.scaled() * per_second
                + frame.samples.len() * 1_000_000_000 * before.den) * after.den
        }),
{
    let n = raw.samples as int;
    let c = raw.channel_count();
    let rate = raw.rate as int;
    let before = frame.pts_secs;
    let after = d.after_block(raw).play_time(pts);
    assert(frame.samples.len() == n * c);
    assert(n <= n * c) by (nonlinear_arith)
        requires
            n >= 0,
            c >= 1,
    ;
    law_untimed_sound_continues(d, raw, pts);
    let l = after.scaled();
    let b = before.scaled();
    let e = before.den as int;
    let a = after.den as int;
    let one = b * rate + n * 1_000_000_000 * e;
    let all = b * (rate * c) + n * c * 1_000_000_000 * e;
    assert(n * c * 1_000_000_000 * e == (n * 1_000_000_000 * e) * c) by (nonlinear_arith);
    assert(all == one * c) by (nonlinear_arith)
        requires
            one == b * rate + n * 1_000_000_000 * e,
            all == b * (rate * c) + (n * 1_000_000_000 * e) * c,
    ;
    assert(l * (e * (rate * c)) == (l * (e * rate)) * c) by (nonlinear_arith);
    assert(all * a == (one * a) * c) by (nonlinear_arith)
        requires
            all == one * c,
    ;
}

/// Sound whose container says of no block when it is played is timed by its
/// sample count alone, without drift: a block is due when all the samples before
/// it, `rate` to the second, have been played.
pub proof fn law_samples_tell_the_time(
    d: AudioDecoder,
    raws: Seq<RawAudio>,
    pts: Option<i64>,
    rate: u32,
)
    requires
        d.wf(),
        d.next_pts is None,
        rate > 0,
        forall|i: int|
            0 <= i < raws.len() ==> d.untimed(#[trigger] raws[i].pts) && raws[i].rate == rate,
        d.untimed(pts),
        samples_in(raws) * 1_000_000_000 + 2 <= i128::MAX,
    ensures
        ({
            let due = d.after_blocks(raws).play_time(pts);
            &&& due.scaled() * rate == samples_in(raws) * 1_000_000_000 * due.den
            &&& due.nanos == samples_in(raws) * 1_000_000_000 / (rate as int)
        }),
{
    lemma_untimed_blocks(d, raws, rate);
    let after = d.after_blocks(raws);
    assert(after.container_time(pts) == d.container_time(pts));
    lemma_play_time(after, pts);
    let due = after.play_time(pts);
    let span = samples_in(raws) * 1_000_000_000;
    let den = due.den as int;
    let k = rate as int;
    if raws.len() == 0 {
        assert(due == ExactTime::zero());
        assert((due.nanos * den + due.num) * k == span * den) by (nonlinear_arith)
            requires
                due.nanos == 0,
                due.num == 0,
                span == 0,
        ;
    }
    let x = due.nanos * k;
    let f = due.num * k;
    assert(x * den + f == span * den && 0 <= f < k * den) by (nonlinear_arith)
        requires
            (due.nanos * den + due.num) * k == span * den,
            x == due.nanos * k,
            f == due.num * k,
            0 <= due.num < den,
            k > 0,
    ;
    assert(f == (span - x) * den) by (nonlinear_arith)
        requires
            x * den + f == span * den,
    ;
    assert(0 <= span - x < k) by (nonlinear_arith)
        requires
            f == (span - x) * den,
            0 <= f < k * den,
            den > 0,
    ;
    vstd::arithmetic::div_mod::lemma_fundamental_div_mod_converse(
        span,
        k,
        due.nanos as int,
        span - x,
    );
}

proof fn lemma_untimed_blocks(d: AudioDecoder, raws: Seq<RawAudio>, rate: u32)
    requires
        d.wf(),
        d.next_pts is None,
        rate > 0,
        forall|i: int|
            0 <= i < raws.len() ==> d.untimed(#[trigger] raws[i].pts) && raws[i].rate == rate,
        samples_in(raws) * 1_000_000_000 + 2 <= i128::MAX,
    ensures
        samples_in(raws) >= 0,
        d.after_blocks(raws).wf(),
        d.after_blocks(raws).time_base == d.time_base,
        d.after_blocks(raws).start_offset == d.start_offset,
        raws.len() == 0 ==> d.after_blocks(raws).next_pts is None,
        raws.len() > 0 ==> ({
            &&& d.after_blocks(raws).next_pts matches Some(due)
            &&& due.den == 1 || due.den == rate
            &&& due.scaled() * rate == samples_in(raws) * 1_000_000_000 * due.den
        }),
    decreases raws.len(),
{
    if raws.len() > 0 {
        let init = raws.drop_last();
        let last = raws.last();
        assert forall|i: int| 0 <= i < init.len() implies d.untimed(#[trigger] init[i].pts)
            && init[i].rate == rate by {
            assert(init[i] == raws[i]);
        }
        assert(d.untimed(raws[raws.len() - 1].pts) && raws[raws.len() - 1].rate == rate);
        lemma_untimed_blocks(d, init, rate);
        let state = d.after_blocks(init);
        assert(state.container_time(last.pts) == d.container_time(last.pts));
        lemma_play_time(state, last.pts);
        let before = state.play_time(last.pts);
        let played = samples_in(init) * 1_000_000_000;
        let k = rate as int;
        let e = before.den as int;
        let n = last.samples as int;
        assert(before.scaled() * k == played * e) by {
            if init.len() == 0 {
                assert(before.scaled() == 0);
                assert(0 * k == 0) by (nonlinear_arith);
            }
        }
        assert(e == 1 || e == k);
        assert(before.nanos <= played) by (nonlinear_arith)
            requires
                (before.nanos * e + before.num) * k == played * e,
                before.num >= 0,
                before.nanos >= 0,
                e > 0,
                k > 0,
        {
            assert(before.nanos * e * k <= played * e);
            assert(before.nanos * k <= played) by (nonlinear_arith)
                requires
                    before.nanos * e * k <= played * e,
                    e > 0,
            ;
        }
        assert(k % k == 0) by (nonlinear_arith)
            requires
                k > 0,
        ;
        if e == 1 {
            assert(e * k == k) by (nonlinear_arith)
                requires
                    e == 1,
            ;
        }
        assert(before.takes(rate));
        assert(before.common_den(rate) == 1 || before.common_den(rate) == k);
        timing::law_samples_add_exactly(before, n, rate);
        timing::lemma_later_is_wf(before, n, rate);
        let due = before.later(n, rate);
        let total = played + n * 1_000_000_000;
        let l = due.scaled();
        let a = due.den as int;
        assert(l * k == total * a) by (nonlinear_arith)
            requires
                l * (e * k) == (before.scaled() * k + n * 1_000_000_000 * e) * a,
                before.scaled() * k == played * e,
                total == played + n * 1_000_000_000,
                e > 0,
        {
            assert((played * e + n * 1_000_000_000 * e) * a == e * (total * a));
            assert(l * (e * k) == e * (l * k));
        }
    }
}

/// A time that the container gives, past the start of the content, is the one
/// that counts.
pub proof fn law_container_time_counts(d: AudioDecoder, pts: Option<i64>)
    requires
        d.container_time(pts) matches Some(t) && t.positive(),
    ensures
        d.play_time(pts) == d.container_time(pts)->0,
{
}

/// What leaves the chain at its anchor is at the anchor's time; what leaves it
/// later is not earlier on the media axis.
pub proof fn law_media_time_follows_the_chain(
    anchor: (Seconds, Seconds),
    speed: Speed,
    first: int,
    second: int,
)
    requires
        speed.wf(),
        first <= second,
    ensures
        media_time(anchor, anchor.1.nanos as int, speed) == anchor.0.nanos,
        media_time(anchor, first, speed) <= media_time(anchor, second, speed),
{
    let one = tempo::SPEED_ONE as int;
    let u = speed.units as int;
    let a = (first - anchor.1.nanos) * u;
    let b = (second - anchor.1.nanos) * u;
    assert(a <= b) by (nonlinear_arith)
        requires
            first <= second,
            u >= 0,
            a == (first - anchor.1.nanos) * u,
            b == (second - anchor.1.nanos) * u,
    ;
    vstd::arithmetic::div_mod::lemma_div_is_ordered(a, b, one);
    assert((anchor.1.nanos - anchor.1.nanos) * u == 0) by (nonlinear_arith);
}

/// At normal speed the chain changes no time.
pub proof fn law_normal_speed_keeps_time(anchor: (Seconds, Seconds), out: int)
    ensures
        media_time(anchor, out, Speed { units: tempo::SPEED_ONE }) == timing::saturated(
            anchor.0.nanos + (out - anchor.1.nanos),
        ),
{
    let d = out - anchor.1.nanos;
    let one = tempo::SPEED_ONE as int;
    vstd::arithmetic::div_mod::lemma_div_multiples_vanish(d, one);
    assert(d * one == one * d) by (nonlinear_arith);
}

/// What an untold time at the end of the chain counts as.
pub open spec fn told(pts: Option<i64>) -> int {
    match pts {
        Some(p) => p as int,
        None => 0,
    }
}

/// Time at the end of the chain is counted in samples, `rate` to the second.
pub proof fn law_chain_time_is_samples(pts: Option<i64>, rate: u32)
    requires
        rate > 0,
    ensures
        chain_time(pts, rate) * rate <= told(pts) * 1_000_000_000 < (chain_time(pts, rate) + 1)
            * rate,
{
    let x = told(pts) * 1_000_000_000;
    let d = rate as int;
    vstd::arithmetic::div_mod::lemma_fundamental_div_mod(x, d);
    vstd::arithmetic::div_mod::lemma_mod_bound(x, d);
    assert(d * (x / d) == (x / d) * d) by (nonlinear_arith);
    assert((x / d + 1) * d == (x / d) * d + d) by (nonlinear_arith);
}

/// Stretched sound stays with the picture. Two blocks that leave the chain some
/// time apart are `speed` times that time apart on the media axis, to a
/// nanosecond, at every speed that playback can have: slower sound covers less
/// of the media, faster sound more.
pub proof fn law_stretched_blocks_follow_the_speed(
    d: AudioDecoder,
    anchor: (Seconds, Seconds),
    first: DecodedAudioFrame,
    out1: FilteredAudio,
    second: DecodedAudioFrame,
    out2: FilteredAudio,
)
    requires
        d.src_rate > 0,
        d.is_stretched(first, out1, anchor),
        d.is_stretched(second, out2, anchor),
        i128::MIN < first.pts_secs.nanos < i128::MAX,
        i128::MIN < second.pts_secs.nanos < i128::MAX,
    ensures
        ({
            let apart = chain_time(out2.pts, d.src_rate) - chain_time(out1.pts, d.src_rate);
            let media = second.pts_secs.nanos - first.pts_secs.nanos;
            -tempo::SPEED_ONE <= media * tempo::SPEED_ONE - apart * d.speed.units
                <= tempo::SPEED_ONE
        }),
{
    let one = tempo::SPEED_ONE as int;
    let u = d.speed.units as int;
    let x = chain_time(out1.pts, d.src_rate) - anchor.1.nanos;
    let y = chain_time(out2.pts, d.src_rate) - anchor.1.nanos;
    let (a, b) = (x * u, y * u);
    vstd::arithmetic::div_mod::lemma_fundamental_div_mod(a, one);
    vstd::arithmetic::div_mod::lemma_mod_bound(a, one);
    vstd::arithmetic::div_mod::lemma_fundamental_div_mod(b, one);
    vstd::arithmetic::div_mod::lemma_mod_bound(b, one);
    assert((y - x) * u == b - a) by (nonlinear_arith)
        requires
            a == x * u,
            b == y * u,
    ;
}

/// The first block that leaves a new chain is at the time of the sound that went
/// in; an anchor that stands keeps standing.
pub proof fn law_the_chain_starts_at_its_sound(
    d: AudioDecoder,
    pts: Seconds,
    outputs: Seq<FilteredAudio>,
    frame: DecodedAudioFrame,
    standing: (Seconds, Seconds),
)
    requires
        d.src_rate > 0,
        outputs.len() > 0,
        d.is_stretched(frame, outputs[0], anchor_after(None, pts, outputs, d.src_rate)->0),
    ensures
        frame.pts_secs == (ExactTime { nanos: pts.nanos, num: 0, den: 1 }),
        anchor_after(Some(standing), pts, outputs, d.src_rate) == Some(standing),
{
    let u = d.speed.units as int;
    let p = told(outputs[0].pts) * 1_000_000_000;
    let rate = d.src_rate as int;
    let t = chain_time(outputs[0].pts, d.src_rate);
    assert(i128::MIN <= t <= i128::MAX) by {
        assert(-0x4000_0000_0000_0000_0000_0000 <= p / rate <= 0x4000_0000_0000_0000_0000_0000)
            by (nonlinear_arith)
            requires
                rate >= 1,
                -0x4000_0000_0000_0000_0000_0000 <= p <= 0x4000_0000_0000_0000_0000_0000,
        ;
    }
    assert((t - t) * u == 0) by (nonlinear_arith);
}

/// What comes from the chain is a sample for each four bytes, the lowest byte
/// first, for the rate and the channels of the sound.
pub proof fn law_stretched_samples_are_those_of_the_chain(
    d: AudioDecoder,
    anchor: (Seconds, Seconds),
    frame: DecodedAudioFrame,
    out: FilteredAudio,
    i: int,
)
    requires
        d.is_stretched(frame, out, anchor),
        0 <= i < out.data@.len() / 4,
    ensures
        frame.sample_rate == d.src_rate && frame.channels == d.src_channels,
        frame.samples matches Pcm::Single(words) && words@.len() == out.data@.len() / 4 && words@[i]
            == out.data@[4 * i] + 256 * out.data@[4 * i + 1] + 65536 * out.data@[4 * i + 2]
            + 16777216 * out.data@[4 * i + 3],
{
}

/// The time of a block counts from the start of the content: a timestamp at or
/// after the start is that much later than zero, exactly, and one before it is
/// the start. A block has no time of its own only where the container gives
/// none, or the mark for none.
pub proof fn law_content_starts_at_zero(d: AudioDecoder, p: i64)
    requires
        d.time_base.den >= 1,
        i128::MIN <= d.time_base.nanos(p as int) - d.start_offset.nanos <= i128::MAX,
    ensures
        d.container_time(None) is None,
        d.container_time(Some(p)) is None <==> p == i64::MIN,
        p != i64::MIN ==> ({
            let late = p * d.time_base.num * 1_000_000_000 - d.start_offset.nanos * d.time_base.den;
            let t = d.container_time(Some(p))->0;
            &&& late >= 0 ==> t.scaled() * d.time_base.den == late * t.den
            &&& late < 0 ==> t == (ExactTime { nanos: 0, num: 0, den: 1 })
        }),
{
    let den = d.time_base.den as int;
    let s = d.start_offset.nanos as int;
    let x = p * d.time_base.num * 1_000_000_000;
    let q = d.time_base.nanos(p as int);
    timing::law_ticks_are_seconds(d.time_base, p as int);
    timing::law_exact_times_are_exact(d.time_base, p as int, d.start_offset);
    assert(q - s < 0 <==> x - s * den < 0) by (nonlinear_arith)
        requires
            q * den <= x < (q + 1) * den,
            den > 0,
    ;
}

/// A block of sound has a channel, those that it announces if it announces any,
/// and its buffers are those it came with.
pub proof fn law_blocks_have_a_channel(raw: RawAudio)
    ensures
        raw.channels > 0 ==> raw.channel_count() == raw.channels,
        raw.channels == 0 ==> raw.channel_count() == 1,
        raw.buffers().channels == raw.channel_count(),
        raw.buffers().samples == raw.samples,
        raw.buffers().planes == raw.planes,
        raw.buffers().kind == raw.kind,
        raw.buffers().planar == raw.planar,
        raw.buffers().order == raw.order,
{
}

/// Sound goes into the chain at its own time, in samples of its own rate, and as
/// many of them as it has.
pub proof fn law_sound_goes_into_the_chain_at_its_time(
    d: AudioDecoder,
    raw: RawAudio,
    job: StretchJob,
)
    requires
        d.wf(),
        d.is_stretch_job(raw, job),
        raw.channel_count() < 256,
        i64::MIN < job.input_pts < i64::MAX,
    ensures
        job.frames == raw.samples,
        job.pts_secs.nanos == d.play_time(raw.pts).nanos,
        ({
            let t = d.play_time(raw.pts);
            job.input_pts * (t.den * 1_000_000_000) <= t.scaled() * raw.rate < (job.input_pts + 1)
                * (t.den * 1_000_000_000)
        }),
{
    lemma_play_time(d, raw.pts);
    timing::law_ticks_are_the_last_not_after(d.play_time(raw.pts), raw.rate);
    let n = raw.samples as int;
    let c = raw.channel_count();
    vstd::arithmetic::div_mod::lemma_div_multiples_vanish(n, c);
    assert(n * c == c * n) by (nonlinear_arith);
}

/// Sound is played when the container says; only where it does not say does the
/// count of samples decide, and the very first sound starts at zero.
pub proof fn law_who_tells_the_time(d: AudioDecoder, pts: Option<i64>)
    requires
        d.wf(),
    ensures
        ({
            let told = d.container_time(pts);
            let plays = d.play_time(pts);
            &&& told matches Some(t) ==> (t.nanos > 0 || (t.nanos == 0 && t.num > 0) ==> plays == t)
            &&& d.untimed(pts) && d.next_pts is Some ==> Some(plays) == d.next_pts
            &&& d.untimed(pts) && d.next_pts is None ==> plays.nanos == 0 && plays.num == 0
            &&& plays.nanos >= 0
        }),
{
    lemma_play_time(d, pts);
}

/// A block leaves the decoder ready for the one after it: everything but the
/// time that is due and the shape of the sound stays.
pub proof fn law_blocks_change_only_the_time(d: AudioDecoder, raw: RawAudio)
    ensures
        ({
            let after = d.after_block(raw);
            &&& after.speed == d.speed && after.pending == d.pending
            &&& after.time_base == d.time_base && after.start_offset == d.start_offset
            &&& after.tempo_built == d.tempo_built && after.tempo_anchor == d.tempo_anchor
            &&& after.src_layout == d.src_layout && after.src_rate == raw.rate
            &&& raw.rate == 0 ==> after.next_pts == d.next_pts
            &&& raw.rate > 0 ==> after.next_pts is Some
            &&& raw.channel_count() < 256 ==> after.src_channels == raw.channel_count()
        }),
{
}

/// What is handed out is the block itself, or nothing.
pub proof fn law_blocks_are_handed_out_whole(frame: DecodedAudioFrame)
    ensures
        handed_out(Some(frame)).len() == 1 && handed_out(Some(frame))[0] == frame,
        handed_out(None).len() == 0,
{
}

/// The chain counts samples by the channels that a block can name, one where it
/// can name none: every such sample that is whole goes in.
pub proof fn law_whole_samples_go_into_the_chain(d: AudioDecoder, raw: RawAudio, job: StretchJob)
    requires
        d.is_stretch_job(raw, job),
    ensures
        ({
            let all = raw.samples * raw.channel_count();
            let named = raw.channel_count() % 256;
            &&& named == 0 ==> job.frames == all
            &&& named > 0 ==> job.frames * named <= all < (job.frames + 1) * named
        }),
{
    let all = raw.samples * raw.channel_count();
    let named = raw.channel_count() % 256;
    if named > 0 {
        assert(job.frames == all / named);
        vstd::arithmetic::div_mod::lemma_fundamental_div_mod(all, named);
        assert(job.frames * named <= all < (job.frames + 1) * named) by (nonlinear_arith)
            requires
                all == named * (all / named) + all % named,
                0 <= all % named < named,
                job.frames == all / named,
        ;
    }
}

/// A decoder of sound plays between a quarter of normal speed and four times it,
/// and never owes a block to a time before the start.
pub proof fn law_decoders_stay_in_bounds(d: AudioDecoder)
    requires
        d.wf(),
    ensures
        tempo::SPEED_ONE <= 4 * d.speed.units,
        d.speed.units <= 4 * tempo::SPEED_ONE,
        d.next_pts matches Some(due) ==> due.nanos >= 0 && due.num < due.den,
{
}

} // verus!

//! The thread that reads packets, decodes sound and subtitles, and drives the
//! video thread: what it does with each command, packet and frame.

use vstd::prelude::*;

use crate::pipeline::{FrameStep, PipelineCommand, PipelineEvent};
use crate::probe;
use crate::probe::{Medium, StreamRecord};
use crate::seek::SeekFilter;
use crate::subtitle;
use crate::subtitle::{
    collect_subtitle_bitmaps, collect_subtitle_text, BitmapRect, SubtitleRect,
};
use crate::tempo::Speed;
use crate::text;
use crate::timing::{Seconds, TimeBase};
use crate::video_worker::VideoWorker;

verus! {

/// Pause between two looks at the commands while playback is paused, in
/// milliseconds.
pub const PAUSED_SLEEP: u64 = 5;

/// Pause before looking again at full queues, in milliseconds.
pub const BACKPRESSURE_SLEEP: u64 = 4;

/// How long a preview may search for its frame, in milliseconds.
pub const PREVIEW_DEADLINE: u64 = 800;

/// How long the end of the stream waits for the video thread to deliver its
/// last frames, in milliseconds.
pub const END_ACK_TIMEOUT: u64 = 500;

/// How long a block of sound waits for room in its queue, in milliseconds.
pub const AUDIO_SEND_TIMEOUT: u64 = 200;

/// How long a text without a duration stays on screen.
pub const TEXT_CUE: i128 = 1_000_000_000;

/// How long an image without a duration may stay on screen; the next image, or
/// an empty one, ends it.
pub const IMAGE_CUE: i128 = 30_000_000_000;

/// What the demuxer knows of a stream.
#[derive(Debug, Clone, Copy, PartialEq, Eq, Structural)]
pub struct StreamEntry {
    pub index: usize,
    pub medium: Medium,
    pub time_base: TimeBase,
    /// A decoder for it opens.
    pub decodable: bool,
}

/// A subtitle track that is decoded.
#[derive(Debug, Clone, Copy, PartialEq, Eq, Structural)]
pub struct SubtitleTrack {
    pub stream: usize,
    /// Its rank among the subtitle tracks of the file.
    pub ordinal: usize,
    pub time_base: TimeBase,
    /// It has given an image.
    pub bitmap: bool,
}

/// The state of the demuxer.
pub struct Demuxer {
    pub streams: Vec<StreamEntry>,
    pub video_stream: Option<usize>,
    pub audio_stream: Option<usize>,
    /// The sound tracks of the file.
    pub audio_streams: Vec<usize>,
    pub subtitles: Vec<SubtitleTrack>,
    pub paused: bool,
    /// A seek was made during a pause, and its picture is still to be shown.
    pub preview_pending: bool,
    /// The preview under way has shown a picture since its last packet.
    pub preview_sent: bool,
    pub preview_filter: SeekFilter,
    pub audio_filter: SeekFilter,
}

/// What a command asks for, beyond a change of state.
#[derive(Debug, Clone, Copy, PartialEq, Eq, Structural)]
pub enum CommandStep {
    Done,
    /// Leave the thread.
    Stop,
    /// Seek, then tell [`Demuxer::on_seek`] what has become of it.
    Seek(Seconds),
    /// Change the speed of the audio decoder.
    SetSpeed(Speed),
    /// Build this anew.
    Rebuild(RebuildStep),
}

/// A stream to be decoded, and the unit of its timestamps.
#[derive(Debug, Clone, Copy, PartialEq, Eq, Structural)]
pub struct DecodedStream {
    pub index: usize,
    pub time_base: TimeBase,
}

/// A decoder to be built anew. The one it takes the place of goes with
/// everything it holds, also when no stream is given or none opens.
#[derive(Debug, Clone, Copy, PartialEq, Eq, Structural)]
pub enum RebuildStep {
    /// Reset the video thread with a new decoder, and hold back what comes
    /// before `skip_until`.
    Video { stream: Option<DecodedStream>, skip_until: Seconds },
    /// The decoder of the sound.
    Audio(Option<DecodedStream>),
    /// The decoder of previews.
    Preview(Option<DecodedStream>),
}

/// What the thread does next.
#[derive(Debug, Clone, Copy, PartialEq, Eq, Structural)]
pub enum LoopStep {
    /// Look at the commands again.
    Again,
    /// Look at the commands again after so many milliseconds.
    Sleep(u64),
    /// Search for the picture of a seek made during a pause.
    Preview,
    /// Read a packet.
    Read,
}

/// What happens during a preview.
#[derive(Debug, Clone, Copy, PartialEq, Eq, Structural)]
pub enum PreviewEvent {
    /// A packet may be read; so many milliseconds have passed.
    Ready(u64),
    ReadFailed,
    /// A packet of this stream was read.
    Packet(usize),
    /// The decoder gave a frame of this time.
    Frame(Seconds),
    /// The decoder has no more frames for the packet.
    NoFrame,
}

/// What a preview does next.
#[derive(Debug, Clone, Copy, PartialEq, Eq, Structural)]
pub enum PreviewStep {
    Stop,
    /// Check the time; [`PreviewEvent::Ready`] follows.
    Check,
    Read,
    /// Hand the packet to the decoder and ask it for frames.
    Decode,
    /// Drop the frame and ask for the next.
    Drop,
    /// Show the frame, announce its time and ask for the next.
    Show,
}

/// What reading a packet gave.
pub enum ReadEvent {
    /// A packet of this stream.
    Packet(usize),
    Eof,
    Failed(String),
}

/// What to do after a read.
pub enum ReadStep {
    /// Hand the packet to the video thread, or drop it if its queue is full.
    Video,
    /// Hand the packet to the audio decoder.
    Audio,
    /// Hand the packet to the decoder of this subtitle track.
    Subtitle(usize),
    Ignore,
    /// Perform these steps and leave the thread.
    Finish(Vec<EndStep>),
}

/// A step at the end of a stream.
pub enum EndStep {
    /// Offer each block of sound that the audio decoder still holds for so many
    /// milliseconds.
    FlushAudio(u64),
    /// Have the video thread deliver its last frames, and wait for it so many
    /// milliseconds at most.
    DrainVideo(u64),
    Announce(PipelineEvent),
}

/// The indices of the streams that carry `medium`, in order.
pub open spec fn indices_of(streams: Seq<StreamEntry>, medium: Medium) -> Seq<usize>
    decreases streams.len(),
{
    if streams.len() == 0 {
        seq![]
    } else {
        let before = indices_of(streams.drop_last(), medium);
        if streams.last().medium == medium {
            before.push(streams.last().index)
        } else {
            before
        }
    }
}

/// The subtitle tracks that are decoded: each keeps the rank it has among all
/// subtitle tracks of the file.
pub open spec fn tracks_of(streams: Seq<StreamEntry>) -> Seq<SubtitleTrack>
    decreases streams.len(),
{
    if streams.len() == 0 {
        seq![]
    } else {
        let before = tracks_of(streams.drop_last());
        let s = streams.last();
        if s.medium == Medium::Subtitle && s.decodable {
            before.push(
                SubtitleTrack {
                    stream: s.index,
                    ordinal: indices_of(streams.drop_last(), Medium::Subtitle).len() as usize,
                    time_base: s.time_base,
                    bitmap: false,
                },
            )
        } else {
            before
        }
    }
}

/// The rank of the first track that decodes `stream`.
pub open spec fn track_for(tracks: Seq<SubtitleTrack>, stream: usize) -> Option<int>
    decreases tracks.len(),
{
    if tracks.len() == 0 {
        None
    } else if track_for(tracks.drop_last(), stream) is Some {
        track_for(tracks.drop_last(), stream)
    } else if tracks.last().stream == stream {
        Some(tracks.len() - 1)
    } else {
        None
    }
}

/// When a cue starts: a packet without a time, or with one before the start of
/// the content, is shown at the start.
pub open spec fn cue_start(track: SubtitleTrack, pts: Option<i64>) -> int {
    match pts {
        Some(p) => if p > 0 {
            track.time_base.nanos(p as int)
        } else {
            track.time_base.nanos(0)
        },
        None => track.time_base.nanos(0),
    }
}

/// When a cue ends. Packets with images often have no duration: an image stays
/// until the next one, or an empty one, takes its place.
pub open spec fn cue_end(
    track: SubtitleTrack,
    pts: Option<i64>,
    duration: i64,
    bitmap: bool,
) -> int {
    cue_start(track, pts) + if duration * track.time_base.num > 0 {
        track.time_base.nanos(duration as int)
    } else if bitmap {
        IMAGE_CUE as int
    } else {
        TEXT_CUE as int
    }
}

/// `event` shows `text` on the track of rank `ordinal`, from `start` to `end`.
pub open spec fn shows_text(
    event: PipelineEvent,
    ordinal: usize,
    text: Seq<char>,
    start: int,
    end: int,
) -> bool {
    &&& event matches PipelineEvent::SubtitleLine(o, t, s, e)
    &&& o == ordinal
    &&& t@ == text
    &&& s.nanos == start
    &&& e.nanos == end
}

/// `event` shows the images of `rects` on the track of rank `ordinal`, from
/// `start` to `end`.
pub open spec fn shows_images(
    event: PipelineEvent,
    ordinal: usize,
    rects: Seq<BitmapRect>,
    start: int,
    end: int,
) -> bool {
    &&& event matches PipelineEvent::SubtitleBitmap(o, b, s, e)
    &&& o == ordinal
    &&& b@.len() == rects.len()
    &&& forall|k: int|
        0 <= k < rects.len() ==> subtitle::is_image_of(#[trigger] b@[k], rects[k])
    &&& s.nanos == start
    &&& e.nanos == end
}

fn start_of_cue(track: SubtitleTrack, pts: Option<i64>) -> (r: Seconds)
    ensures
        r.nanos == cue_start(track, pts),
        -0x1000_0000_0000_0000_0000_0000_0000_0000 <= r.nanos
            <= 0x1000_0000_0000_0000_0000_0000_0000_0000,
{
    let ticks: i64 = match pts {
        Some(p) => if p > 0 {
            p
        } else {
            0
        },
        None => 0,
    };
    track.time_base.seconds(ticks)
}

fn end_of_cue(track: SubtitleTrack, pts: Option<i64>, duration: i64, bitmap: bool) -> (r: Seconds)
    ensures
        r.nanos == cue_end(track, pts, duration, bitmap),
{
    let unit = track.time_base;
    let span: i128 = if (duration > 0 && unit.num > 0) || (duration < 0 && unit.num < 0) {
        unit.seconds(duration).nanos
    } else if bitmap {
        IMAGE_CUE
    } else {
        TEXT_CUE
    };
    proof {
        let d = duration as int;
        let n = unit.num as int;
        assert((d * n > 0) == ((d > 0 && n > 0) || (d < 0 && n < 0))) by (nonlinear_arith);
    }
    Seconds { nanos: start_of_cue(track, pts).nanos + span }
}

fn list_indices(streams: &Vec<StreamEntry>, medium: Medium) -> (r: Vec<usize>)
    ensures
        r@ == indices_of(streams@, medium),
{
    let mut out: Vec<usize> = Vec::new();
    for i in 0..streams.len()
        invariant
            out@ == indices_of(streams@.take(i as int), medium),
    {
        assert(streams@.take(i + 1).drop_last() =~= streams@.take(i as int));
        if streams[i].medium == medium {
            out.push(streams[i].index);
        }
    }
    assert(streams@.take(streams@.len() as int) =~= streams@);
    out
}

fn list_tracks(streams: &Vec<StreamEntry>) -> (r: Vec<SubtitleTrack>)
    ensures
        r@ == tracks_of(streams@),
{
    let mut out: Vec<SubtitleTrack> = Vec::new();
    let mut seen: usize = 0;
    for i in 0..streams.len()
        invariant
            out@ == tracks_of(streams@.take(i as int)),
            seen == indices_of(streams@.take(i as int), Medium::Subtitle).len(),
            seen <= i,
    {
        assert(streams@.take(i + 1).drop_last() =~= streams@.take(i as int));
        let s = streams[i];
        if s.medium == Medium::Subtitle {
            if s.decodable {
                out.push(
                    SubtitleTrack {
                        stream: s.index,
                        ordinal: seen,
                        time_base: s.time_base,
                        bitmap: false,
                    },
                );
            }
            seen += 1;
        }
    }
    assert(streams@.take(streams@.len() as int) =~= streams@);
    out
}

fn find_track(tracks: &Vec<SubtitleTrack>, stream: usize) -> (r: Option<usize>)
    ensures
        r is Some == track_for(tracks@, stream) is Some,
        r matches Some(k) ==> k == track_for(tracks@, stream)->0,
{
    for i in 0..tracks.len()
        invariant
            track_for(tracks@.take(i as int), stream) is None,
    {
        assert(tracks@.take(i + 1).drop_last() =~= tracks@.take(i as int));
        if tracks[i].stream == stream {
            proof {
                lemma_track_found(tracks@, stream, i as int);
            }
            return Some(i);
        }
    }
    assert(tracks@.take(tracks@.len() as int) =~= tracks@);
    None
}

impl Demuxer {
    /// The unit of a stream's timestamps; nothing moves on a stream that is
    /// not there.
    pub open spec fn unit_of(self, stream: usize) -> TimeBase {
        if stream < self.streams@.len() {
            self.streams@[stream as int].time_base
        } else {
            TimeBase { num: 0, den: 1 }
        }
    }

    /// A stream with its unit.
    pub open spec fn source_of(self, stream: Option<usize>) -> Option<DecodedStream> {
        match stream {
            Some(i) => Some(DecodedStream { index: i, time_base: self.unit_of(i) }),
            None => None,
        }
    }

    /// The demuxer of a file, playing.
    pub fn new(
        streams: Vec<StreamEntry>,
        video_stream: Option<usize>,
        audio_stream: Option<usize>,
    ) -> (r: Demuxer)
        ensures
            r.streams == streams,
            r.video_stream == video_stream,
            r.audio_stream == audio_stream,
            r.audio_streams@ == indices_of(streams@, Medium::Audio),
            r.subtitles@ == tracks_of(streams@),
            !r.paused,
            !r.preview_pending,
            !r.preview_sent,
            r.preview_filter == SeekFilter::idle(),
            r.audio_filter == SeekFilter::idle(),
    {
        let audio_streams = list_indices(&streams, Medium::Audio);
        let subtitles = list_tracks(&streams);
        Demuxer {
            streams,
            video_stream,
            audio_stream,
            audio_streams,
            subtitles,
            paused: false,
            preview_pending: false,
            preview_sent: false,
            preview_filter: SeekFilter::new(),
            audio_filter: SeekFilter::new(),
        }
    }

    /// The unit of a stream's timestamps.
    pub fn time_base(&self, stream: usize) -> (r: TimeBase)
        ensures
            r == self.unit_of(stream),
    {
        if stream < self.streams.len() {
            self.streams[stream].time_base
        } else {
            TimeBase { num: 0, den: 1 }
        }
    }

    fn decoded(&self, stream: Option<usize>) -> (r: Option<DecodedStream>)
        ensures
            r == self.source_of(stream),
    {
        match stream {
            Some(i) => Some(DecodedStream { index: i, time_base: self.time_base(i) }),
            None => None,
        }
    }

    /// What to tell the player once the audio decoder has, or has not, opened:
    /// a sound track that cannot be read does not stop the picture.
    pub fn audio_opened(&self, opened: bool) -> (r: Option<PipelineEvent>)
        ensures
            r is Some == (self.audio_stream is Some && !opened),
            r matches Some(e) ==> (e matches PipelineEvent::Warning(m) && m@
                == "Piste audio illisible (codec non supporté) — lecture sans son."@),
    {
        if self.audio_stream.is_some() && !opened {
            Some(
                PipelineEvent::Warning(
                    "Piste audio illisible (codec non supporté) — lecture sans son.".to_owned(),
                ),
            )
        } else {
            None
        }
    }

    /// The state after `cmd`.
    pub open spec fn after_command(self, cmd: PipelineCommand) -> Demuxer {
        match cmd {
            PipelineCommand::Pause => Demuxer { paused: true, ..self },
            PipelineCommand::Resume => Demuxer { paused: false, ..self },
            PipelineCommand::SelectAudioTrack(t) => if t < self.audio_streams@.len() {
                Demuxer { audio_stream: Some(self.audio_streams@[t as int]), ..self }
            } else {
                self
            },
            _ => self,
        }
    }

    /// What `cmd` asks for.
    pub open spec fn command_step(self, cmd: PipelineCommand) -> CommandStep {
        match cmd {
            PipelineCommand::Stop => CommandStep::Stop,
            PipelineCommand::Seek(pos) => CommandStep::Seek(pos),
            PipelineCommand::SetSpeed(s) => CommandStep::SetSpeed(s),
            PipelineCommand::SelectAudioTrack(t) => if t < self.audio_streams@.len() {
                CommandStep::Rebuild(
                    RebuildStep::Audio(self.source_of(Some(self.audio_streams@[t as int]))),
                )
            } else {
                CommandStep::Done
            },
            _ => CommandStep::Done,
        }
    }

    /// Takes in a command.
    pub fn on_command(&mut self, cmd: &PipelineCommand) -> (r: CommandStep)
        ensures
            r == old(self).command_step(*cmd),
            *final(self) == old(self).after_command(*cmd),
    {
        match cmd {
            PipelineCommand::Stop => CommandStep::Stop,
            PipelineCommand::Pause => {
                self.paused = true;
                CommandStep::Done
            },
            PipelineCommand::Resume => {
                self.paused = false;
                CommandStep::Done
            },
            PipelineCommand::Seek(pos) => CommandStep::Seek(*pos),
            PipelineCommand::SetSpeed(s) => CommandStep::SetSpeed(*s),
            PipelineCommand::SelectAudioTrack(t) => {
                if *t < self.audio_streams.len() {
                    self.audio_stream = Some(self.audio_streams[*t]);
                    CommandStep::Rebuild(RebuildStep::Audio(self.decoded(self.audio_stream)))
                } else {
                    CommandStep::Done
                }
            },
            _ => CommandStep::Done,
        }
    }

    /// The state after a seek to `target` has succeeded.
    pub open spec fn after_seek(self, target: Seconds) -> Demuxer {
        Demuxer {
            preview_pending: self.paused,
            preview_filter: SeekFilter::aimed(target),
            audio_filter: SeekFilter::aimed(target),
            ..self
        }
    }

    /// What is built anew after a seek to `target`: a decoder that has seen
    /// what came before would mix it with what comes now.
    pub open spec fn rebuilt_by_seek(self, target: Seconds) -> Seq<RebuildStep> {
        seq![
            RebuildStep::Video {
                stream: self.source_of(self.video_stream),
                skip_until: target,
            },
            RebuildStep::Audio(self.source_of(self.audio_stream)),
            RebuildStep::Preview(self.source_of(self.video_stream)),
        ]
    }

    /// What to build anew after a seek to `target`.
    pub fn seek_steps(&self, target: Seconds) -> (r: Vec<RebuildStep>)
        ensures
            r@ == self.rebuilt_by_seek(target),
    {
        let video = self.decoded(self.video_stream);
        let mut steps: Vec<RebuildStep> = Vec::new();
        steps.push(RebuildStep::Video { stream: video, skip_until: target });
        steps.push(RebuildStep::Audio(self.decoded(self.audio_stream)));
        steps.push(RebuildStep::Preview(video));
        assert(steps@ =~= self.rebuilt_by_seek(target));
        steps
    }

    /// Takes in what has become of a seek to `target`, and says what to build
    /// anew. After a seek, what comes before the target is held back, and
    /// during a pause its picture is still to be shown. A seek that fails is
    /// ignored: playback goes on where it is.
    pub fn on_seek(&mut self, target: Seconds, succeeded: bool) -> (r: Vec<RebuildStep>)
        ensures
            succeeded ==> *final(self) == old(self).after_seek(target) && r@
                == old(self).rebuilt_by_seek(target),
            !succeeded ==> *final(self) == *old(self) && r@.len() == 0,
    {
        if succeeded {
            self.preview_pending = self.paused;
            self.preview_filter = SeekFilter::aim(target);
            self.audio_filter = SeekFilter::aim(target);
            self.seek_steps(target)
        } else {
            Vec::new()
        }
    }

    /// What the thread does, given whether a decoder for previews is there and
    /// which queues are full: video packets, pictures, sound.
    pub open spec fn loop_step(
        self,
        can_preview: bool,
        packets_full: bool,
        video_full: bool,
        audio_full: bool,
    ) -> LoopStep {
        if self.paused {
            if !self.preview_pending {
                LoopStep::Sleep(PAUSED_SLEEP)
            } else if self.video_stream is Some && can_preview {
                LoopStep::Preview
            } else {
                LoopStep::Again
            }
        } else if packets_full || video_full || audio_full {
            LoopStep::Sleep(BACKPRESSURE_SLEEP)
        } else {
            LoopStep::Read
        }
    }

    /// Says what to do next once the commands are dealt with. Packets are read
    /// only when no queue downstream is full.
    pub fn next_step(
        &mut self,
        can_preview: bool,
        packets_full: bool,
        video_full: bool,
        audio_full: bool,
    ) -> (r: LoopStep)
        ensures
            r == old(self).loop_step(can_preview, packets_full, video_full, audio_full),
            *final(self) == (Demuxer {
                preview_pending: old(self).preview_pending && !old(self).paused,
                ..*old(self)
            }),
    {
        if self.paused {
            if self.preview_pending {
                self.preview_pending = false;
                if self.video_stream.is_some() && can_preview {
                    LoopStep::Preview
                } else {
                    LoopStep::Again
                }
            } else {
                LoopStep::Sleep(PAUSED_SLEEP)
            }
        } else if packets_full || video_full || audio_full {
            LoopStep::Sleep(BACKPRESSURE_SLEEP)
        } else {
            LoopStep::Read
        }
    }

    /// What a preview does after `event`.
    pub open spec fn preview_step(self, event: PreviewEvent) -> PreviewStep {
        match event {
            PreviewEvent::Ready(elapsed) => if elapsed >= PREVIEW_DEADLINE {
                PreviewStep::Stop
            } else {
                PreviewStep::Read
            },
            PreviewEvent::ReadFailed => PreviewStep::Stop,
            PreviewEvent::Packet(stream) => if self.video_stream == Some(stream) {
                PreviewStep::Decode
            } else {
                PreviewStep::Check
            },
            PreviewEvent::Frame(pts) => if self.preview_filter.admits(pts) {
                PreviewStep::Show
            } else {
                PreviewStep::Drop
            },
            PreviewEvent::NoFrame => if self.preview_sent {
                PreviewStep::Stop
            } else {
                PreviewStep::Check
            },
        }
    }

    /// The state after `event` of a preview.
    pub open spec fn after_preview(self, event: PreviewEvent) -> Demuxer {
        match event {
            PreviewEvent::Packet(stream) => if self.video_stream == Some(stream) {
                Demuxer { preview_sent: false, ..self }
            } else {
                self
            },
            PreviewEvent::Frame(pts) => Demuxer {
                preview_filter: self.preview_filter.next(pts),
                preview_sent: self.preview_sent || self.preview_filter.admits(pts),
                ..self
            },
            _ => self,
        }
    }

    /// Takes in an event of a preview. A preview ends with the packet that
    /// gives the first picture, when time runs out, or at the end of the file.
    pub fn on_preview(&mut self, event: PreviewEvent) -> (r: PreviewStep)
        ensures
            r == old(self).preview_step(event),
            *final(self) == old(self).after_preview(event),
    {
        match event {
            PreviewEvent::Ready(elapsed) => if elapsed >= PREVIEW_DEADLINE {
                PreviewStep::Stop
            } else {
                PreviewStep::Read
            },
            PreviewEvent::ReadFailed => PreviewStep::Stop,
            PreviewEvent::Packet(stream) => {
                match self.video_stream {
                    Some(v) => if v == stream {
                        self.preview_sent = false;
                        PreviewStep::Decode
                    } else {
                        PreviewStep::Check
                    },
                    None => PreviewStep::Check,
                }
            },
            PreviewEvent::Frame(pts) => {
                if self.preview_filter.pass(pts) {
                    self.preview_sent = true;
                    PreviewStep::Show
                } else {
                    PreviewStep::Drop
                }
            },
            PreviewEvent::NoFrame => if self.preview_sent {
                PreviewStep::Stop
            } else {
                PreviewStep::Check
            },
        }
    }

    /// `step` is what to do after `event`. The end of the stream is announced
    /// last, when sound and picture are delivered.
    pub open spec fn is_read_step(self, event: ReadEvent, step: ReadStep) -> bool {
        match event {
            ReadEvent::Packet(stream) => if self.video_stream == Some(stream) {
                step == ReadStep::Video
            } else if self.audio_stream == Some(stream) {
                step == ReadStep::Audio
            } else {
                match track_for(self.subtitles@, stream) {
                    Some(k) => step == ReadStep::Subtitle(k as usize),
                    None => step == ReadStep::Ignore,
                }
            },
            ReadEvent::Eof => {
                &&& step matches ReadStep::Finish(steps)
                &&& steps@ == seq![
                    EndStep::FlushAudio(AUDIO_SEND_TIMEOUT),
                    EndStep::DrainVideo(END_ACK_TIMEOUT),
                    EndStep::Announce(PipelineEvent::EndOfStream),
                ]
            },
            ReadEvent::Failed(message) => {
                &&& step matches ReadStep::Finish(steps)
                &&& steps@ == seq![EndStep::Announce(PipelineEvent::Error(message))]
            },
        }
    }

    /// Says what to do with what a read gave.
    pub fn on_read(&self, event: ReadEvent) -> (r: ReadStep)
        ensures
            self.is_read_step(event, r),
    {
        match event {
            ReadEvent::Packet(stream) => {
                if let Some(v) = self.video_stream {
                    if v == stream {
                        return ReadStep::Video;
                    }
                }
                if let Some(a) = self.audio_stream {
                    if a == stream {
                        return ReadStep::Audio;
                    }
                }
                match find_track(&self.subtitles, stream) {
                    Some(k) => ReadStep::Subtitle(k),
                    None => ReadStep::Ignore,
                }
            },
            ReadEvent::Eof => {
                let mut steps: Vec<EndStep> = Vec::new();
                steps.push(EndStep::FlushAudio(AUDIO_SEND_TIMEOUT));
                steps.push(EndStep::DrainVideo(END_ACK_TIMEOUT));
                steps.push(EndStep::Announce(PipelineEvent::EndOfStream));
                assert(steps@ =~= seq![
                    EndStep::FlushAudio(AUDIO_SEND_TIMEOUT),
                    EndStep::DrainVideo(END_ACK_TIMEOUT),
                    EndStep::Announce(PipelineEvent::EndOfStream),
                ]);
                ReadStep::Finish(steps)
            },
            ReadEvent::Failed(message) => {
                let mut steps: Vec<EndStep> = Vec::new();
                steps.push(EndStep::Announce(PipelineEvent::Error(message)));
                ReadStep::Finish(steps)
            },
        }
    }

    /// Takes in a decoded block of sound. A block is skipped only when it comes
    /// before a seek's target; every other one is offered to the queue.
    pub fn on_audio_frame(&mut self, pts: Seconds) -> (r: FrameStep)
        ensures
            r == (if old(self).audio_filter.admits(pts) {
                FrameStep::Offer { position: pts, wait: AUDIO_SEND_TIMEOUT }
            } else {
                FrameStep::Skip
            }),
            *final(self) == (Demuxer { audio_filter: old(self).audio_filter.next(pts), ..*old(self) }),
    {
        if self.audio_filter.pass(pts) {
            FrameStep::Offer { position: pts, wait: AUDIO_SEND_TIMEOUT }
        } else {
            FrameStep::Skip
        }
    }

    /// Takes in a subtitle packet of a track and the rectangles it decodes to,
    /// if it does. A text is shown when there is one. Images are shown when
    /// there are some; on a track that has given images, none at all wipes
    /// those on screen. A text lasts as texts do until the track has given an
    /// image.
    pub fn on_subtitle(
        &mut self,
        track: usize,
        pts: Option<i64>,
        duration: i64,
        decoded: Option<Vec<SubtitleRect>>,
    ) -> (r: Vec<PipelineEvent>)
        requires
            track < old(self).subtitles@.len(),
            decoded matches Some(rects) ==> forall|i: int|
                0 <= i < rects@.len() ==> (#[trigger] rects@[i] matches SubtitleRect::Bitmap(b)
                    ==> b.readable()),
        ensures
            final(self).subtitles@ == old(self).subtitles@.update(
                track as int,
                SubtitleTrack {
                    bitmap: old(self).subtitles@[track as int].bitmap || (decoded matches Some(
                        rects,
                    ) && subtitle::images(rects@).len() > 0),
                    ..old(self).subtitles@[track as int]
                },
            ),
            *final(self) == (Demuxer { subtitles: final(self).subtitles, ..*old(self) }),
            decoded is None ==> r@.len() == 0,
            decoded matches Some(rects) ==> ({
                let t = old(self).subtitles@[track as int];
                let start = cue_start(t, pts);
                let bitmap = final(self).subtitles@[track as int].bitmap;
                let line = text::joined(subtitle::rect_texts(rects@), '\n');
                let lines: int = if line.len() > 0 {
                    1
                } else {
                    0
                };
                &&& r@.len() == lines + if bitmap {
                    1int
                } else {
                    0
                }
                &&& line.len() > 0 ==> shows_text(
                    r@[0],
                    t.ordinal,
                    line,
                    start,
                    cue_end(t, pts, duration, t.bitmap),
                )
                &&& bitmap ==> shows_images(
                    r@[lines],
                    t.ordinal,
                    subtitle::images(rects@),
                    start,
                    cue_end(t, pts, duration, bitmap),
                )
            }),
    {
        let mut events: Vec<PipelineEvent> = Vec::new();
        let t = self.subtitles[track];
        let start = start_of_cue(t, pts);
        if let Some(rects) = decoded {
            let line = collect_subtitle_text(&rects);
            let images = collect_subtitle_bitmaps(&rects);
            let bitmap = t.bitmap || images.len() > 0;
            let line_end = end_of_cue(t, pts, duration, t.bitmap);
            let end = end_of_cue(t, pts, duration, bitmap);
            if !line.as_str().is_empty() {
                events.push(PipelineEvent::SubtitleLine(t.ordinal, line, start, line_end));
            }
            self.subtitles.set(
                track,
                SubtitleTrack {
                    stream: t.stream,
                    ordinal: t.ordinal,
                    time_base: t.time_base,
                    bitmap,
                },
            );
            if bitmap {
                events.push(PipelineEvent::SubtitleBitmap(t.ordinal, images, start, end));
            }
        }
        assert(self.subtitles@ =~= old(self).subtitles@.update(
            track as int,
            self.subtitles@[track as int],
        ));
        events
    }
}

proof fn lemma_track_found(tracks: Seq<SubtitleTrack>, stream: usize, i: int)
    requires
        0 <= i < tracks.len(),
        track_for(tracks.take(i), stream) is None,
        tracks[i].stream == stream,
    ensures
        track_for(tracks, stream) == Some(i),
    decreases tracks.len(),
{
    if i == tracks.len() - 1 {
        assert(tracks.take(i) =~= tracks.drop_last());
    } else {
        assert(tracks.drop_last().take(i) =~= tracks.take(i));
        lemma_track_found(tracks.drop_last(), stream, i);
    }
}

/// Packets are read only while playing, and only when every queue downstream
/// has room.
pub proof fn law_full_queues_stop_reading(
    d: Demuxer,
    can_preview: bool,
    packets_full: bool,
    video_full: bool,
    audio_full: bool,
)
    ensures
        d.loop_step(can_preview, packets_full, video_full, audio_full) == LoopStep::Read <==> (
        !d.paused && !packets_full && !video_full && !audio_full),
{
}

/// A seek made during a pause is followed by one preview, and a seek made while
/// playing by none.
pub proof fn law_paused_seek_is_previewed_once(d: Demuxer, target: Seconds)
    requires
        d.video_stream is Some,
    ensures
        ({
            let sought = d.after_seek(target);
            let looked = Demuxer { preview_pending: sought.preview_pending && !sought.paused, ..sought };
            &&& d.paused ==> sought.loop_step(true, false, false, false) == LoopStep::Preview
            &&& d.paused ==> looked.loop_step(true, false, false, false) == LoopStep::Sleep(
                PAUSED_SLEEP,
            )
            &&& !d.paused ==> sought.after_command(PipelineCommand::Pause).loop_step(
                true,
                false,
                false,
                false,
            ) == LoopStep::Sleep(PAUSED_SLEEP)
        }),
{
}

/// A preview never outlasts its time by more than a packet: it looks at the
/// clock before it reads, and reads only while there is time. It shows a picture
/// only where a seek's target allows it, and ends with the packet that gave one.
pub proof fn law_previews_end(d: Demuxer, event: PreviewEvent, pts: Seconds)
    ensures
        d.preview_step(event) == PreviewStep::Read ==> (event matches PreviewEvent::Ready(elapsed)
            && elapsed < PREVIEW_DEADLINE),
        d.preview_step(event) == PreviewStep::Show ==> (event matches PreviewEvent::Frame(t)
            && d.preview_filter.admits(t)),
        d.preview_step(PreviewEvent::Frame(pts)) == PreviewStep::Show ==> d.after_preview(
            PreviewEvent::Frame(pts),
        ).preview_step(PreviewEvent::NoFrame) == PreviewStep::Stop,
{
}

/// Every subtitle track that can be decoded is decoded all the time: its packets
/// find its decoder, whichever track the player shows and whatever it commands.
pub proof fn law_all_subtitle_tracks_are_decoded(
    streams: Seq<StreamEntry>,
    i: int,
    d: Demuxer,
    cmd: PipelineCommand,
)
    requires
        0 <= i < streams.len(),
        streams[i].medium == Medium::Subtitle,
        streams[i].decodable,
    ensures
        track_for(tracks_of(streams), streams[i].index) matches Some(k) && 0 <= k < tracks_of(
            streams,
        ).len() && tracks_of(streams)[k].stream == streams[i].index,
        d.after_command(cmd).subtitles == d.subtitles,
{
    lemma_track_listed(streams, i);
    let k = choose|k: int|
        0 <= k < tracks_of(streams).len() && #[trigger] tracks_of(streams)[k].stream
            == streams[i].index;
    lemma_track_for_finds(tracks_of(streams), streams[i].index, k);
}

proof fn lemma_track_listed(streams: Seq<StreamEntry>, i: int)
    requires
        0 <= i < streams.len(),
        streams[i].medium == Medium::Subtitle,
        streams[i].decodable,
    ensures
        exists|k: int|
            0 <= k < tracks_of(streams).len() && #[trigger] tracks_of(streams)[k].stream
                == streams[i].index,
    decreases streams.len(),
{
    let init = streams.drop_last();
    let before = tracks_of(init);
    if i < streams.len() - 1 {
        assert(init[i] == streams[i]);
        lemma_track_listed(init, i);
        let k = choose|k: int|
            0 <= k < before.len() && #[trigger] before[k].stream == streams[i].index;
        assert(tracks_of(streams)[k] == before[k]);
    } else {
        assert(tracks_of(streams)[before.len() as int].stream == streams[i].index);
    }
}

proof fn lemma_track_for_finds(tracks: Seq<SubtitleTrack>, stream: usize, k: int)
    requires
        0 <= k < tracks.len(),
        tracks[k].stream == stream,
    ensures
        track_for(tracks, stream) matches Some(j) && 0 <= j < tracks.len() && tracks[j].stream
            == stream,
    decreases tracks.len(),
{
    let init = tracks.drop_last();
    if k < tracks.len() - 1 {
        assert(init[k] == tracks[k]);
        lemma_track_for_finds(init, stream, k);
    } else if track_for(init, stream) is Some {
        lemma_track_for_is_found(init, stream);
    }
}

proof fn lemma_track_for_is_found(tracks: Seq<SubtitleTrack>, stream: usize)
    requires
        track_for(tracks, stream) is Some,
    ensures
        0 <= track_for(tracks, stream)->0 < tracks.len(),
        tracks[track_for(tracks, stream)->0].stream == stream,
    decreases tracks.len(),
{
    if tracks.len() > 0 && track_for(tracks.drop_last(), stream) is Some {
        lemma_track_for_is_found(tracks.drop_last(), stream);
    }
}

/// Resuming undoes a pause.
pub proof fn law_resume_undoes_pause(d: Demuxer)
    requires
        !d.paused,
    ensures
        d.after_command(PipelineCommand::Pause).after_command(PipelineCommand::Resume) == d,
{
}

/// After a seek the preview, the sound and the picture of the video thread are
/// held back by the same rule, so that they come out together.
pub proof fn law_picture_and_sound_are_held_alike<D>(d: Demuxer, target: Seconds)
    ensures
        d.after_seek(target).preview_filter == d.after_seek(target).audio_filter,
        d.rebuilt_by_seek(target)[0] matches RebuildStep::Video { stream: _, skip_until }
            && d.after_seek(target).audio_filter == VideoWorker::<D>::filter_after_reset(
            Some(skip_until),
        ),
{
}

/// The sound track that was chosen stays chosen: a seek builds the decoder that
/// the choice has built, and the one after it does so again.
pub proof fn law_a_seek_keeps_the_chosen_track(d: Demuxer, track: usize, target: Seconds)
    requires
        track < d.audio_streams@.len(),
    ensures
        ({
            let chosen = PipelineCommand::SelectAudioTrack(track);
            let after = d.after_command(chosen);
            &&& d.command_step(chosen) == CommandStep::Rebuild(after.rebuilt_by_seek(target)[1])
            &&& after.after_seek(target).rebuilt_by_seek(target) == after.rebuilt_by_seek(target)
        }),
{
}

/// The streams of a file, as it is described and as it is played, are the same
/// streams in the same order.
pub open spec fn same_streams(records: Seq<StreamRecord>, entries: Seq<StreamEntry>) -> bool {
    &&& records.len() == entries.len()
    &&& forall|i: int|
        0 <= i < records.len() ==> (#[trigger] records[i]).index == entries[i].index
            && records[i].medium == entries[i].medium
}

/// The tracks that the player is told of are the tracks that it can choose: the
/// `k`-th sound track of the description is the one that command number `k`
/// switches to, and the lines of a subtitle track come under the rank that the
/// description gives it.
pub proof fn law_tracks_are_those_described(records: Seq<StreamRecord>, entries: Seq<StreamEntry>)
    requires
        same_streams(records, entries),
        entries.len() <= usize::MAX,
    ensures
        indices_of(entries, Medium::Audio).len() == probe::streams_of(records, Medium::Audio).len(),
        forall|k: int|
            0 <= k < indices_of(entries, Medium::Audio).len() ==> #[trigger] indices_of(
                entries,
                Medium::Audio,
            )[k] == probe::streams_of(records, Medium::Audio)[k].index,
        forall|j: int|
            0 <= j < tracks_of(entries).len() ==> (#[trigger] tracks_of(entries)[j]).ordinal
                < probe::streams_of(records, Medium::Subtitle).len() && tracks_of(entries)[j].stream
                == probe::streams_of(records, Medium::Subtitle)[tracks_of(
                entries,
            )[j].ordinal as int].index,
{
    lemma_same_indices(records, entries, Medium::Audio);
    lemma_same_indices(records, entries, Medium::Subtitle);
    assert forall|j: int| 0 <= j < tracks_of(entries).len() implies (#[trigger] tracks_of(
        entries,
    )[j]).ordinal < probe::streams_of(records, Medium::Subtitle).len() && tracks_of(
        entries,
    )[j].stream == probe::streams_of(records, Medium::Subtitle)[tracks_of(
        entries,
    )[j].ordinal as int].index by {
        lemma_track_is_its_rank(entries, j);
    }
}

proof fn lemma_same_indices(records: Seq<StreamRecord>, entries: Seq<StreamEntry>, medium: Medium)
    requires
        same_streams(records, entries),
    ensures
        indices_of(entries, medium).len() == probe::streams_of(records, medium).len(),
        forall|k: int|
            0 <= k < indices_of(entries, medium).len() ==> #[trigger] indices_of(entries, medium)[k]
                == probe::streams_of(records, medium)[k].index,
    decreases records.len(),
{
    reveal(Seq::filter);
    if records.len() > 0 {
        let r = records.drop_last();
        let e = entries.drop_last();
        assert forall|i: int| 0 <= i < r.len() implies (#[trigger] r[i]).index == e[i].index
            && r[i].medium == e[i].medium by {
            assert(r[i] == records[i]);
        }
        lemma_same_indices(r, e, medium);
        assert(records[records.len() - 1].index == entries[entries.len() - 1].index);
    }
}

proof fn lemma_track_is_its_rank(entries: Seq<StreamEntry>, j: int)
    requires
        entries.len() <= usize::MAX,
        0 <= j < tracks_of(entries).len(),
    ensures
        ({
            let t = tracks_of(entries)[j];
            let all = indices_of(entries, Medium::Subtitle);
            t.ordinal < all.len() && all[t.ordinal as int] == t.stream
        }),
    decreases entries.len(),
{
    let init = entries.drop_last();
    lemma_indices_len(init, Medium::Subtitle);
    if j < tracks_of(init).len() {
        lemma_track_is_its_rank(init, j);
    }
}

/// No two subtitle tracks have the same rank; ranks follow the order of the
/// file.
pub proof fn law_track_ranks_are_distinct(streams: Seq<StreamEntry>, i: int, j: int)
    requires
        streams.len() <= usize::MAX,
        0 <= i < j < tracks_of(streams).len(),
    ensures
        tracks_of(streams)[i].ordinal < tracks_of(streams)[j].ordinal < indices_of(
            streams,
            Medium::Subtitle,
        ).len(),
    decreases streams.len(),
{
    lemma_rank_bound(streams, i);
    lemma_rank_bound(streams, j);
    let init = streams.drop_last();
    if j < tracks_of(init).len() {
        law_track_ranks_are_distinct(init, i, j);
    } else {
        lemma_rank_bound(init, i);
        lemma_indices_len(init, Medium::Subtitle);
    }
}

proof fn lemma_indices_len(streams: Seq<StreamEntry>, medium: Medium)
    ensures
        indices_of(streams, medium).len() <= streams.len(),
    decreases streams.len(),
{
    if streams.len() > 0 {
        lemma_indices_len(streams.drop_last(), medium);
    }
}

proof fn lemma_rank_bound(streams: Seq<StreamEntry>, i: int)
    requires
        streams.len() <= usize::MAX,
        0 <= i < tracks_of(streams).len(),
    ensures
        tracks_of(streams)[i].ordinal < indices_of(streams, Medium::Subtitle).len(),
    decreases streams.len(),
{
    let init = streams.drop_last();
    lemma_indices_len(init, Medium::Subtitle);
    if i < tracks_of(init).len() {
        lemma_rank_bound(init, i);
    }
}

/// Every command asks for what it says, whatever the state: a seek for a seek to
/// its position, paused or playing, a speed for that speed, a sound track for
/// the decoder of that track, a stop for the end of the thread. Nothing else asks
/// for anything.
pub proof fn law_commands_ask_for_what_they_say(d: Demuxer, cmd: PipelineCommand)
    ensures
        forall|pos: Seconds|
            d.command_step(cmd) == CommandStep::Seek(pos) <==> cmd == PipelineCommand::Seek(pos),
        forall|s: Speed|
            d.command_step(cmd) == CommandStep::SetSpeed(s) <==> cmd == PipelineCommand::SetSpeed(
                s,
            ),
        d.command_step(cmd) == CommandStep::Stop <==> cmd == PipelineCommand::Stop,
        d.command_step(cmd) is Rebuild <==> (cmd matches PipelineCommand::SelectAudioTrack(t) && t
            < d.audio_streams@.len()),
        cmd matches PipelineCommand::SelectAudioTrack(t) ==> (t < d.audio_streams@.len() ==> (
        d.command_step(cmd) matches CommandStep::Rebuild(RebuildStep::Audio(Some(s))) && s.index
            == d.audio_streams@[t as int] && (s.index < d.streams@.len() ==> s.time_base
            == d.streams@[s.index as int].time_base))),
{
}

/// Only a pause pauses, only a resume resumes, only the choice of a sound track
/// that is there changes the track, and no command changes anything else.
pub proof fn law_commands_change_only_what_they_say(d: Demuxer, cmd: PipelineCommand)
    ensures
        ({
            let after = d.after_command(cmd);
            &&& after.paused == (cmd == PipelineCommand::Pause || (d.paused && cmd
                != PipelineCommand::Resume))
            &&& after.audio_stream == (match cmd {
                PipelineCommand::SelectAudioTrack(t) if t < d.audio_streams@.len() => Some(
                    d.audio_streams@[t as int],
                ),
                _ => d.audio_stream,
            })
            &&& after.streams == d.streams && after.video_stream == d.video_stream
            &&& after.audio_streams == d.audio_streams && after.subtitles == d.subtitles
            &&& after.preview_pending == d.preview_pending && after.preview_sent == d.preview_sent
            &&& after.preview_filter == d.preview_filter && after.audio_filter == d.audio_filter
        }),
{
}

/// A seek during a pause is carried out and previewed: the command asks for the
/// seek, and once it has succeeded the thread searches for the picture of the
/// new place.
pub proof fn law_paused_seeks_lead_to_a_preview(
    d: Demuxer,
    pos: Seconds,
    packets_full: bool,
    video_full: bool,
    audio_full: bool,
)
    requires
        d.paused,
        d.video_stream is Some,
    ensures
        d.command_step(PipelineCommand::Seek(pos)) == CommandStep::Seek(pos),
        d.after_command(PipelineCommand::Seek(pos)).after_seek(pos).loop_step(
            true,
            packets_full,
            video_full,
            audio_full,
        ) == LoopStep::Preview,
{
}

/// A seek aims every filter at its target and asks for a preview exactly during
/// a pause; it changes neither the streams nor the pause. A seek while playing
/// goes on reading.
pub proof fn law_seeks_aim_at_their_target(d: Demuxer, target: Seconds)
    ensures
        ({
            let after = d.after_seek(target);
            &&& after.preview_filter.skip_until == Some(target) && after.preview_filter.first
            &&& after.audio_filter.skip_until == Some(target) && after.audio_filter.first
            &&& after.preview_pending == d.paused
            &&& after.paused == d.paused && after.streams == d.streams && after.subtitles
                == d.subtitles
            &&& after.video_stream == d.video_stream && after.audio_stream == d.audio_stream
            &&& after.audio_streams == d.audio_streams
            &&& !d.paused ==> after.loop_step(true, false, false, false) == LoopStep::Read
        }),
{
}

/// A seek builds three decoders anew: that of the picture, which holds back what
/// comes before the target, that of the sound, and that of previews, each for
/// the stream that is played, in the unit of that stream, and none for a stream
/// that there is not.
pub proof fn law_seeks_build_decoders_anew(d: Demuxer, target: Seconds)
    ensures
        ({
            let steps = d.rebuilt_by_seek(target);
            &&& steps.len() == 3
            &&& steps[0] matches RebuildStep::Video { stream, skip_until }
            &&& steps[1] matches RebuildStep::Audio(sound)
            &&& steps[2] matches RebuildStep::Preview(preview)
            &&& skip_until == target
            &&& preview == stream
            &&& stream is Some == d.video_stream is Some && sound is Some == d.audio_stream is Some
            &&& stream matches Some(s) ==> Some(s.index) == d.video_stream && (s.index
                < d.streams@.len() ==> s.time_base == d.streams@[s.index as int].time_base)
            &&& sound matches Some(s) ==> Some(s.index) == d.audio_stream && (s.index
                < d.streams@.len() ==> s.time_base == d.streams@[s.index as int].time_base)
        }),
{
}

/// While playing, a packet is read as soon as no queue is full, and full queues
/// are looked at again four milliseconds later. During a pause nothing is read:
/// the thread looks at its commands every five milliseconds, but for the preview
/// of a seek.
pub proof fn law_the_thread_reads_or_rests(
    d: Demuxer,
    can_preview: bool,
    packets_full: bool,
    video_full: bool,
    audio_full: bool,
)
    ensures
        ({
            let step = d.loop_step(can_preview, packets_full, video_full, audio_full);
            let full = packets_full || video_full || audio_full;
            &&& step == LoopStep::Read <==> !d.paused && !full
            &&& step == LoopStep::Sleep(4) <==> !d.paused && full
            &&& step == LoopStep::Sleep(5) <==> d.paused && !d.preview_pending
            &&& step == LoopStep::Preview <==> d.paused && d.preview_pending && d.video_stream
                is Some && can_preview
        }),
{
}

/// A preview reads for less than 800 milliseconds, decodes the packets of the
/// picture and no others, shows exactly the pictures that the seek lets through,
/// and stops when one has been shown for a packet, when time is up or when
/// nothing can be read.
pub proof fn law_previews_show_the_picture_of_the_seek(d: Demuxer, event: PreviewEvent)
    ensures
        d.preview_step(event) == PreviewStep::Read <==> (event matches PreviewEvent::Ready(t) && t
            < 800),
        d.preview_step(event) == PreviewStep::Decode <==> (event matches PreviewEvent::Packet(s)
            && d.video_stream == Some(s)),
        d.preview_step(event) == PreviewStep::Show <==> (event matches PreviewEvent::Frame(t)
            && d.preview_filter.admits(t)),
        d.preview_step(event) == PreviewStep::Drop <==> (event matches PreviewEvent::Frame(t)
            && !d.preview_filter.admits(t)),
        d.preview_step(event) == PreviewStep::Stop <==> (event == PreviewEvent::ReadFailed || (event
            == PreviewEvent::NoFrame && d.preview_sent) || (event matches PreviewEvent::Ready(t)
            && t >= 800)),
        d.after_preview(event).preview_sent == (match event {
            PreviewEvent::Packet(s) => d.preview_sent && d.video_stream != Some(s),
            PreviewEvent::Frame(t) => d.preview_sent || d.preview_filter.admits(t),
            _ => d.preview_sent,
        }),
        d.after_preview(event).preview_filter == (match event {
            PreviewEvent::Frame(t) => d.preview_filter.next(t),
            _ => d.preview_filter,
        }),
        ({
            let after = d.after_preview(event);
            &&& after.paused == d.paused && after.streams == d.streams && after.subtitles
                == d.subtitles
            &&& after.video_stream == d.video_stream && after.audio_stream == d.audio_stream
            &&& after.audio_filter == d.audio_filter && after.preview_pending == d.preview_pending
        }),
{
}

/// Every packet goes to the decoder of its stream: picture, sound, or the
/// subtitle track that decodes it, and one of no stream that is played is left.
pub proof fn law_packets_find_their_decoder(d: Demuxer, stream: usize, step: ReadStep)
    requires
        d.is_read_step(ReadEvent::Packet(stream), step),
        d.video_stream is Some && d.audio_stream is Some ==> d.video_stream != d.audio_stream,
        d.subtitles@.len() <= usize::MAX,
    ensures
        step == ReadStep::Video <==> d.video_stream == Some(stream),
        step == ReadStep::Audio <==> d.audio_stream == Some(stream),
        step matches ReadStep::Subtitle(k) ==> k < d.subtitles@.len()
            && d.subtitles@[k as int].stream == stream,
        step is Finish ==> false,
        step == ReadStep::Ignore ==> forall|k: int|
            0 <= k < d.subtitles@.len() ==> #[trigger] d.subtitles@[k].stream != stream,
{
    if track_for(d.subtitles@, stream) is Some {
        lemma_track_for_is_found(d.subtitles@, stream);
    } else {
        assert forall|k: int| 0 <= k < d.subtitles@.len() implies #[trigger] d.subtitles@[k].stream
            != stream by {
            if d.subtitles@[k].stream == stream {
                lemma_track_for_finds(d.subtitles@, stream, k);
            }
        }
    }
}

/// At the end of the stream the sound that is left is offered, each block for
/// 200 milliseconds, the video thread gets half a second for its last pictures,
/// and only then is the end announced. A failure is announced with its own
/// words, and nothing else happens.
pub proof fn law_the_end_comes_last(d: Demuxer, step: ReadStep, failed: ReadStep, message: String)
    requires
        d.is_read_step(ReadEvent::Eof, step),
        d.is_read_step(ReadEvent::Failed(message), failed),
    ensures
        step matches ReadStep::Finish(steps) && steps@.len() == 3 && steps@[0]
            == EndStep::FlushAudio(200) && steps@[1] == EndStep::DrainVideo(500) && steps@[2]
            == EndStep::Announce(PipelineEvent::EndOfStream),
        failed matches ReadStep::Finish(steps) && steps@.len() == 1 && steps@[0]
            == EndStep::Announce(PipelineEvent::Error(message)),
{
}

/// A cue starts at the time of its packet, to the nanosecond before; a packet
/// without a time, or with one before the start, is shown at the start.
pub proof fn law_cues_start_with_their_packet(track: SubtitleTrack, pts: Option<i64>)
    requires
        track.time_base.den >= 1,
    ensures
        ({
            let start = cue_start(track, pts);
            let ticks: int = match pts {
                Some(p) if p > 0 => p as int,
                _ => 0,
            };
            start * track.time_base.den <= ticks * track.time_base.num * 1_000_000_000 < (start + 1)
                * track.time_base.den
        }),
{
    let ticks: int = match pts {
        Some(p) if p > 0 => p as int,
        _ => 0,
    };
    crate::timing::law_ticks_are_seconds(track.time_base, ticks);
}

/// A cue lasts as long as its packet says. Without a duration a text lasts one
/// second, and an image thirty, for the next image to wipe it.
pub proof fn law_cues_last_as_long_as_they_say(
    track: SubtitleTrack,
    pts: Option<i64>,
    duration: i64,
    bitmap: bool,
)
    requires
        track.time_base.den >= 1,
        track.time_base.num >= 1,
    ensures
        ({
            let lasts = cue_end(track, pts, duration, bitmap) - cue_start(track, pts);
            &&& duration > 0 ==> lasts * track.time_base.den <= duration * track.time_base.num
                * 1_000_000_000 < (lasts + 1) * track.time_base.den
            &&& duration <= 0 && bitmap ==> lasts == 30_000_000_000
            &&& duration <= 0 && !bitmap ==> lasts == 1_000_000_000
        }),
{
    let n = track.time_base.num as int;
    let t = duration as int;
    assert(t > 0 <==> t * n > 0) by (nonlinear_arith)
        requires
            n >= 1,
    ;
    crate::timing::law_ticks_are_seconds(track.time_base, t);
}

/// A text is shown as a line of its own track, word for word, and images as a
/// list of their own track, each with its pixels, for exactly their time.
pub proof fn law_cues_show_what_they_hold(
    event: PipelineEvent,
    ordinal: usize,
    said: Seq<char>,
    rects: Seq<BitmapRect>,
    start: int,
    end: int,
)
    ensures
        shows_text(event, ordinal, said, start, end) <==> (event matches PipelineEvent::SubtitleLine(
            o,
            t,
            s,
            e,
        ) && o == ordinal && t@ == said && s.nanos == start && e.nanos == end),
        shows_images(event, ordinal, rects, start, end) ==> (event
            matches PipelineEvent::SubtitleBitmap(o, b, s, e) && o == ordinal && b@.len()
            == rects.len() && s.nanos == start && e.nanos == end && (forall|k: int|
            0 <= k < rects.len() ==> (#[trigger] b@[k]).x == rects[k].x && b@[k].y == rects[k].y
                && b@[k].rgba@ == rects[k].rgba())),
{
}

/// A packet goes to the first track that decodes its stream, and to none exactly
/// when no track does.
pub proof fn law_the_first_track_of_a_stream_decodes_it(tracks: Seq<SubtitleTrack>, stream: usize)
    ensures
        match track_for(tracks, stream) {
            Some(k) => 0 <= k < tracks.len() && tracks[k].stream == stream && forall|j: int|
                0 <= j < k ==> #[trigger] tracks[j].stream != stream,
            None => forall|j: int| 0 <= j < tracks.len() ==> #[trigger] tracks[j].stream != stream,
        },
    decreases tracks.len(),
{
    if tracks.len() > 0 {
        let init = tracks.drop_last();
        law_the_first_track_of_a_stream_decodes_it(init, stream);
        assert forall|j: int| 0 <= j < init.len() implies #[trigger] tracks[j] == init[j] by {
        }
    }
}

/// The streams of a medium are listed by their own number, in the order of the
/// file: two halves give theirs one after the other, and a stream is listed
/// exactly when it carries the medium.
pub proof fn law_streams_are_listed_in_order(
    a: Seq<StreamEntry>,
    b: Seq<StreamEntry>,
    s: StreamEntry,
    medium: Medium,
)
    ensures
        indices_of(a + b, medium) == indices_of(a, medium) + indices_of(b, medium),
        indices_of(seq![s], medium) == (if s.medium == medium {
            seq![s.index]
        } else {
            seq![]
        }),
    decreases b.len(),
{
    assert(seq![s].drop_last() =~= Seq::<StreamEntry>::empty());
    assert(indices_of(seq![s].drop_last(), medium) =~= Seq::<usize>::empty());
    assert(Seq::<usize>::empty().push(s.index) =~= seq![s.index]);
    if b.len() == 0 {
        assert(a + b =~= a);
        assert(indices_of(a, medium) + indices_of(b, medium) =~= indices_of(a, medium));
    } else {
        assert((a + b).drop_last() =~= a + b.drop_last());
        law_streams_are_listed_in_order(a, b.drop_last(), s, medium);
        let i = b.last().index;
        assert((indices_of(a, medium) + indices_of(b.drop_last(), medium)).push(i) =~= indices_of(
            a,
            medium,
        ) + indices_of(b.drop_last(), medium).push(i));
    }
}

/// Every track stands for a subtitle stream that can be decoded, in the unit of
/// that stream, and has given no image yet.
pub proof fn law_tracks_are_decodable_subtitles(streams: Seq<StreamEntry>, j: int) -> (i: int)
    requires
        0 <= j < tracks_of(streams).len(),
    ensures
        0 <= i < streams.len(),
        streams[i].medium == Medium::Subtitle && streams[i].decodable,
        tracks_of(streams)[j].stream == streams[i].index,
        tracks_of(streams)[j].time_base == streams[i].time_base,
        !tracks_of(streams)[j].bitmap,
    decreases streams.len(),
{
    let init = streams.drop_last();
    if j < tracks_of(init).len() {
        let i = law_tracks_are_decodable_subtitles(init, j);
        assert(init[i] == streams[i]);
        i
    } else {
        streams.len() - 1
    }
}

/// Timestamps of a stream are read in the unit of that stream, and nothing moves
/// on a stream that is not there.
pub proof fn law_streams_have_their_unit(d: Demuxer, stream: usize)
    ensures
        stream < d.streams@.len() ==> d.unit_of(stream) == d.streams@[stream as int].time_base,
        stream >= d.streams@.len() ==> d.unit_of(stream).nanos(1) == 0 && d.unit_of(stream).num
            == 0,
{
}

} // verus!

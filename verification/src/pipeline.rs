//! What the player and the decoding threads tell each other.

use vstd::prelude::*;

use crate::probe::MediaInfo;
use crate::subtitle::SubtitleBitmap;
use crate::tempo::Speed;
use crate::timing::Seconds;

verus! {

/// Decoded pictures that may wait to be shown. A 4K picture weighs some 25 MB;
/// a quarter of a second of them absorbs the jolts of decoding.
pub const VIDEO_QUEUE_DEPTH: usize = 6;

/// Decoded blocks of sound that may wait to be played.
pub const AUDIO_QUEUE_DEPTH: usize = 512;

/// Compressed video packets that may wait for the video decoder. Some
/// containers deliver video in bursts: a short queue would stop the reading of
/// packets, and with it the sound.
pub const VIDEO_PACKET_QUEUE_DEPTH: usize = 256;

/// Commands that may wait for the pipeline.
pub const COMMAND_QUEUE_DEPTH: usize = 16;

/// Events that may wait for the player.
pub const EVENT_QUEUE_DEPTH: usize = 64;

/// An order to the pipeline.
pub enum PipelineCommand {
    /// Playback speed; the pitch is kept.
    SetSpeed(Speed),
    Pause,
    Resume,
    /// Position, counted from the start of the content.
    Seek(Seconds),
    /// Volume in thousandths of full scale.
    SetVolume(u32),
    SelectAudioTrack(usize),
    SelectSubtitleTrack(Option<usize>),
    Stop,
}

/// News from the pipeline.
pub enum PipelineEvent {
    PositionChanged(Seconds),
    DurationKnown(Seconds),
    /// Percentage.
    BufferingProgress(u8),
    EndOfStream,
    Error(String),
    /// Something went wrong that playback survives.
    Warning(String),
    MetadataReady(Box<MediaInfo>),
    /// Track, text, start, end.
    SubtitleLine(usize, String, Seconds, Seconds),
    /// Track, images, start, end. Without images it wipes those on screen.
    SubtitleBitmap(usize, Vec<SubtitleBitmap>, Seconds, Seconds),
}

/// What to do with a decoded picture or block of sound.
#[derive(Debug, Clone, Copy, PartialEq, Eq, Structural)]
pub enum FrameStep {
    /// It comes before a seek's target and is not presented.
    Skip,
    /// Announce its time, then offer it to its queue; it is given up only when
    /// the queue has had no room for `wait` milliseconds.
    Offer { position: Seconds, wait: u64 },
}

/// What the player learns before the first frame: what the file holds, and how
/// long it lasts.
pub fn opening_events(info: MediaInfo) -> (r: Vec<PipelineEvent>)
    ensures
        r@.len() == 2,
        r@[0] == PipelineEvent::MetadataReady(Box::new(info)),
        r@[1] == PipelineEvent::DurationKnown(info.duration_secs),
{
    let duration = info.duration_secs;
    let mut events: Vec<PipelineEvent> = Vec::new();
    events.push(PipelineEvent::MetadataReady(Box::new(info)));
    events.push(PipelineEvent::DurationKnown(duration));
    events
}

} // verus!

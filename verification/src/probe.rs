//! What a file holds: its streams and chapters, without decoding it.

use vstd::prelude::*;

use crate::timing::{Ratio, Seconds, TimeBase};

verus! {

/// What a media file holds.
pub struct MediaInfo {
    pub path: String,
    pub duration_secs: Seconds,
    pub video: Option<VideoStreamInfo>,
    pub audio: Vec<AudioStreamInfo>,
    pub subtitles: Vec<SubtitleStreamInfo>,
    pub chapters: Vec<Chapter>,
    pub format_name: String,
    pub bit_rate: i64,
}

/// The picture of a media file.
pub struct VideoStreamInfo {
    pub index: usize,
    pub codec_name: String,
    pub width: u32,
    pub height: u32,
    /// Frames per second.
    pub fps: Ratio,
    pub bit_rate: i64,
    pub hdr: bool,
    /// Samples span 0 to 255 rather than 16 to 235.
    pub full_range: bool,
    /// Brightest light in the content, in nits, when the file tells it.
    pub peak_nits: Option<Ratio>,
    /// Transfer function: 0 for SDR, 1 for PQ, 2 for HLG. It alone decides
    /// whether the picture is tone mapped; the bit depth does not.
    pub transfer: u8,
    pub color_space: String,
}

/// One sound track.
pub struct AudioStreamInfo {
    pub index: usize,
    pub codec_name: String,
    pub channels: u16,
    pub sample_rate: u32,
    pub bit_rate: i64,
    pub language: String,
}

/// One subtitle track.
pub struct SubtitleStreamInfo {
    pub index: usize,
    pub codec: String,
    pub language: String,
    pub title: String,
}

/// One chapter.
pub struct Chapter {
    pub title: String,
    pub start_secs: Seconds,
    pub end_secs: Seconds,
}

/// What a stream carries.
#[derive(Debug, Clone, Copy, PartialEq, Eq, Structural)]
pub enum Medium {
    Video,
    Audio,
    Subtitle,
    Other,
}

/// The transfer functions that matter to rendering.
#[derive(Debug, Clone, Copy, PartialEq, Eq, Structural)]
pub enum TransferCurve {
    /// SMPTE ST 2084.
    Pq,
    /// ARIB STD-B67.
    Hlg,
    Other,
}

/// What an opened video decoder tells of its stream.
pub struct VideoParams {
    pub width: u32,
    pub height: u32,
    /// Average frame rate, as the container announces it.
    pub frame_rate: TimeBase,
    pub bit_rate: i64,
    pub curve: TransferCurve,
    pub full_range: bool,
    pub color_space: String,
    pub peak_nits: Option<Ratio>,
}

/// What an opened audio decoder tells of its stream.
#[derive(Debug, Clone, Copy, PartialEq, Eq, Structural)]
pub struct AudioParams {
    pub channels: u16,
    pub sample_rate: u32,
    pub bit_rate: i64,
}

/// A stream as the container lists it.
pub struct StreamRecord {
    pub index: usize,
    pub medium: Medium,
    pub codec_name: String,
    pub language: Option<String>,
    pub title: Option<String>,
    /// Set for a video stream whose decoder opens.
    pub video: Option<VideoParams>,
    /// Set for an audio stream whose decoder opens.
    pub audio: Option<AudioParams>,
}

/// A chapter as the container lists it.
pub struct ChapterRecord {
    pub title: Option<String>,
    pub start: i64,
    pub end: i64,
    pub time_base: TimeBase,
}

/// A container as it is read.
pub struct ContainerRecord {
    pub path: String,
    pub format_name: String,
    /// In microseconds.
    pub duration: i64,
    pub bit_rate: i64,
    pub streams: Vec<StreamRecord>,
    pub chapters: Vec<ChapterRecord>,
}

/// The number under which a transfer function is known to the renderer.
pub open spec fn transfer_number(curve: TransferCurve) -> u8 {
    match curve {
        TransferCurve::Pq => 1,
        TransferCurve::Hlg => 2,
        TransferCurve::Other => 0,
    }
}

/// The text of `t`, or `default` when there is none.
pub open spec fn text_or(t: Option<String>, default: Seq<char>) -> Seq<char> {
    match t {
        Some(s) => s@,
        None => default,
    }
}

/// A stream whose picture can be shown.
pub open spec fn is_picture(s: StreamRecord) -> bool {
    s.medium == Medium::Video && s.video is Some
}

/// The first stream whose picture can be shown.
pub open spec fn first_picture(streams: Seq<StreamRecord>) -> Option<StreamRecord>
    decreases streams.len(),
{
    if streams.len() == 0 {
        None
    } else if first_picture(streams.drop_last()) is Some {
        first_picture(streams.drop_last())
    } else if is_picture(streams.last()) {
        Some(streams.last())
    } else {
        None
    }
}

/// The streams that carry `medium`, in order.
pub open spec fn streams_of(streams: Seq<StreamRecord>, medium: Medium) -> Seq<StreamRecord> {
    streams.filter(|s: StreamRecord| s.medium == medium)
}

/// `info` describes the picture of `s`.
pub open spec fn describes_video(info: VideoStreamInfo, s: StreamRecord) -> bool {
    let v = s.video->0;
    &&& info.index == s.index
    &&& info.codec_name@ == s.codec_name@
    &&& info.width == v.width
    &&& info.height == v.height
    &&& info.fps.num == v.frame_rate.num
    &&& info.fps.den == v.frame_rate.divisor()
    &&& info.bit_rate == v.bit_rate
    &&& info.hdr == (v.curve != TransferCurve::Other)
    &&& info.full_range == v.full_range
    &&& info.peak_nits == v.peak_nits
    &&& info.transfer == transfer_number(v.curve)
    &&& info.color_space@ == v.color_space@
}

/// `info` describes the sound of `s`; numbers that no decoder tells are zero.
pub open spec fn describes_audio(info: AudioStreamInfo, s: StreamRecord) -> bool {
    &&& info.index == s.index
    &&& info.codec_name@ == s.codec_name@
    &&& info.channels == (match s.audio {
        Some(a) => a.channels,
        None => 0,
    })
    &&& info.sample_rate == (match s.audio {
        Some(a) => a.sample_rate,
        None => 0,
    })
    &&& info.bit_rate == (match s.audio {
        Some(a) => a.bit_rate,
        None => 0,
    })
    &&& info.language@ == text_or(s.language, "und"@)
}

/// `info` describes the subtitles of `s`.
pub open spec fn describes_subtitle(info: SubtitleStreamInfo, s: StreamRecord) -> bool {
    &&& info.index == s.index
    &&& info.codec@ == s.codec_name@
    &&& info.language@ == text_or(s.language, "und"@)
    &&& info.title@ == text_or(s.title, ""@)
}

/// `chapter` describes `c`.
pub open spec fn describes_chapter(chapter: Chapter, c: ChapterRecord) -> bool {
    &&& chapter.title@ == text_or(c.title, ""@)
    &&& chapter.start_secs.nanos == c.time_base.nanos(c.start as int)
    &&& chapter.end_secs.nanos == c.time_base.nanos(c.end as int)
}

/// `info` describes `c`.
pub open spec fn describes(info: MediaInfo, c: ContainerRecord) -> bool {
    let audio = streams_of(c.streams@, Medium::Audio);
    let subtitles = streams_of(c.streams@, Medium::Subtitle);
    &&& info.path@ == c.path@
    &&& info.format_name@ == c.format_name@
    &&& info.duration_secs.nanos == c.duration * 1000
    &&& info.bit_rate == c.bit_rate
    &&& info.video is Some == first_picture(c.streams@) is Some
    &&& info.video matches Some(v) ==> describes_video(v, first_picture(c.streams@)->0)
    &&& info.audio@.len() == audio.len()
    &&& forall|k: int| 0 <= k < audio.len() ==> describes_audio(#[trigger] info.audio@[k], audio[k])
    &&& info.subtitles@.len() == subtitles.len()
    &&& forall|k: int|
        0 <= k < subtitles.len() ==> describes_subtitle(
            #[trigger] info.subtitles@[k],
            subtitles[k],
        )
    &&& info.chapters@.len() == c.chapters@.len()
    &&& forall|k: int|
        0 <= k < c.chapters@.len() ==> describes_chapter(
            #[trigger] info.chapters@[k],
            c.chapters@[k],
        )
}

fn owned_or(t: &Option<String>, default: &str) -> (r: String)
    ensures
        r@ == text_or(*t, default@),
{
    match t {
        Some(s) => s.clone(),
        None => default.to_owned(),
    }
}

fn describe_video(s: &StreamRecord, v: &VideoParams) -> (r: VideoStreamInfo)
    requires
        s.video == Some(*v),
    ensures
        describes_video(r, *s),
{
    let transfer: u8 = match v.curve {
        TransferCurve::Pq => 1,
        TransferCurve::Hlg => 2,
        TransferCurve::Other => 0,
    };
    let den: i32 = if v.frame_rate.den < 1 {
        1
    } else {
        v.frame_rate.den
    };
    VideoStreamInfo {
        index: s.index,
        codec_name: s.codec_name.clone(),
        width: v.width,
        height: v.height,
        fps: Ratio { num: v.frame_rate.num as i64, den: den as i64 },
        bit_rate: v.bit_rate,
        hdr: transfer != 0,
        full_range: v.full_range,
        peak_nits: v.peak_nits,
        transfer,
        color_space: v.color_space.clone(),
    }
}

fn describe_audio(s: &StreamRecord) -> (r: AudioStreamInfo)
    ensures
        describes_audio(r, *s),
{
    let params = match s.audio {
        Some(a) => a,
        None => AudioParams { channels: 0, sample_rate: 0, bit_rate: 0 },
    };
    AudioStreamInfo {
        index: s.index,
        codec_name: s.codec_name.clone(),
        channels: params.channels,
        sample_rate: params.sample_rate,
        bit_rate: params.bit_rate,
        language: owned_or(&s.language, "und"),
    }
}

fn describe_subtitle(s: &StreamRecord) -> (r: SubtitleStreamInfo)
    ensures
        describes_subtitle(r, *s),
{
    SubtitleStreamInfo {
        index: s.index,
        codec: s.codec_name.clone(),
        language: owned_or(&s.language, "und"),
        title: owned_or(&s.title, ""),
    }
}

/// The description of a container: its first video stream that a decoder
/// opens, all its sound and subtitle tracks, its chapters.
pub fn probe_file(c: &ContainerRecord) -> (r: MediaInfo)
    ensures
        describes(r, *c),
{
    let streams = &c.streams;
    let mut video: Option<VideoStreamInfo> = None;
    let mut audio: Vec<AudioStreamInfo> = Vec::new();
    let mut subtitles: Vec<SubtitleStreamInfo> = Vec::new();
    let ghost is_audio = |s: StreamRecord| s.medium == Medium::Audio;
    let ghost is_subtitle = |s: StreamRecord| s.medium == Medium::Subtitle;
    for i in 0..streams.len()
        invariant
            is_audio == (|s: StreamRecord| s.medium == Medium::Audio),
            is_subtitle == (|s: StreamRecord| s.medium == Medium::Subtitle),
            video is Some == first_picture(streams@.take(i as int)) is Some,
            video matches Some(v) ==> describes_video(v, first_picture(streams@.take(i as int))->0),
            audio@.len() == streams@.take(i as int).filter(is_audio).len(),
            forall|k: int|
                0 <= k < audio@.len() ==> describes_audio(
                    #[trigger] audio@[k],
                    streams@.take(i as int).filter(is_audio)[k],
                ),
            subtitles@.len() == streams@.take(i as int).filter(is_subtitle).len(),
            forall|k: int|
                0 <= k < subtitles@.len() ==> describes_subtitle(
                    #[trigger] subtitles@[k],
                    streams@.take(i as int).filter(is_subtitle)[k],
                ),
    {
        let s = &streams[i];
        proof {
            reveal(Seq::filter);
            assert(streams@.take(i + 1).drop_last() =~= streams@.take(i as int));
            assert(streams@.take(i + 1).last() == *s);
        }
        match s.medium {
            Medium::Video => {
                if video.is_none() {
                    if let Some(v) = &s.video {
                        video = Some(describe_video(s, v));
                    }
                }
            },
            Medium::Audio => {
                audio.push(describe_audio(s));
            },
            Medium::Subtitle => {
                subtitles.push(describe_subtitle(s));
            },
            Medium::Other => {},
        }
    }
    assert(streams@.take(streams@.len() as int) =~= streams@);
    let mut chapters: Vec<Chapter> = Vec::new();
    for i in 0..c.chapters.len()
        invariant
            chapters@.len() == i,
            forall|k: int|
                0 <= k < i ==> describes_chapter(#[trigger] chapters@[k], c.chapters@[k]),
    {
        let record = &c.chapters[i];
        chapters.push(
            Chapter {
                title: owned_or(&record.title, ""),
                start_secs: record.time_base.seconds(record.start),
                end_secs: record.time_base.seconds(record.end),
            },
        );
    }
    MediaInfo {
        path: c.path.clone(),
        duration_secs: Seconds::from_micros(c.duration),
        video,
        audio,
        subtitles,
        chapters,
        format_name: c.format_name.clone(),
        bit_rate: c.bit_rate,
    }
}

impl MediaInfo {
    /// The description of a file that could not be read.
    pub fn unknown(path: &str) -> (r: MediaInfo)
        ensures
            r.path@ == path@,
            r.duration_secs.nanos == 0,
            r.video is None,
            r.audio@.len() == 0,
            r.subtitles@.len() == 0,
            r.chapters@.len() == 0,
            r.format_name@ == "unknown"@,
            r.bit_rate == 0,
    {
        MediaInfo {
            path: path.to_owned(),
            duration_secs: Seconds { nanos: 0 },
            video: None,
            audio: Vec::new(),
            subtitles: Vec::new(),
            chapters: Vec::new(),
            format_name: "unknown".to_owned(),
            bit_rate: 0,
        }
    }

    /// The HDR stream of which the container tells no peak.
    pub open spec fn unlit_stream(self) -> Option<usize> {
        match self.video {
            Some(v) => if v.hdr && v.peak_nits is None {
                Some(v.index)
            } else {
                None
            },
            None => None,
        }
    }

    /// This description, once the first frame has told `peak`.
    pub open spec fn lit_by(self, peak: Option<Ratio>) -> MediaInfo {
        match self.video {
            Some(v) => MediaInfo {
                video: Some(
                    VideoStreamInfo {
                        peak_nits: if v.peak_nits is Some {
                            v.peak_nits
                        } else if v.hdr {
                            peak
                        } else {
                            None
                        },
                        ..v
                    },
                ),
                ..self
            },
            None => self,
        }
    }

    /// The video stream whose first frame has to be decoded to learn its peak:
    /// HDR content whose container says nothing of it may still carry it in the
    /// stream itself.
    pub fn needs_first_frame(&self) -> (r: Option<usize>)
        ensures
            r == self.unlit_stream(),
    {
        match &self.video {
            Some(v) => if v.hdr && v.peak_nits.is_none() {
                Some(v.index)
            } else {
                None
            },
            None => None,
        }
    }

    /// Takes in the peak that the first frame told. A peak that the container
    /// tells stands, and only HDR content has one from its first frame.
    pub fn with_first_frame_peak(self, peak: Option<Ratio>) -> (r: MediaInfo)
        ensures
            r == self.lit_by(peak),
    {
        let video = match self.video {
            Some(video) => video,
            None => {
                return self;
            },
        };
        let peak_nits = match video.peak_nits {
            Some(p) => Some(p),
            None => if video.hdr {
                peak
            } else {
                None
            },
        };
        MediaInfo {
            path: self.path,
            duration_secs: self.duration_secs,
            video: Some(
                VideoStreamInfo {
                    index: video.index,
                    codec_name: video.codec_name,
                    width: video.width,
                    height: video.height,
                    fps: video.fps,
                    bit_rate: video.bit_rate,
                    hdr: video.hdr,
                    full_range: video.full_range,
                    peak_nits,
                    transfer: video.transfer,
                    color_space: video.color_space,
                },
            ),
            audio: self.audio,
            subtitles: self.subtitles,
            chapters: self.chapters,
            format_name: self.format_name,
            bit_rate: self.bit_rate,
        }
    }
}

/// The peak of a picture is the one that its container tells. Only where it tells
/// none is the first frame decoded, of HDR content alone, and asked for its
/// peak; everything else has none. What the first frame says of any other
/// picture changes nothing.
pub proof fn law_the_container_tells_the_peak_first(
    info: MediaInfo,
    s: StreamRecord,
    peak: Option<Ratio>,
)
    requires
        info.video matches Some(v) && describes_video(v, s),
    ensures
        info.lit_by(peak).video matches Some(v) && v.peak_nits == (if s.video->0.peak_nits is Some {
            s.video->0.peak_nits
        } else if s.video->0.curve == TransferCurve::Pq || s.video->0.curve == TransferCurve::Hlg {
            peak
        } else {
            None
        }),
        info.unlit_stream() is Some <==> s.video->0.peak_nits is None && (s.video->0.curve
            == TransferCurve::Pq || s.video->0.curve == TransferCurve::Hlg),
        info.unlit_stream() matches Some(i) ==> i == s.index,
        info.unlit_stream() is None ==> info.lit_by(peak) == info,
{
}

/// Only the transfer function makes a picture HDR: whatever its other
/// parameters, a stream without PQ or HLG is described as SDR.
pub proof fn law_transfer_alone_makes_hdr(info: VideoStreamInfo, s: StreamRecord)
    requires
        describes_video(info, s),
    ensures
        info.hdr == (info.transfer != 0),
        info.hdr == (s.video->0.curve == TransferCurve::Pq || s.video->0.curve
            == TransferCurve::Hlg),
{
}

/// A picture is described by what its decoder says, number by number: PQ is
/// transfer 1, HLG transfer 2, and HDR is one of the two; frames come `num / den`
/// to the second.
pub proof fn law_pictures_are_described(info: VideoStreamInfo, s: StreamRecord, v: VideoParams)
    requires
        describes_video(info, s),
        s.video == Some(v),
    ensures
        info.index == s.index && info.codec_name@ == s.codec_name@,
        info.width == v.width && info.height == v.height && info.bit_rate == v.bit_rate,
        info.full_range == v.full_range && info.peak_nits == v.peak_nits && info.color_space@
            == v.color_space@,
        v.curve == TransferCurve::Pq <==> info.transfer == 1,
        v.curve == TransferCurve::Hlg <==> info.transfer == 2,
        v.curve == TransferCurve::Other <==> info.transfer == 0,
        info.hdr <==> info.transfer == 1 || info.transfer == 2,
        info.fps.den > 0,
        v.frame_rate.den >= 1 ==> info.fps.num * v.frame_rate.den == v.frame_rate.num
            * info.fps.den,
{
    assert(v.frame_rate.num * v.frame_rate.den == v.frame_rate.num * v.frame_rate.den);
}

/// A sound track is described by what its decoder says, zeros where none opens,
/// and in the language that it names, or as of no known one.
pub proof fn law_sounds_are_described(info: AudioStreamInfo, s: StreamRecord)
    requires
        describes_audio(info, s),
    ensures
        info.index == s.index && info.codec_name@ == s.codec_name@,
        s.audio matches Some(a) ==> info.channels == a.channels && info.sample_rate == a.sample_rate
            && info.bit_rate == a.bit_rate,
        s.audio is None ==> info.channels == 0 && info.sample_rate == 0 && info.bit_rate == 0,
        s.language matches Some(l) ==> info.language@ == l@,
        s.language is None ==> info.language@ == "und"@,
{
}

/// A subtitle track is described in the language and under the title that it
/// names.
pub proof fn law_subtitles_are_described(info: SubtitleStreamInfo, s: StreamRecord)
    requires
        describes_subtitle(info, s),
    ensures
        info.index == s.index && info.codec@ == s.codec_name@,
        s.language matches Some(l) ==> info.language@ == l@,
        s.language is None ==> info.language@ == "und"@,
        s.title matches Some(t) ==> info.title@ == t@,
        s.title is None ==> info.title@ == ""@,
{
}

/// A chapter lies where its own unit puts it, to the nanosecond before.
pub proof fn law_chapters_are_described(chapter: Chapter, c: ChapterRecord)
    requires
        describes_chapter(chapter, c),
        c.time_base.den >= 1,
    ensures
        ({
            let (from, to) = (chapter.start_secs.nanos, chapter.end_secs.nanos);
            let unit = c.time_base.num * 1_000_000_000;
            &&& from * c.time_base.den <= c.start * unit < (from + 1) * c.time_base.den
            &&& to * c.time_base.den <= c.end * unit < (to + 1) * c.time_base.den
        }),
        c.title matches Some(t) ==> chapter.title@ == t@,
        c.title is None ==> chapter.title@ == ""@,
{
    crate::timing::law_ticks_are_seconds(c.time_base, c.start as int);
    crate::timing::law_ticks_are_seconds(c.time_base, c.end as int);
    let n = c.time_base.num as int;
    assert(c.start * (n * 1_000_000_000) == c.start * n * 1_000_000_000) by (nonlinear_arith);
    assert(c.end * (n * 1_000_000_000) == c.end * n * 1_000_000_000) by (nonlinear_arith);
}

/// The picture of a file is its first stream of pictures that a decoder opens;
/// there is none exactly when no such stream is there.
pub proof fn law_the_first_picture_is_taken(streams: Seq<StreamRecord>)
    ensures
        match first_picture(streams) {
            Some(s) => exists|i: int|
                0 <= i < streams.len() && #[trigger] streams[i] == s && s.medium == Medium::Video
                    && s.video is Some && (forall|j: int|
                    0 <= j < i ==> !((#[trigger] streams[j]).medium == Medium::Video
                        && streams[j].video is Some)),
            None => forall|j: int|
                0 <= j < streams.len() ==> !((#[trigger] streams[j]).medium == Medium::Video
                    && streams[j].video is Some),
        },
    decreases streams.len(),
{
    if streams.len() > 0 {
        let init = streams.drop_last();
        law_the_first_picture_is_taken(init);
        assert forall|j: int| 0 <= j < init.len() implies #[trigger] streams[j] == init[j] by {
        }
        if first_picture(init) is Some {
            let s = first_picture(init)->0;
            let i = choose|i: int|
                0 <= i < init.len() && #[trigger] init[i] == s && s.medium == Medium::Video
                    && s.video is Some && (forall|j: int|
                    0 <= j < i ==> !((#[trigger] init[j]).medium == Medium::Video && init[j].video
                        is Some));
            assert(streams[i] == s);
        } else if is_picture(streams.last()) {
            assert(streams[streams.len() - 1] == streams.last());
        }
    }
}

/// Tracks are listed in the order of the file: two halves give theirs one after
/// the other, and a stream is listed exactly when it carries the medium.
pub proof fn law_tracks_are_listed_in_order(
    a: Seq<StreamRecord>,
    b: Seq<StreamRecord>,
    s: StreamRecord,
    medium: Medium,
)
    ensures
        streams_of(a + b, medium) == streams_of(a, medium) + streams_of(b, medium),
        streams_of(seq![s], medium) == (if s.medium == medium {
            seq![s]
        } else {
            seq![]
        }),
    decreases b.len(),
{
    reveal(Seq::filter);
    assert(seq![s].drop_last() =~= Seq::<StreamRecord>::empty());
    assert(streams_of(seq![s].drop_last(), medium) =~= Seq::<StreamRecord>::empty());
    assert(Seq::<StreamRecord>::empty().push(s) =~= seq![s]);
    if b.len() == 0 {
        assert(a + b =~= a);
        assert(streams_of(a, medium) + streams_of(b, medium) =~= streams_of(a, medium));
    } else {
        assert((a + b).drop_last() =~= a + b.drop_last());
        law_tracks_are_listed_in_order(a, b.drop_last(), s, medium);
        let l = b.last();
        assert((streams_of(a, medium) + streams_of(b.drop_last(), medium)).push(l) =~= streams_of(
            a,
            medium,
        ) + streams_of(b.drop_last(), medium).push(l));
    }
}

/// A file is described under its own name, for its own length, and with every
/// track and chapter that it has, each by its own description.
pub proof fn law_files_are_described_whole(info: MediaInfo, c: ContainerRecord, k: int)
    requires
        describes(info, c),
    ensures
        info.path@ == c.path@ && info.format_name@ == c.format_name@ && info.bit_rate == c.bit_rate,
        info.duration_secs.nanos == 1000 * c.duration,
        info.chapters@.len() == c.chapters@.len(),
        0 <= k < c.chapters@.len() ==> describes_chapter(info.chapters@[k], c.chapters@[k]),
        info.audio@.len() == streams_of(c.streams@, Medium::Audio).len(),
        0 <= k < info.audio@.len() ==> describes_audio(
            info.audio@[k],
            streams_of(c.streams@, Medium::Audio)[k],
        ),
        info.subtitles@.len() == streams_of(c.streams@, Medium::Subtitle).len(),
        0 <= k < info.subtitles@.len() ==> describes_subtitle(
            info.subtitles@[k],
            streams_of(c.streams@, Medium::Subtitle)[k],
        ),
        info.video is Some <==> first_picture(c.streams@) is Some,
        info.video matches Some(v) ==> describes_video(v, first_picture(c.streams@)->0),
{
}

} // verus!

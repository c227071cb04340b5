//! Opening a file or a network source, and moving about in it.

use vstd::prelude::*;

use crate::text;
use crate::text::{chars_of, push_text, starts_with, string_of, to_ascii_lowercase};
use crate::timing;
use crate::timing::Seconds;

verus! {

/// The schemes of network sources.
pub open spec fn schemes() -> Seq<Seq<char>> {
    seq![
        "http://"@,
        "https://"@,
        "rtsp://"@,
        "rtmp://"@,
        "rtmps://"@,
        "udp://"@,
        "rtp://"@,
        "srt://"@,
        "mms://"@,
        "mmsh://"@,
    ]
}

/// `path` names a network source: it starts with one of their schemes, in
/// large or small letters.
pub open spec fn is_network(path: Seq<char>) -> bool {
    exists|i: int|
        0 <= i < schemes().len() && text::has_prefix(text::lowered(path), #[trigger] schemes()[i])
}

/// Whether `path` names a network source; everything else is a local path.
pub fn is_network_url(path: &str) -> (r: bool)
    ensures
        r == is_network(path@),
{
    let lower = to_ascii_lowercase(&chars_of(path));
    let names: [&str; 10] = [
        "http://",
        "https://",
        "rtsp://",
        "rtmp://",
        "rtmps://",
        "udp://",
        "rtp://",
        "srt://",
        "mms://",
        "mmsh://",
    ];
    for i in 0..10usize
        invariant
            lower@ == text::lowered(path@),
            forall|k: int| 0 <= k < 10 ==> #[trigger] names@[k]@ == schemes()[k],
            forall|k: int| 0 <= k < i ==> !text::has_prefix(lower@, #[trigger] schemes()[k]),
    {
        assert(names@[i as int]@ == schemes()[i as int]);
        if starts_with(&lower, &chars_of(names[i])) {
            return true;
        }
    }
    false
}

/// An option of the network layer: its name and its value.
pub struct NetworkOption {
    pub name: String,
    pub value: String,
}

/// The options of a network source, for a player of this version. A source that
/// does not answer is given up after three seconds, a read after eight, and a
/// connection that breaks during playback is made again. A first connection
/// that fails is not tried again.
pub open spec fn option_list(version: Seq<char>) -> Seq<(Seq<char>, Seq<char>)> {
    seq![
        ("timeout"@, "3000000"@),
        ("rw_timeout"@, "8000000"@),
        ("reconnect"@, "1"@),
        ("reconnect_streamed"@, "1"@),
        ("reconnect_delay_max"@, "4"@),
        ("user_agent"@, "ForgePlayer/"@ + version),
    ]
}

fn option(name: &str, value: &str) -> (r: NetworkOption)
    ensures
        r.name@ == name@,
        r.value@ == value@,
{
    NetworkOption { name: name.to_owned(), value: value.to_owned() }
}

/// The options of a network source.
pub fn network_options(version: &str) -> (r: Vec<NetworkOption>)
    ensures
        r@.len() == option_list(version@).len(),
        forall|i: int|
            0 <= i < r@.len() ==> (#[trigger] r@[i]).name@ == option_list(version@)[i].0
                && r@[i].value@ == option_list(version@)[i].1,
{
    let mut agent: Vec<char> = Vec::new();
    push_text(&mut agent, "ForgePlayer/");
    push_text(&mut agent, version);
    assert(agent@ =~= "ForgePlayer/"@ + version@);
    let mut options: Vec<NetworkOption> = Vec::new();
    options.push(option("timeout", "3000000"));
    options.push(option("rw_timeout", "8000000"));
    options.push(option("reconnect", "1"));
    options.push(option("reconnect_streamed", "1"));
    options.push(option("reconnect_delay_max", "4"));
    options.push(option("user_agent", &string_of(&agent)));
    options
}

/// How to open a source: the options that go with it.
pub fn open_options(path: &str, version: &str) -> (r: Option<Vec<NetworkOption>>)
    ensures
        r is Some == is_network(path@),
        r matches Some(o) ==> o@.len() == option_list(version@).len() && forall|i: int|
            0 <= i < o@.len() ==> (#[trigger] o@[i]).name@ == option_list(version@)[i].0
                && o@[i].value@ == option_list(version@)[i].1,
{
    if is_network_url(path) {
        Some(network_options(version))
    } else {
        None
    }
}

/// An opened source.
#[derive(Debug, Clone, Copy, PartialEq, Eq, Structural)]
pub struct DecodeContext {
    pub video_stream_idx: Option<usize>,
    pub audio_stream_idx: Option<usize>,
    pub subtitle_stream_idx: Option<usize>,
    /// How many streams the source has.
    pub stream_count: usize,
    /// Its duration, in microseconds.
    pub duration: i64,
    /// When its content starts, in microseconds; the lowest number when the
    /// container does not say.
    pub start_time: i64,
}

/// Why a decoder cannot be built.
#[derive(Debug, Clone, Copy, PartialEq, Eq, Structural)]
pub enum StreamError {
    /// The source has no such stream.
    NoStream,
    /// The stream is not there.
    Missing,
}

/// A seek that failed twice: what each attempt returned.
#[derive(Debug, Clone, Copy, PartialEq, Eq, Structural)]
pub struct SeekError {
    pub first: i32,
    pub second: i32,
}

/// What to do after the first attempt to seek.
#[derive(Debug, Clone, Copy, PartialEq, Eq, Structural)]
pub enum SeekStep {
    Done,
    /// Try again, anywhere between these timestamps.
    Fallback { min: i64, ts: i64, max: i64 },
}

impl DecodeContext {
    /// When the content starts on the container's axis, in nanoseconds.
    pub open spec fn start_nanos(self) -> int {
        if self.start_time <= 0 {
            0
        } else {
            self.start_time * 1000
        }
    }

    /// The stream to decode, when `idx` is the one that was chosen.
    pub open spec fn chosen(self, idx: Option<usize>) -> Result<usize, StreamError> {
        match idx {
            None => Err(StreamError::NoStream),
            Some(i) => if i < self.stream_count {
                Ok(i)
            } else {
                Err(StreamError::Missing)
            },
        }
    }

    /// The timestamp, in microseconds on the container's axis, of a position
    /// counted from the start of the content.
    pub open spec fn timestamp(self, position: Seconds) -> int {
        timing::saturated64(
            timing::truncated_div(timing::saturated(position.nanos + self.start_nanos()), 1000),
        )
    }

    /// The video stream to decode.
    pub fn build_video_decoder(&self) -> (r: Result<usize, StreamError>)
        ensures
            r == self.chosen(self.video_stream_idx),
    {
        match self.video_stream_idx {
            None => Err(StreamError::NoStream),
            Some(i) => self.build_decoder_for(i),
        }
    }

    /// Chooses the sound track to decode from now on.
    pub fn select_audio(&mut self, stream: Option<usize>)
        ensures
            *final(self) == (DecodeContext { audio_stream_idx: stream, ..*old(self) }),
    {
        self.audio_stream_idx = stream;
    }

    /// The sound track to decode.
    pub fn build_audio_decoder(&self) -> (r: Result<usize, StreamError>)
        ensures
            r == self.chosen(self.audio_stream_idx),
    {
        match self.audio_stream_idx {
            None => Err(StreamError::NoStream),
            Some(i) => self.build_audio_decoder_for(i),
        }
    }

    /// Any sound track, to be decoded.
    pub fn build_audio_decoder_for(&self, stream_idx: usize) -> (r: Result<usize, StreamError>)
        ensures
            r == self.chosen(Some(stream_idx)),
    {
        self.build_decoder_for(stream_idx)
    }

    fn build_decoder_for(&self, stream_idx: usize) -> (r: Result<usize, StreamError>)
        ensures
            r == self.chosen(Some(stream_idx)),
    {
        if stream_idx < self.stream_count {
            Ok(stream_idx)
        } else {
            Err(StreamError::Missing)
        }
    }

    /// How long the source lasts.
    pub fn duration_secs(&self) -> (r: Seconds)
        ensures
            r.nanos == self.duration * 1000,
    {
        Seconds::from_micros(self.duration)
    }

    /// When the content starts on the container's axis. Some containers do not
    /// start at zero: without this the displayed position runs ahead, and seeks
    /// land beside their target.
    pub fn start_offset_secs(&self) -> (r: Seconds)
        ensures
            r.nanos == self.start_nanos(),
    {
        if self.start_time <= 0 {
            Seconds { nanos: 0 }
        } else {
            Seconds::from_micros(self.start_time)
        }
    }

    /// The timestamp to seek to, at or before which a key frame is looked for.
    pub fn seek(&self, position: Seconds) -> (r: i64)
        ensures
            r == self.timestamp(position),
    {
        position.plus(self.start_offset_secs()).micros()
    }
}

/// What to do after the first attempt to seek to `ts`, which returned `ret`.
/// Some formats refuse it; any key frame before the target will do then.
pub fn after_seek(ts: i64, ret: i32) -> (r: SeekStep)
    ensures
        ret >= 0 ==> r == SeekStep::Done,
        ret < 0 ==> r == (SeekStep::Fallback { min: i64::MIN, ts, max: i64::MAX }),
{
    if ret >= 0 {
        SeekStep::Done
    } else {
        SeekStep::Fallback { min: i64::MIN, ts, max: i64::MAX }
    }
}

/// The outcome of a seek whose attempts returned `first` and `second`.
pub fn after_fallback(first: i32, second: i32) -> (r: Result<(), SeekError>)
    ensures
        second >= 0 ==> r == Ok::<(), SeekError>(()),
        second < 0 ==> r == Err::<(), SeekError>(SeekError { first, second }),
{
    if second >= 0 {
        Ok(())
    } else {
        Err(SeekError { first, second })
    }
}

/// Displayed positions and container timestamps are two views of one time: the
/// timestamp of a position, brought back to the start of the content, is that
/// position to the microsecond.
pub proof fn law_positions_and_timestamps_agree(ctx: DecodeContext, position: Seconds)
    requires
        0 <= position.nanos,
        position.nanos + ctx.start_nanos() < 1000 * i64::MAX,
    ensures
        ({
            let shown = ctx.timestamp(position) * 1000 - ctx.start_nanos();
            shown <= position.nanos < shown + 1000
        }),
{
}

/// Case does not matter in a scheme, and a local file is not a network source,
/// not even as a `file://` URL.
pub proof fn law_network_urls(path: Seq<char>)
    ensures
        is_network(text::lowered(path)) == is_network(path),
        text::has_prefix(text::lowered(path), "file://"@) ==> !is_network(path),
{
    assert(text::lowered(text::lowered(path)) =~= text::lowered(path)) by {
        assert forall|i: int| 0 <= i < path.len() implies text::lower(text::lower(#[trigger] path[i]))
            == text::lower(path[i]) by {
        }
    }
    if text::has_prefix(text::lowered(path), "file://"@) && is_network(path) {
        let i = choose|i: int|
            0 <= i < schemes().len() && text::has_prefix(
                text::lowered(path),
                #[trigger] schemes()[i],
            );
        reveal_strlit("file://");
        reveal_strlit("http://");
        reveal_strlit("https://");
        reveal_strlit("rtsp://");
        reveal_strlit("rtmp://");
        reveal_strlit("rtmps://");
        reveal_strlit("udp://");
        reveal_strlit("rtp://");
        reveal_strlit("srt://");
        reveal_strlit("mms://");
        reveal_strlit("mmsh://");
        let l = text::lowered(path);
        assert(l.take(7)[0] == 'f');
        assert(l.take(schemes()[i].len() as int)[0] == schemes()[i][0]);
    }
}

/// The network sources are those whose path starts, in large or small letters,
/// with one of ten schemes, and no others.
pub proof fn law_ten_schemes_are_network_sources(path: Seq<char>)
    ensures
        ({
            let l = text::lowered(path);
            is_network(path) <==> text::has_prefix(l, "http://"@) || text::has_prefix(
                l,
                "https://"@,
            ) || text::has_prefix(l, "rtsp://"@) || text::has_prefix(l, "rtmp://"@)
                || text::has_prefix(l, "rtmps://"@) || text::has_prefix(l, "udp://"@)
                || text::has_prefix(l, "rtp://"@) || text::has_prefix(l, "srt://"@)
                || text::has_prefix(l, "mms://"@) || text::has_prefix(l, "mmsh://"@)
        }),
{
    let l = text::lowered(path);
    let s = schemes();
    assert(s[0] == "http://"@ && s[1] == "https://"@ && s[2] == "rtsp://"@ && s[3] == "rtmp://"@
        && s[4] == "rtmps://"@ && s[5] == "udp://"@ && s[6] == "rtp://"@ && s[7] == "srt://"@
        && s[8] == "mms://"@ && s[9] == "mmsh://"@);
}

/// A source that does not answer is given up after three seconds, a read after
/// eight; a connection that breaks is made again, with no more than four seconds
/// between two attempts; and the player says who it is.
pub proof fn law_network_sources_are_given_up_in_time(version: Seq<char>)
    ensures
        option_list(version).len() == 6,
        option_list(version).contains(("timeout"@, "3000000"@)),
        option_list(version).contains(("rw_timeout"@, "8000000"@)),
        option_list(version).contains(("reconnect"@, "1"@)),
        option_list(version).contains(("reconnect_streamed"@, "1"@)),
        option_list(version).contains(("reconnect_delay_max"@, "4"@)),
        option_list(version).contains(("user_agent"@, "ForgePlayer/"@ + version)),
{
    let o = option_list(version);
    assert(o[0] == ("timeout"@, "3000000"@));
    assert(o[1] == ("rw_timeout"@, "8000000"@));
    assert(o[2] == ("reconnect"@, "1"@));
    assert(o[3] == ("reconnect_streamed"@, "1"@));
    assert(o[4] == ("reconnect_delay_max"@, "4"@));
    assert(o[5] == ("user_agent"@, "ForgePlayer/"@ + version));
}

/// A decoder is built for exactly the stream that was chosen, when the source
/// has it; and nothing chosen is told apart from something that is not there.
pub proof fn law_chosen_streams_are_decoded(ctx: DecodeContext, idx: Option<usize>, i: usize)
    ensures
        ctx.chosen(idx) == Ok::<usize, StreamError>(i) <==> idx == Some(i) && i < ctx.stream_count,
        ctx.chosen(idx) == Err::<usize, StreamError>(StreamError::NoStream) <==> idx is None,
        ctx.chosen(Some(i)) == Err::<usize, StreamError>(StreamError::Missing) <==> i
            >= ctx.stream_count,
{
}

/// A source that starts late starts as many microseconds late as its container
/// says; one that starts early, or does not say, starts at zero.
pub proof fn law_content_starts_where_the_container_says(ctx: DecodeContext)
    ensures
        ctx.start_time >= 0 ==> ctx.start_nanos() == 1000 * ctx.start_time,
        ctx.start_time < 0 ==> ctx.start_nanos() == 0,
{
}

/// Before the start of the axis a timestamp is that of the microsecond after, and
/// past either end of what a timestamp can hold it is that end.
pub proof fn law_timestamps_stay_in_range(ctx: DecodeContext, position: Seconds)
    ensures
        ({
            let at = position.nanos + ctx.start_nanos();
            let ts = ctx.timestamp(position);
            &&& i64::MIN <= ts <= i64::MAX
            &&& at >= 1000 * i64::MAX ==> ts == i64::MAX
            &&& at <= 1000 * i64::MIN ==> ts == i64::MIN
            &&& 1000 * i64::MIN <= at <= 0 ==> 1000 * ts - 1000 < at <= 1000 * ts
        }),
{
}

} // verus!

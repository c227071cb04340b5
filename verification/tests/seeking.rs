use forgeplayer::context::{after_fallback, after_seek, DecodeContext, SeekError, SeekStep, StreamError};
use forgeplayer::seek::SeekFilter;
use forgeplayer::timing::Seconds;

fn ms(n: i128) -> Seconds {
    Seconds { nanos: n * 1_000_000 }
}

fn run(mut filter: SeekFilter, times: &[i128]) -> Vec<bool> {
    times.iter().map(|t| filter.pass(ms(*t))).collect()
}

fn source(start_time: i64) -> DecodeContext {
    DecodeContext {
        video_stream_idx: Some(0),
        audio_stream_idx: None,
        subtitle_stream_idx: None,
        stream_count: 1,
        duration: 60_000_000,
        start_time,
    }
}

#[test]
fn without_a_seek_everything_is_presented() {
    assert_eq!(run(SeekFilter::new(), &[0, -5, 40]), vec![true, true, true]);
}

#[test]
fn a_near_key_frame_catches_up() {
    let shown = run(SeekFilter::aim(ms(10_000)), &[9_000, 9_500, 9_949, 9_950, 9_100]);
    assert_eq!(shown, vec![false, false, false, true, true]);
}

#[test]
fn a_far_key_frame_is_presented_at_once() {
    assert_eq!(run(SeekFilter::aim(ms(10_000)), &[8_999, 9_040]), vec![true, true]);
}

#[test]
fn only_the_first_frame_decides() {
    assert_eq!(run(SeekFilter::aim(ms(10_000)), &[9_500, 2_000, 10_000]), vec![false, false, true]);
}

#[test]
fn seeks_at_the_ends_of_time_do_no_harm() {
    let mut filter = SeekFilter::aim(Seconds { nanos: i128::MIN });
    assert!(filter.pass(Seconds { nanos: i128::MIN }));
    let mut filter = SeekFilter::aim(Seconds { nanos: i128::MAX });
    assert!(filter.pass(Seconds { nanos: i128::MIN }));
}

#[test]
fn positions_become_container_timestamps() {
    let transport_stream = source(1_400_000);
    assert_eq!(transport_stream.start_offset_secs(), ms(1_400));
    assert_eq!(transport_stream.seek(ms(10_000)), 11_400_000);
    assert_eq!(source(0).seek(Seconds { nanos: 1_999 }), 1);
    assert_eq!(source(-5).seek(ms(2)), 2_000);
    assert_eq!(source(i64::MIN).start_offset_secs(), ms(0));
    assert_eq!(source(0).seek(ms(-1)), -1_000);
    assert_eq!(source(0).duration_secs(), ms(60_000));
}

#[test]
fn timestamps_and_positions_agree_to_the_microsecond() {
    let source = source(1_400_000);
    for nanos in [0i128, 1, 999, 1_000, 123_456_789, 59_999_999_999] {
        let shown = source.seek(Seconds { nanos }) as i128 * 1000 - 1_400_000_000;
        assert!(shown <= nanos && nanos < shown + 1000);
    }
}

#[test]
fn a_seek_that_fails_is_tried_once_more() {
    assert_eq!(after_seek(7, 0), SeekStep::Done);
    assert_eq!(after_seek(7, -1), SeekStep::Fallback { min: i64::MIN, ts: 7, max: i64::MAX });
    assert_eq!(after_fallback(-1, 0), Ok(()));
    assert_eq!(after_fallback(-1, -22), Err(SeekError { first: -1, second: -22 }));
}

#[test]
fn decoders_need_a_stream_that_is_there() {
    let mut s = source(0);
    assert_eq!(s.build_video_decoder(), Ok(0));
    assert_eq!(s.build_audio_decoder(), Err(StreamError::NoStream));
    s.audio_stream_idx = Some(1);
    assert_eq!(s.build_audio_decoder(), Err(StreamError::Missing));
    assert_eq!(s.build_audio_decoder_for(0), Ok(0));
    s.video_stream_idx = None;
    assert_eq!(s.build_video_decoder(), Err(StreamError::NoStream));
}

#[test]
fn the_chosen_sound_track_is_decoded() {
    let mut s = source(0);
    assert_eq!(s.build_audio_decoder(), Err(StreamError::NoStream));
    s.select_audio(Some(0));
    assert_eq!(s.build_audio_decoder(), Ok(0));
    s.select_audio(Some(4));
    assert_eq!(s.build_audio_decoder(), Err(StreamError::Missing));
    s.select_audio(None);
    assert_eq!(s, source(0));
}

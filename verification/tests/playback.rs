use forgeplayer::demuxer::{
    CommandStep, DecodedStream, Demuxer, EndStep, LoopStep, PreviewEvent, PreviewStep, ReadEvent,
    ReadStep, RebuildStep, StreamEntry, AUDIO_SEND_TIMEOUT, BACKPRESSURE_SLEEP, END_ACK_TIMEOUT,
    PAUSED_SLEEP, PREVIEW_DEADLINE,
};
use forgeplayer::pipeline::{
    FrameStep, PipelineCommand, PipelineEvent, AUDIO_QUEUE_DEPTH, COMMAND_QUEUE_DEPTH, EVENT_QUEUE_DEPTH,
    VIDEO_PACKET_QUEUE_DEPTH, VIDEO_QUEUE_DEPTH,
};
use forgeplayer::probe::{probe_file, ContainerRecord, Medium, StreamRecord};
use forgeplayer::subtitle::{BitmapRect, SubtitleRect};
use forgeplayer::tempo::Speed;
use forgeplayer::timing::{Seconds, TimeBase};
use forgeplayer::video_worker::{VideoWorker, VideoWorkerMsg, WorkerStep, FRAME_SEND_TIMEOUT};

const SECOND: i128 = 1_000_000_000;

fn at(secs: i128) -> Seconds {
    Seconds { nanos: secs * SECOND }
}

fn entry(index: usize, medium: Medium, decodable: bool) -> StreamEntry {
    let time_base = TimeBase { num: 1, den: 1000 * (index as i32 + 1) };
    StreamEntry { index, medium, time_base, decodable }
}

/// Picture, two sound tracks, three subtitle tracks of which the first cannot
/// be decoded.
fn demuxer() -> Demuxer {
    let streams = vec![
        entry(0, Medium::Video, true),
        entry(1, Medium::Audio, true),
        entry(2, Medium::Subtitle, false),
        entry(3, Medium::Audio, true),
        entry(4, Medium::Subtitle, true),
        entry(5, Medium::Subtitle, true),
        entry(6, Medium::Other, false),
    ];
    Demuxer::new(streams, Some(0), Some(1))
}

fn image(indices: Vec<u8>) -> SubtitleRect {
    SubtitleRect::Bitmap(BitmapRect {
        x: 0,
        y: 0,
        width: indices.len() as u32,
        height: 1,
        stride: indices.len(),
        indices: Some(indices),
        palette: Some(vec![0xff00_00ff]),
        colors: 1,
    })
}

#[test]
fn tracks_keep_their_rank() {
    let d = demuxer();
    assert_eq!(d.audio_streams, vec![1, 3]);
    let ranks: Vec<(usize, usize)> = d.subtitles.iter().map(|t| (t.stream, t.ordinal)).collect();
    assert_eq!(ranks, vec![(4, 1), (5, 2)]);
    assert_eq!(d.time_base(1), TimeBase { num: 1, den: 2000 });
    assert_eq!(d.time_base(9), TimeBase { num: 0, den: 1 });
}

#[test]
fn queues_are_as_deep_as_announced() {
    assert_eq!(
        (VIDEO_QUEUE_DEPTH, AUDIO_QUEUE_DEPTH, VIDEO_PACKET_QUEUE_DEPTH),
        (6, 512, 256)
    );
    assert_eq!((COMMAND_QUEUE_DEPTH, EVENT_QUEUE_DEPTH), (16, 64));
}

#[test]
fn unreadable_sound_is_a_warning() {
    let d = demuxer();
    assert!(d.audio_opened(true).is_none());
    match d.audio_opened(false) {
        Some(PipelineEvent::Warning(m)) => {
            assert_eq!(m, "Piste audio illisible (codec non supporté) — lecture sans son.");
        }
        _ => panic!("a warning was expected"),
    }
    let silent = Demuxer::new(vec![], None, None);
    assert!(silent.audio_opened(false).is_none());
}

fn decoded(index: usize) -> Option<DecodedStream> {
    let time_base = TimeBase { num: 1, den: 1000 * (index as i32 + 1) };
    Some(DecodedStream { index, time_base })
}

#[test]
fn a_seek_builds_the_decoders_anew() {
    let mut d = demuxer();
    let rebuilt = |audio| {
        vec![
            RebuildStep::Video { stream: decoded(0), skip_until: at(10) },
            RebuildStep::Audio(audio),
            RebuildStep::Preview(decoded(0)),
        ]
    };
    assert_eq!(d.seek_steps(at(10)), rebuilt(decoded(1)));
    assert_eq!(d.on_seek(at(10), true), rebuilt(decoded(1)));
    assert!(d.on_seek(at(10), false).is_empty());
    d.on_command(&PipelineCommand::SelectAudioTrack(1));
    assert_eq!(d.on_seek(at(10), true), rebuilt(decoded(3)));
    let mut silent = Demuxer::new(vec![entry(0, Medium::Subtitle, true)], None, None);
    assert_eq!(
        silent.on_seek(at(1), true),
        vec![
            RebuildStep::Video { stream: None, skip_until: at(1) },
            RebuildStep::Audio(None),
            RebuildStep::Preview(None),
        ]
    );
}

#[test]
fn commands_change_the_state() {
    let mut d = demuxer();
    assert_eq!(d.on_command(&PipelineCommand::Pause), CommandStep::Done);
    assert!(d.paused);
    assert_eq!(d.on_command(&PipelineCommand::Resume), CommandStep::Done);
    assert!(!d.paused);
    assert_eq!(d.on_command(&PipelineCommand::Stop), CommandStep::Stop);
    assert_eq!(d.on_command(&PipelineCommand::Seek(at(3))), CommandStep::Seek(at(3)));
    let speed = Speed::normal();
    assert_eq!(d.on_command(&PipelineCommand::SetSpeed(speed)), CommandStep::SetSpeed(speed));
    assert_eq!(
        d.on_command(&PipelineCommand::SelectAudioTrack(1)),
        CommandStep::Rebuild(RebuildStep::Audio(decoded(3)))
    );
    assert_eq!(d.audio_stream, Some(3));
    assert_eq!(d.on_command(&PipelineCommand::SelectAudioTrack(2)), CommandStep::Done);
    assert_eq!(d.audio_stream, Some(3));
    assert_eq!(d.on_command(&PipelineCommand::SelectSubtitleTrack(Some(1))), CommandStep::Done);
    assert_eq!(d.on_command(&PipelineCommand::SetVolume(700)), CommandStep::Done);
}

#[test]
fn full_queues_stop_the_reading() {
    let mut d = demuxer();
    assert_eq!(d.next_step(true, false, false, false), LoopStep::Read);
    for (p, v, a) in [(true, false, false), (false, true, false), (false, false, true)] {
        assert_eq!(d.next_step(true, p, v, a), LoopStep::Sleep(BACKPRESSURE_SLEEP));
    }
    d.on_command(&PipelineCommand::Pause);
    assert_eq!(d.next_step(true, false, false, false), LoopStep::Sleep(PAUSED_SLEEP));
    assert_eq!((BACKPRESSURE_SLEEP, PAUSED_SLEEP), (4, 5));
}

#[test]
fn a_seek_during_a_pause_is_previewed_once() {
    let mut d = demuxer();
    d.on_command(&PipelineCommand::Pause);
    d.on_seek(at(10), true);
    assert_eq!(d.next_step(true, false, false, false), LoopStep::Preview);
    assert_eq!(d.next_step(true, false, false, false), LoopStep::Sleep(PAUSED_SLEEP));
    d.on_seek(at(20), true);
    assert_eq!(d.next_step(false, false, false, false), LoopStep::Again);
    d.on_seek(at(30), false);
    assert_eq!(d.next_step(true, false, false, false), LoopStep::Sleep(PAUSED_SLEEP));
}

#[test]
fn a_seek_while_playing_is_not_previewed() {
    let mut d = demuxer();
    d.on_seek(at(10), true);
    d.on_command(&PipelineCommand::Pause);
    assert_eq!(d.next_step(true, false, false, false), LoopStep::Sleep(PAUSED_SLEEP));
}

#[test]
fn a_preview_searches_for_its_picture() {
    let mut d = demuxer();
    d.on_command(&PipelineCommand::Pause);
    d.on_seek(at(10), true);
    d.next_step(true, false, false, false);
    assert_eq!(d.on_preview(PreviewEvent::Ready(0)), PreviewStep::Read);
    assert_eq!(d.on_preview(PreviewEvent::Packet(1)), PreviewStep::Check);
    assert_eq!(d.on_preview(PreviewEvent::Packet(0)), PreviewStep::Decode);
    let early = Seconds { nanos: 95 * SECOND / 10 };
    assert_eq!(d.on_preview(PreviewEvent::Frame(early)), PreviewStep::Drop);
    assert_eq!(d.on_preview(PreviewEvent::NoFrame), PreviewStep::Check);
    assert_eq!(d.on_preview(PreviewEvent::Packet(0)), PreviewStep::Decode);
    assert_eq!(d.on_preview(PreviewEvent::Frame(at(10))), PreviewStep::Show);
    assert_eq!(d.on_preview(PreviewEvent::Frame(at(11))), PreviewStep::Show);
    assert_eq!(d.on_preview(PreviewEvent::NoFrame), PreviewStep::Stop);
    assert_eq!(d.on_preview(PreviewEvent::Ready(PREVIEW_DEADLINE)), PreviewStep::Stop);
    assert_eq!(d.on_preview(PreviewEvent::ReadFailed), PreviewStep::Stop);
    assert_eq!(PREVIEW_DEADLINE, 800);
}

#[test]
fn a_preview_shows_a_key_frame_that_is_far_away() {
    let mut d = demuxer();
    d.on_command(&PipelineCommand::Pause);
    d.on_seek(at(10), true);
    assert_eq!(d.on_preview(PreviewEvent::Packet(0)), PreviewStep::Decode);
    assert_eq!(d.on_preview(PreviewEvent::Frame(at(4))), PreviewStep::Show);
    assert_eq!(d.on_preview(PreviewEvent::NoFrame), PreviewStep::Stop);
}

#[test]
fn packets_go_to_their_decoder() {
    let d = demuxer();
    assert!(matches!(d.on_read(ReadEvent::Packet(0)), ReadStep::Video));
    assert!(matches!(d.on_read(ReadEvent::Packet(1)), ReadStep::Audio));
    assert!(matches!(d.on_read(ReadEvent::Packet(3)), ReadStep::Ignore));
    assert!(matches!(d.on_read(ReadEvent::Packet(2)), ReadStep::Ignore));
    assert!(matches!(d.on_read(ReadEvent::Packet(5)), ReadStep::Subtitle(1)));
}

#[test]
fn the_end_is_announced_last() {
    let d = demuxer();
    match d.on_read(ReadEvent::Eof) {
        ReadStep::Finish(steps) => {
            assert_eq!(steps.len(), 3);
            assert!(matches!(steps[0], EndStep::FlushAudio(AUDIO_SEND_TIMEOUT)));
            assert!(matches!(steps[1], EndStep::DrainVideo(END_ACK_TIMEOUT)));
            assert!(matches!(steps[2], EndStep::Announce(PipelineEvent::EndOfStream)));
        }
        _ => panic!("the thread ends"),
    }
    match d.on_read(ReadEvent::Failed("lost".to_string())) {
        ReadStep::Finish(steps) => {
            assert_eq!(steps.len(), 1);
            match &steps[0] {
                EndStep::Announce(PipelineEvent::Error(m)) => assert_eq!(m, "lost"),
                _ => panic!("an error was expected"),
            }
        }
        _ => panic!("the thread ends"),
    }
}

#[test]
fn sound_and_picture_come_back_together_after_a_seek() {
    for first in [at(3), Seconds { nanos: 92 * SECOND / 10 }] {
        let mut d = demuxer();
        let mut w: VideoWorker<()> = VideoWorker::new(Some(()));
        d.on_seek(at(10), true);
        let step = w.on_message(VideoWorkerMsg::<(), ()>::Reset {
            decoder: Some(()),
            skip_until: Some(at(10)),
        });
        assert!(matches!(step, WorkerStep::Wait));
        for t in [first, Seconds { nanos: 98 * SECOND / 10 }, at(10), at(11)] {
            let heard = d.on_audio_frame(t);
            let seen = w.on_frame(t);
            match heard {
                FrameStep::Skip => assert_eq!(seen, FrameStep::Skip),
                FrameStep::Offer { position, wait } => {
                    assert_eq!((position, wait), (t, AUDIO_SEND_TIMEOUT));
                    assert_eq!(seen, FrameStep::Offer { position: t, wait: FRAME_SEND_TIMEOUT });
                }
            }
        }
    }
    assert_eq!((AUDIO_SEND_TIMEOUT, FRAME_SEND_TIMEOUT), (200, 100));
}

#[test]
fn only_what_comes_before_a_target_is_skipped() {
    let mut d = demuxer();
    let mut w: VideoWorker<()> = VideoWorker::new(Some(()));
    let seen = |t| FrameStep::Offer { position: t, wait: 100 };
    let heard = |t| FrameStep::Offer { position: t, wait: 200 };
    for t in [at(5), at(1), at(9)] {
        assert_eq!((w.on_frame(t), d.on_audio_frame(t)), (seen(t), heard(t)));
    }
    d.on_seek(at(10), true);
    w.on_message(VideoWorkerMsg::<(), ()>::Reset { decoder: Some(()), skip_until: Some(at(10)) });
    let early = Seconds { nanos: 95 * SECOND / 10 };
    assert_eq!((w.on_frame(early), d.on_audio_frame(early)), (FrameStep::Skip, FrameStep::Skip));
    for t in [at(10), early] {
        assert_eq!((w.on_frame(t), d.on_audio_frame(t)), (seen(t), heard(t)));
    }
}

#[test]
fn the_video_thread_follows_its_messages() {
    let mut w: VideoWorker<u8> = VideoWorker::new(None);
    assert!(matches!(w.on_message(VideoWorkerMsg::Packet(7)), WorkerStep::Wait));
    assert!(matches!(w.on_message(VideoWorkerMsg::<i32, u8>::Eof), WorkerStep::Acknowledge));
    let reset = VideoWorkerMsg::<i32, u8>::Reset { decoder: Some(1), skip_until: None };
    assert!(matches!(w.on_message(reset), WorkerStep::Wait));
    assert_eq!(w.decoder, Some(1));
    assert!(matches!(w.on_message(VideoWorkerMsg::Packet(7)), WorkerStep::Decode(7)));
    assert!(matches!(w.on_message(VideoWorkerMsg::<i32, u8>::Eof), WorkerStep::Drain(100)));
    assert_eq!(w.on_frame(at(1)), FrameStep::Offer { position: at(1), wait: 100 });
}

#[test]
fn text_cues_last_a_second_without_a_duration() {
    let mut d = demuxer();
    let rects = vec![SubtitleRect::Text("Hi".to_string())];
    let events = d.on_subtitle(0, Some(10_000), 0, Some(rects));
    assert_eq!(events.len(), 1);
    match &events[0] {
        PipelineEvent::SubtitleLine(track, text, start, end) => {
            assert_eq!((*track, text.as_str()), (1, "Hi"));
            assert_eq!((*start, *end), (at(2), at(3)));
        }
        _ => panic!("a line was expected"),
    }
    let rects = vec![SubtitleRect::Text("Hi".to_string())];
    match &d.on_subtitle(0, Some(-7), 10_000, Some(rects))[0] {
        PipelineEvent::SubtitleLine(_, _, start, end) => {
            assert_eq!((*start, *end), (at(0), at(2)));
        }
        _ => panic!("a line was expected"),
    }
    assert!(d.on_subtitle(0, None, 0, Some(vec![])).is_empty());
    assert!(d.on_subtitle(0, None, 0, None).is_empty());
}

#[test]
fn images_stay_until_they_are_wiped() {
    let mut d = demuxer();
    let events = d.on_subtitle(1, Some(6_000), 0, Some(vec![image(vec![0])]));
    assert_eq!(events.len(), 1);
    match &events[0] {
        PipelineEvent::SubtitleBitmap(track, images, start, end) => {
            assert_eq!((*track, images.len()), (2, 1));
            assert_eq!(images[0].rgba, vec![0, 0, 0xff, 0xff]);
            assert_eq!((*start, *end), (at(1), at(31)));
        }
        _ => panic!("an image was expected"),
    }
    let events = d.on_subtitle(1, Some(12_000), 0, Some(vec![]));
    assert_eq!(events.len(), 1);
    match &events[0] {
        PipelineEvent::SubtitleBitmap(_, images, start, _) => {
            assert!(images.is_empty());
            assert_eq!(*start, at(2));
        }
        _ => panic!("an empty image was expected"),
    }
    assert!(d.on_subtitle(1, Some(13_000), 0, None).is_empty());
    assert!(d.subtitles[1].bitmap && !d.subtitles[0].bitmap);
}

#[test]
fn a_text_beside_a_first_image_lasts_a_second() {
    let mut d = demuxer();
    let both = || vec![SubtitleRect::Text("Hi".to_string()), image(vec![0])];
    for (text_end, image_end) in [(at(2), at(31)), (at(31), at(31))] {
        let events = d.on_subtitle(1, Some(6_000), 0, Some(both()));
        assert_eq!(events.len(), 2);
        match (&events[0], &events[1]) {
            (
                PipelineEvent::SubtitleLine(_, text, start, end),
                PipelineEvent::SubtitleBitmap(_, images, from, to),
            ) => {
                assert_eq!((text.as_str(), *start, *end), ("Hi", at(1), text_end));
                assert_eq!((images.len(), *from, *to), (1, at(1), image_end));
            }
            _ => panic!("a line and an image were expected"),
        }
    }
}

#[test]
fn subtitle_tracks_are_decoded_whatever_is_shown() {
    let mut d = demuxer();
    for shown in [None, Some(0), Some(1), Some(7)] {
        d.on_command(&PipelineCommand::SelectSubtitleTrack(shown));
        assert!(matches!(d.on_read(ReadEvent::Packet(4)), ReadStep::Subtitle(0)));
        assert!(matches!(d.on_read(ReadEvent::Packet(5)), ReadStep::Subtitle(1)));
    }
}

#[test]
fn the_tracks_described_are_those_that_can_be_chosen() {
    let mut d = demuxer();
    let streams = d
        .streams
        .iter()
        .map(|e| StreamRecord {
            index: e.index,
            medium: e.medium,
            codec_name: String::new(),
            language: None,
            title: None,
            video: None,
            audio: None,
        })
        .collect();
    let info = probe_file(&ContainerRecord {
        path: String::new(),
        format_name: String::new(),
        duration: 0,
        bit_rate: 0,
        streams,
        chapters: vec![],
    });
    for (k, track) in info.audio.iter().enumerate() {
        d.on_command(&PipelineCommand::SelectAudioTrack(k));
        assert_eq!(d.audio_stream, Some(track.index));
    }
    for track in &d.subtitles {
        assert_eq!(info.subtitles[track.ordinal].index, track.stream);
    }
}

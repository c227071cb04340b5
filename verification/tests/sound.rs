use forgeplayer::audio::{
    AudioDecoder, AudioError, AudioReply, AudioStep, DecodedAudioFrame, FilteredAudio, RawAudio,
};
use forgeplayer::bytes::ByteOrder;
use forgeplayer::pcm::{interleave, read_single_words, Pcm, SampleBuffers, SampleKind};
use forgeplayer::tempo::{atempo_chain, tempo_graph_args, Speed, SPEED_MAX, SPEED_MIN, SPEED_ONE};
use forgeplayer::timing::{ExactTime, Seconds, TimeBase};

const SECOND: i128 = 1_000_000_000;

fn speed(x: f32) -> Speed {
    Speed { units: (x as f64 * SPEED_ONE as f64) as i64 }
}

fn block(pts: Option<i64>, samples: usize) -> RawAudio {
    RawAudio {
        pts,
        rate: 48_000,
        channels: 2,
        kind: SampleKind::I16,
        planar: false,
        order: ByteOrder::Little,
        samples,
        planes: vec![vec![0u8; samples * 4]],
    }
}

fn decoder() -> AudioDecoder {
    AudioDecoder::new(TimeBase { num: 1, den: 1000 }, 48_000, 3, 2)
}

fn delivered(reply: Result<AudioStep, AudioError>) -> DecodedAudioFrame {
    match reply {
        Ok(AudioStep::Deliver(frame)) => frame,
        _ => panic!("a block was expected"),
    }
}

fn fixed(pcm: &Pcm) -> (Vec<i32>, u32) {
    match pcm {
        Pcm::Fixed { values, shift } => (values.clone(), *shift),
        _ => panic!("fixed-point samples were expected"),
    }
}

#[test]
fn interleaved_integers_are_read_in_order() {
    let b = SampleBuffers {
        kind: SampleKind::I16,
        planar: false,
        order: ByteOrder::Little,
        channels: 2,
        samples: 2,
        planes: vec![vec![0x00, 0x80, 0xff, 0x7f, 0x01, 0x00, 0xff, 0xff]],
    };
    assert_eq!(fixed(&interleave(&b).unwrap()), (vec![-32768, 32767, 1, -1], 15));
}

#[test]
fn planes_are_interleaved() {
    let b = SampleBuffers {
        kind: SampleKind::U8,
        planar: true,
        order: ByteOrder::Little,
        channels: 2,
        samples: 3,
        planes: vec![vec![0, 128, 255], vec![1, 2, 3]],
    };
    assert_eq!(fixed(&interleave(&b).unwrap()), (vec![-128, -127, 0, -126, 127, -125], 7));
    let b = SampleBuffers {
        kind: SampleKind::I32,
        planar: true,
        order: ByteOrder::Little,
        channels: 1,
        samples: 1,
        planes: vec![i32::MIN.to_le_bytes().to_vec()],
    };
    assert_eq!(fixed(&interleave(&b).unwrap()), (vec![i32::MIN], 31));
}

#[test]
fn floats_keep_their_bits() {
    let single: Vec<u8> = [0.5f32, -1.0].iter().flat_map(|v| v.to_le_bytes()).collect();
    let b = SampleBuffers {
        kind: SampleKind::F32,
        planar: false,
        order: ByteOrder::Little,
        channels: 1,
        samples: 2,
        planes: vec![single],
    };
    match interleave(&b).unwrap() {
        Pcm::Single(words) => {
            assert_eq!(words, vec![0.5f32.to_bits(), (-1.0f32).to_bits()]);
        }
        _ => panic!("single-precision samples were expected"),
    }
    let double: Vec<u8> = [0.25f64].iter().flat_map(|v| v.to_le_bytes()).collect();
    let b = SampleBuffers {
        kind: SampleKind::F64,
        planar: true,
        order: ByteOrder::Little,
        channels: 1,
        samples: 1,
        planes: vec![double],
    };
    match interleave(&b).unwrap() {
        Pcm::Double(words) => assert_eq!(words, vec![0.25f64.to_bits()]),
        _ => panic!("double-precision samples were expected"),
    }
}

#[test]
fn unknown_samples_are_refused() {
    let b = SampleBuffers {
        kind: SampleKind::Other,
        planar: false,
        order: ByteOrder::Little,
        channels: 1,
        samples: 1,
        planes: vec![vec![]],
    };
    assert!(interleave(&b).is_none());
    assert_eq!(read_single_words(&vec![0, 0, 128, 63, 9]), vec![1.0f32.to_bits()]);
}

#[test]
fn speeds_become_filter_chains() {
    for (x, chain) in [
        (0.25f32, "atempo=0.500000,atempo=0.500000"),
        (0.5, "atempo=0.500000"),
        (0.75, "atempo=0.750000"),
        (1.0, "atempo=1.000000"),
        (1.25, "atempo=1.250000"),
        (1.5, "atempo=1.500000"),
        (2.0, "atempo=2.000000"),
        (3.0, "atempo=2.000000,atempo=1.500000"),
        (4.0, "atempo=2.000000,atempo=2.000000"),
        (1.1, "atempo=1.100000"),
        (0.3, "atempo=0.500000,atempo=0.600000"),
    ] {
        assert_eq!(atempo_chain(speed(x)), chain);
    }
}

#[test]
fn the_chain_is_what_float_formatting_gives() {
    let mut units = SPEED_MIN;
    while units <= SPEED_MAX {
        let x = units as f64 / SPEED_ONE as f64;
        let single = x as f32;
        if single as f64 == x {
            let mut factors: Vec<f32> = Vec::new();
            let mut remaining = single;
            while remaining > 2.0 {
                factors.push(2.0);
                remaining /= 2.0;
            }
            while remaining < 0.5 {
                factors.push(0.5);
                remaining /= 0.5;
            }
            factors.push(remaining);
            let text: Vec<String> = factors.iter().map(|f| format!("atempo={f:.6}")).collect();
            assert_eq!(atempo_chain(Speed { units }), text.join(","));
        }
        units += 40_961;
    }
}

#[test]
fn the_chain_is_told_what_sound_comes() {
    assert_eq!(
        tempo_graph_args(48_000, 0x3f),
        "time_base=1/48000:sample_rate=48000:sample_fmt=flt:channel_layout=0x3f"
    );
}

#[test]
fn speeds_are_clamped() {
    assert_eq!(Speed { units: 0 }.clamped().units, SPEED_MIN);
    assert_eq!(Speed { units: i64::MAX }.clamped().units, SPEED_MAX);
    assert!(speed(1.0).is_close_to(speed(1.0009)));
    assert!(!speed(1.0).is_close_to(speed(1.0011)));
    assert_eq!(Speed::normal().units, SPEED_ONE);
}

#[test]
fn blocks_without_a_time_are_counted() {
    let mut d = decoder();
    for k in 0..100i128 {
        let frame = delivered(d.receive_frame(AudioReply::Frame(block(None, 1024))));
        assert_eq!(frame.pts_secs.nanos, k * 1024 * SECOND / 48_000);
    }
}

#[test]
fn blocks_that_all_start_at_zero_are_counted() {
    let mut d = decoder();
    for k in 0..3i128 {
        let frame = delivered(d.receive_frame(AudioReply::Frame(block(Some(0), 48_000))));
        assert_eq!(frame.pts_secs.nanos, k * SECOND);
    }
}

#[test]
fn a_block_without_a_time_follows_the_last_one_exactly() {
    for pts in [None, Some(0), Some(-7), Some(i64::MIN)] {
        let mut d = decoder();
        let timed = delivered(d.receive_frame(AudioReply::Frame(block(Some(5_000), 1_001))));
        assert_eq!(timed.pts_secs, ExactTime { nanos: 5 * SECOND, num: 0, den: 1 });
        let next = delivered(d.receive_frame(AudioReply::Frame(block(pts, 1_001))));
        let end = ExactTime { nanos: 5_020_854_166, num: 32_000, den: 48_000 };
        assert_eq!(next.pts_secs, end);
        let last = delivered(d.receive_frame(AudioReply::Frame(block(pts, 46_999))));
        let end = ExactTime { nanos: 5_041_708_333, num: 16_000, den: 48_000 };
        assert_eq!(last.pts_secs, end);
        let after = delivered(d.receive_frame(AudioReply::Frame(block(pts, 1))));
        assert_eq!(after.pts_secs.nanos, 6 * SECOND + 1_001 * SECOND / 48_000);
    }
}

#[test]
fn counted_time_does_not_drift() {
    let mut d = decoder();
    for _ in 0..48_000 {
        delivered(d.receive_frame(AudioReply::Frame(block(None, 1))));
    }
    assert_eq!(d.next_pts, Some(ExactTime { nanos: SECOND, num: 0, den: 1 }));
}

#[test]
fn fractions_survive_a_change_of_rate() {
    let start = ExactTime::from_whole(Seconds { nanos: 0 });
    let mut t = start;
    for rate in [44_100u32, 48_000, 32_000] {
        t = t.plus_samples(1, rate);
    }
    for rate in [44_100u32, 48_000, 32_000] {
        t = t.plus_samples(rate as usize - 1, rate);
    }
    assert_eq!(t, ExactTime { nanos: 3 * SECOND, num: 0, den: 1 });
    assert_eq!(start.plus_samples(1, 3), ExactTime { nanos: 333_333_333, num: 1, den: 3 });
    assert_eq!(start.plus_samples(1, 48_000).to_ticks(48_000), 1);
    assert_eq!(start.plus_samples(1, 48_000).whole().nanos, 20_833);
    assert!(!start.is_positive() && start.plus_samples(1, u32::MAX).is_positive());
    let large = ExactTime { nanos: i128::MAX, num: 0, den: 1 };
    assert_eq!((large.to_ticks(1), large.to_ticks(0)), (i64::MAX, 0));
    assert_eq!(large.plus_samples(48_000, 48_000).nanos, i128::MAX);
}

#[test]
fn timestamps_keep_their_fraction() {
    let mut d = AudioDecoder::new(TimeBase { num: 1, den: 48_000 }, 48_000, 3, 2);
    let frame = delivered(d.receive_frame(AudioReply::Frame(block(Some(1), 1))));
    assert_eq!(frame.pts_secs, ExactTime { nanos: 20_833, num: 16_000, den: 48_000 });
    d.set_speed(speed(2.0));
    match d.receive_frame(AudioReply::Frame(block(Some(7), 1))) {
        Ok(AudioStep::Stretch(job)) => assert_eq!(job.input_pts, 7),
        _ => panic!("a filter job was expected"),
    }
}

#[test]
fn samples_follow_the_order_of_the_machine() {
    let mut b = SampleBuffers {
        kind: SampleKind::I16,
        planar: false,
        order: ByteOrder::Big,
        channels: 1,
        samples: 2,
        planes: vec![vec![0x01, 0x02, 0xff, 0xfe]],
    };
    assert_eq!(fixed(&interleave(&b).unwrap()).0, vec![0x0102, -2]);
    b.order = ByteOrder::Little;
    assert_eq!(fixed(&interleave(&b).unwrap()).0, vec![0x0201, -257]);
    b.kind = SampleKind::F64;
    b.samples = 1;
    b.order = ByteOrder::Big;
    b.planes = vec![1.5f64.to_be_bytes().to_vec()];
    assert!(matches!(interleave(&b), Some(Pcm::Double(w)) if w == vec![1.5f64.to_bits()]));
}

#[test]
fn a_time_from_the_container_counts() {
    let mut d = decoder();
    d.set_start_offset(Seconds { nanos: 1_400_000_000 });
    let frame = delivered(d.receive_frame(AudioReply::Frame(block(Some(1_400), 480))));
    assert_eq!(frame.pts_secs.nanos, 0);
    let frame = delivered(d.receive_frame(AudioReply::Frame(block(Some(2_400), 480))));
    assert_eq!(frame.pts_secs.nanos, SECOND);
    let frame = delivered(d.receive_frame(AudioReply::Frame(block(Some(i64::MIN), 480))));
    assert_eq!(frame.pts_secs.nanos, SECOND + SECOND / 100);
    let frame = delivered(d.receive_frame(AudioReply::Frame(block(Some(400), 480))));
    assert_eq!(frame.pts_secs.nanos, SECOND + SECOND / 50);
    assert_eq!((frame.sample_rate, frame.channels), (48_000, 2));
    assert_eq!(fixed(&frame.samples).0.len(), 960);
}

#[test]
fn the_decoder_may_have_nothing_or_fail() {
    let mut d = decoder();
    assert!(matches!(d.receive_frame(AudioReply::Again), Ok(AudioStep::Nothing)));
    assert!(matches!(d.receive_frame(AudioReply::Failed), Err(AudioError::Decoder)));
    let mut raw = block(None, 1);
    raw.kind = SampleKind::Other;
    raw.planes = vec![];
    assert!(matches!(
        d.receive_frame(AudioReply::Frame(raw)),
        Err(AudioError::UnsupportedFormat)
    ));
    assert!(d.next_pts.is_none());
    let mut silent = block(None, 0);
    silent.rate = 0;
    silent.channels = 0;
    let frame = delivered(d.receive_frame(AudioReply::Frame(silent)));
    assert_eq!((frame.sample_rate, frame.channels), (0, 1));
    assert_eq!((d.sample_rate(), d.channels()), (0, 1));
    assert!(d.next_pts.is_none());
}

#[test]
fn sound_at_another_speed_goes_through_the_chain() {
    let mut d = decoder();
    d.set_speed(speed(2.0));
    let job = match d.receive_frame(AudioReply::Frame(block(Some(10_000), 960))) {
        Ok(AudioStep::Stretch(job)) => job,
        _ => panic!("a filter job was expected"),
    };
    let (args, chain) = job.graph.expect("no chain stands yet");
    assert_eq!(args, "time_base=1/48000:sample_rate=48000:sample_fmt=flt:channel_layout=0x3");
    assert_eq!(chain, "atempo=2.000000");
    assert_eq!((job.input_pts, job.frames), (480_000, 960));
    d.tempo_ready();
    let one: Vec<u8> = 1.0f32.to_le_bytes().to_vec();
    let outputs = vec![
        FilteredAudio { pts: Some(480_000), data: one.clone() },
        FilteredAudio { pts: Some(504_000), data: one.clone() },
    ];
    let first = d.finish_stretch(job.pts_secs, outputs).unwrap();
    assert_eq!(first.pts_secs.nanos, 10 * SECOND);
    assert!(matches!(&first.samples, Pcm::Single(w) if w == &vec![1.0f32.to_bits()]));
    let second = d.next_pending().unwrap();
    assert_eq!(second.pts_secs.nanos, 11 * SECOND);
    assert!(d.next_pending().is_none());
    let job = match d.receive_frame(AudioReply::Frame(block(Some(10_020), 960))) {
        Ok(AudioStep::Stretch(job)) => job,
        _ => panic!("a filter job was expected"),
    };
    assert!(job.graph.is_none());
    let later = d
        .finish_stretch(job.pts_secs, vec![FilteredAudio { pts: Some(492_000), data: one }])
        .unwrap();
    assert_eq!(later.pts_secs.nanos, 10 * SECOND + SECOND / 2);
    assert!(d.finish_stretch(job.pts_secs, vec![]).is_none());
}

#[test]
fn a_new_speed_gives_up_what_is_stretched() {
    let mut d = decoder();
    d.set_speed(speed(0.5));
    d.tempo_ready();
    let out = |pts| FilteredAudio { pts: Some(pts), data: vec![] };
    d.finish_stretch(Seconds { nanos: 0 }, vec![out(0), out(1), out(2)]);
    d.set_speed(speed(0.5004));
    assert!(d.tempo_built);
    assert_eq!(d.pending.len(), 2);
    d.set_speed(speed(9.0));
    assert_eq!(d.speed.units, SPEED_MAX);
    assert!(!d.tempo_built);
    assert!(d.tempo_anchor.is_none());
    assert!(d.next_pending().is_none());
}

#[test]
fn short_buffers_are_noticed() {
    let buffers = |planar, channels, samples, planes| SampleBuffers {
        kind: SampleKind::I16,
        planar,
        order: ByteOrder::Little,
        channels,
        samples,
        planes,
    };
    assert!(buffers(false, 2, 2, vec![vec![0; 8]]).is_complete());
    assert!(!buffers(false, 2, 2, vec![vec![0; 7]]).is_complete());
    assert!(!buffers(false, 2, 2, vec![]).is_complete());
    assert!(buffers(true, 2, 2, vec![vec![0; 4], vec![0; 4]]).is_complete());
    assert!(!buffers(true, 2, 2, vec![vec![0; 4], vec![0; 3]]).is_complete());
    assert!(!buffers(true, 2, 2, vec![vec![0; 4]]).is_complete());
    assert!(!buffers(false, 0, 2, vec![vec![0; 8]]).is_complete());
    assert!(!buffers(false, usize::MAX, 2, vec![vec![0; 8]]).is_complete());
    let mut unknown = buffers(true, 2, 2, vec![]);
    unknown.kind = SampleKind::Other;
    assert!(unknown.is_complete());
    assert!(interleave(&unknown).is_none());
}

#[test]
fn setting_a_speed_again_changes_nothing() {
    for x in [-1.0f32, 0.1, 0.25, 1.0, 3.7, 4.0, 90.0] {
        let mut d = decoder();
        d.set_speed(speed(x));
        d.tempo_ready();
        let first = d.speed;
        d.set_speed(speed(x));
        assert_eq!(d.speed, first);
        assert!(d.tempo_built);
        assert!((SPEED_MIN..=SPEED_MAX).contains(&first.units));
    }
}

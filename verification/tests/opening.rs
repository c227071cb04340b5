use forgeplayer::bytes::{read_i16, read_i32, read_u16, read_u32, read_u64, ByteOrder};
use forgeplayer::context::{is_network_url, network_options, open_options};
use forgeplayer::hdr::{
    frame_peak_nits, hdr_peak_nits, sane_peak, FirstFrameSearch, SearchStep, SideData, SideDataKind,
};
use forgeplayer::hw_accel::{
    asks_driver, first_attempt, next_attempt, num_cpus, preferred_hw, select_hw_format, HwAccelContext,
    HwAttempt, HwError, HwInit, HwKind, FORMAT_NONE,
};
use forgeplayer::launch::{choose_backend, opens, Backend};
use forgeplayer::pipeline::{opening_events, PipelineEvent};
use forgeplayer::probe::{
    probe_file, AudioParams, ChapterRecord, ContainerRecord, MediaInfo, Medium, StreamRecord,
    TransferCurve, VideoParams,
};
use forgeplayer::timing::{Ratio, TimeBase};

fn light(cll: u32) -> Vec<u8> {
    let mut b = cll.to_le_bytes().to_vec();
    b.extend_from_slice(&[0; 4]);
    b
}

fn master(num: i32, den: i32, set: i32) -> Vec<u8> {
    let mut b = vec![0u8; 72];
    b.extend_from_slice(&num.to_le_bytes());
    b.extend_from_slice(&den.to_le_bytes());
    b.extend_from_slice(&0i32.to_le_bytes());
    b.extend_from_slice(&set.to_le_bytes());
    b
}

fn nits(n: i64) -> Option<Ratio> {
    Some(Ratio { num: n, den: 1 })
}

fn stream(index: usize, medium: Medium) -> StreamRecord {
    StreamRecord {
        index,
        medium,
        codec_name: format!("codec{index}"),
        language: None,
        title: None,
        video: None,
        audio: None,
    }
}

fn video_params(curve: TransferCurve, peak_nits: Option<Ratio>) -> VideoParams {
    VideoParams {
        width: 3840,
        height: 2160,
        frame_rate: TimeBase { num: 24_000, den: 1001 },
        bit_rate: 45_000_000,
        curve,
        full_range: true,
        color_space: "BT2020NCL".to_string(),
        peak_nits,
    }
}

fn container(streams: Vec<StreamRecord>) -> ContainerRecord {
    ContainerRecord {
        path: "film.mkv".to_string(),
        format_name: "matroska".to_string(),
        duration: 5_000_001,
        bit_rate: 9,
        streams,
        chapters: vec![ChapterRecord {
            title: None,
            start: 3,
            end: 6,
            time_base: TimeBase { num: 1, den: 2 },
        }],
    }
}

#[test]
fn numbers_are_read_in_either_order() {
    let b = [0x01u8, 0x82, 0x03, 0x84, 0x05, 0x06, 0x07, 0x88];
    let order = ByteOrder::Little;
    assert_eq!(read_u16(&b, 1, order), u16::from_le_bytes([0x82, 0x03]));
    assert_eq!(read_u32(&b, 0, order), u32::from_le_bytes([0x01, 0x82, 0x03, 0x84]));
    assert_eq!(read_u64(&b, 0, order), u64::from_le_bytes(b));
    assert_eq!(read_i16(&b, 0, order), i16::from_le_bytes([0x01, 0x82]));
    assert_eq!(read_i32(&b, 0, order), i32::from_le_bytes([0x01, 0x82, 0x03, 0x84]));
    let order = ByteOrder::Big;
    assert_eq!(read_u16(&b, 1, order), u16::from_be_bytes([0x82, 0x03]));
    assert_eq!(read_u32(&b, 1, order), u32::from_be_bytes([0x82, 0x03, 0x84, 0x05]));
    assert_eq!(read_u64(&b, 0, order), u64::from_be_bytes(b));
    assert_eq!(read_i16(&b, 1, order), i16::from_be_bytes([0x82, 0x03]));
    assert_eq!(read_i32(&b, 1, order), i32::from_be_bytes([0x82, 0x03, 0x84, 0x05]));
}

#[test]
fn the_measured_peak_comes_first() {
    let entry = |kind, bytes| SideData { kind, bytes };
    let both = vec![
        entry(SideDataKind::MasteringDisplay, master(40_000_000, 10_000, 1)),
        entry(SideDataKind::Other, vec![]),
        entry(SideDataKind::ContentLightLevel, light(1000)),
    ];
    assert_eq!(hdr_peak_nits(&both, ByteOrder::Little), nits(1000));
    let only_master = vec![entry(SideDataKind::MasteringDisplay, master(40_000_000, 10_000, 1))];
    let master_peak = Some(Ratio { num: 40_000_000, den: 10_000 });
    assert_eq!(hdr_peak_nits(&only_master, ByteOrder::Little), master_peak);
    let broken_light = vec![
        entry(SideDataKind::ContentLightLevel, light(99)),
        entry(SideDataKind::MasteringDisplay, master(1000, 1, 1)),
    ];
    assert_eq!(hdr_peak_nits(&broken_light, ByteOrder::Little), None);
    assert_eq!(hdr_peak_nits(&vec![], ByteOrder::Little), None);
}

#[test]
fn broken_peaks_count_as_none() {
    assert_eq!(sane_peak(Ratio { num: 100, den: 1 }), nits(100));
    assert_eq!(sane_peak(Ratio { num: 10_000, den: 1 }), nits(10_000));
    assert_eq!(sane_peak(Ratio { num: 10_001, den: 1 }), None);
    assert_eq!(sane_peak(Ratio { num: 199, den: 2 }), None);
    assert_eq!(sane_peak(Ratio { num: -1000, den: 1 }), None);
}

fn frame_peak(light: Option<Vec<u8>>, master: Option<Vec<u8>>) -> Option<Ratio> {
    frame_peak_nits(&light, &master, ByteOrder::Little)
}

#[test]
fn side_data_follows_the_order_of_the_machine() {
    let mut big = 4000u32.to_be_bytes().to_vec();
    big.extend_from_slice(&[0; 4]);
    assert_eq!(frame_peak_nits(&Some(big.clone()), &None, ByteOrder::Big), nits(4000));
    assert_eq!(frame_peak_nits(&Some(big.clone()), &None, ByteOrder::Little), None);
    let entries = vec![SideData { kind: SideDataKind::ContentLightLevel, bytes: big }];
    assert_eq!(hdr_peak_nits(&entries, ByteOrder::Big), nits(4000));
}

#[test]
fn frames_tell_their_peak() {
    assert_eq!(frame_peak(Some(light(4000)), Some(master(600, 1, 1))), nits(4000));
    assert_eq!(frame_peak(Some(light(0)), Some(master(600, 1, 1))), nits(600));
    assert_eq!(frame_peak(None, Some(master(-600, -1, 1))), nits(600));
    assert_eq!(frame_peak(None, Some(master(600, 0, 1))), None);
    assert_eq!(frame_peak(None, Some(master(600, 1, 0))), None);
    assert_eq!(frame_peak(Some(vec![1, 2, 3]), Some(vec![0; 87])), None);
    assert_eq!(frame_peak(None, None), None);
}

#[test]
fn the_search_for_the_first_frame_is_bounded() {
    let mut search = FirstFrameSearch::new(2);
    assert_eq!(search.next(0), SearchStep::Skip);
    let mut handed = 0;
    loop {
        match search.next(2) {
            SearchStep::Decode => handed += 1,
            SearchStep::GiveUp => break,
            SearchStep::Skip => unreachable!(),
        }
    }
    assert_eq!(handed, 60);
    assert_eq!(search.next(2), SearchStep::GiveUp);
    assert_eq!(search.next(0), SearchStep::Skip);
}

#[test]
fn a_file_is_described() {
    let mut cover = stream(0, Medium::Video);
    cover.video = None;
    let mut picture = stream(1, Medium::Video);
    picture.video = Some(video_params(TransferCurve::Pq, nits(1000)));
    let mut second = stream(2, Medium::Video);
    second.video = Some(video_params(TransferCurve::Other, None));
    let mut sound = stream(3, Medium::Audio);
    sound.language = Some("fra".to_string());
    sound.audio = Some(AudioParams { channels: 6, sample_rate: 48_000, bit_rate: 640_000 });
    let mute = stream(4, Medium::Audio);
    let mut lines = stream(5, Medium::Subtitle);
    lines.title = Some("Forced".to_string());
    let streams = vec![cover, picture, second, sound, mute, lines, stream(6, Medium::Other)];
    let info = probe_file(&container(streams));
    assert_eq!((info.path.as_str(), info.format_name.as_str()), ("film.mkv", "matroska"));
    assert_eq!((info.duration_secs.nanos, info.bit_rate), (5_000_001_000, 9));
    let v = info.video.as_ref().unwrap();
    assert_eq!((v.index, v.codec_name.as_str(), v.width, v.height), (1, "codec1", 3840, 2160));
    assert_eq!((v.fps, v.bit_rate), (Ratio { num: 24_000, den: 1001 }, 45_000_000));
    assert!(v.hdr && v.full_range);
    assert_eq!((v.transfer, v.peak_nits, v.color_space.as_str()), (1, nits(1000), "BT2020NCL"));
    assert_eq!(info.audio.len(), 2);
    let a = &info.audio[0];
    assert_eq!((a.index, a.channels, a.sample_rate, a.bit_rate), (3, 6, 48_000, 640_000));
    assert_eq!((a.codec_name.as_str(), a.language.as_str()), ("codec3", "fra"));
    let m = &info.audio[1];
    assert_eq!((m.channels, m.sample_rate, m.bit_rate, m.language.as_str()), (0, 0, 0, "und"));
    assert_eq!(info.subtitles.len(), 1);
    let s = &info.subtitles[0];
    assert_eq!((s.index, s.codec.as_str(), s.title.as_str()), (5, "codec5", "Forced"));
    assert_eq!(s.language, "und");
    assert_eq!(info.chapters.len(), 1);
    let c = &info.chapters[0];
    assert_eq!((c.start_secs.nanos, c.end_secs.nanos), (1_500_000_000, 3_000_000_000));
    assert_eq!(c.title, "");
    assert_eq!(info.needs_first_frame(), None);
}

#[test]
fn only_the_transfer_function_makes_hdr() {
    for (curve, transfer) in
        [(TransferCurve::Other, 0u8), (TransferCurve::Pq, 1), (TransferCurve::Hlg, 2)]
    {
        let mut picture = stream(0, Medium::Video);
        picture.video = Some(video_params(curve, None));
        let info = probe_file(&container(vec![picture]));
        let v = info.video.as_ref().unwrap();
        assert_eq!((v.hdr, v.transfer), (transfer != 0, transfer));
        let first = info.needs_first_frame();
        assert_eq!(first, if transfer != 0 { Some(0) } else { None });
        let info = info.with_first_frame_peak(nits(4000));
        let told = if transfer != 0 { nits(4000) } else { None };
        assert_eq!(info.video.unwrap().peak_nits, told);
    }
}

#[test]
fn the_peak_of_the_container_stands() {
    for (curve, told, first, peak) in [
        (TransferCurve::Pq, nits(1000), None, nits(1000)),
        (TransferCurve::Pq, nits(1000), nits(4000), nits(1000)),
        (TransferCurve::Hlg, None, nits(4000), nits(4000)),
        (TransferCurve::Hlg, None, None, None),
        (TransferCurve::Other, nits(600), nits(4000), nits(600)),
        (TransferCurve::Other, None, nits(4000), None),
    ] {
        let mut picture = stream(0, Medium::Video);
        picture.video = Some(video_params(curve, told));
        let info = probe_file(&container(vec![picture])).with_first_frame_peak(first);
        assert_eq!(info.video.unwrap().peak_nits, peak);
    }
    let mute = probe_file(&container(vec![stream(0, Medium::Audio)]));
    assert!(mute.with_first_frame_peak(nits(1000)).video.is_none());
}

#[test]
fn a_file_that_cannot_be_read_is_unknown() {
    let info = MediaInfo::unknown("x.avi");
    assert_eq!((info.path.as_str(), info.format_name.as_str()), ("x.avi", "unknown"));
    assert!(info.video.is_none() && info.audio.is_empty() && info.subtitles.is_empty());
    assert!(info.chapters.is_empty());
    let events = opening_events(info);
    assert_eq!(events.len(), 2);
    assert!(matches!(&events[0], PipelineEvent::MetadataReady(i) if i.path == "x.avi"));
    assert!(matches!(&events[1], PipelineEvent::DurationKnown(d) if d.nanos == 0));
}

#[test]
fn network_addresses_are_known_by_their_scheme() {
    for url in [
        "http://a", "HTTPS://a", "rtsp://a", "rtmp://a", "rtmps://a", "udp://a", "rtp://a",
        "srt://a", "mms://a", "MmsH://a",
    ] {
        assert!(is_network_url(url), "{url}");
    }
    for path in ["file:///C:/a", "C:\\http://", "http:/a", "", "ftp://a"] {
        assert!(!is_network_url(path), "{path}");
    }
}

#[test]
fn network_sources_are_opened_with_limits() {
    let options: Vec<(String, String)> =
        network_options("1.7.1").into_iter().map(|o| (o.name, o.value)).collect();
    let pair = |a: &str, b: &str| (a.to_string(), b.to_string());
    assert_eq!(
        options,
        vec![
            pair("timeout", "3000000"),
            pair("rw_timeout", "8000000"),
            pair("reconnect", "1"),
            pair("reconnect_streamed", "1"),
            pair("reconnect_delay_max", "4"),
            pair("user_agent", "ForgePlayer/1.7.1"),
        ]
    );
    assert_eq!(open_options("http://a", "1").unwrap().len(), 6);
    assert!(open_options("/a", "1").is_none());
}

#[test]
fn settings_choose_the_accelerator() {
    assert_eq!(preferred_hw("none", true, true), None);
    assert_eq!(preferred_hw("d3d11va", false, false), Some("d3d11va"));
    assert_eq!(preferred_hw("dxva2", true, true), Some("dxva2"));
    assert_eq!(preferred_hw("auto", true, true), Some("d3d11va"));
    assert_eq!(preferred_hw("auto", true, false), Some("dxva2"));
    assert_eq!(preferred_hw("auto", false, true), None);
}

#[test]
fn the_driver_is_asked_where_it_matters() {
    for setting in ["none", "d3d11va", "dxva2", "auto", ""] {
        for windows in [true, false] {
            let matters = preferred_hw(setting, windows, true) != preferred_hw(setting, windows, false);
            assert_eq!(asks_driver(setting, windows), matters);
        }
    }
    assert!(asks_driver("auto", true) && !asks_driver("none", true));
}

#[test]
fn accelerators_are_tried_in_turn() {
    assert_eq!(first_attempt(true, true, true), HwAttempt::SharedDevice);
    assert_eq!(first_attempt(true, false, true), HwAttempt::Named);
    assert_eq!(first_attempt(false, true, true), HwAttempt::Named);
    assert_eq!(first_attempt(false, true, false), HwAttempt::Software);
    assert_eq!(first_attempt(true, true, false), HwAttempt::Software);
    assert_eq!(next_attempt(HwAttempt::SharedDevice, true), HwAttempt::Named);
    assert_eq!(next_attempt(HwAttempt::SharedDevice, false), HwAttempt::Software);
    assert_eq!(next_attempt(HwAttempt::Named, true), HwAttempt::Software);
}

#[test]
fn the_setting_none_turns_hardware_decoding_off() {
    let preferred = preferred_hw("none", true, true).is_some();
    for device_given in [true, false] {
        let first = first_attempt(device_given, true, preferred);
        assert_eq!(first, HwAttempt::Software);
        assert_eq!(next_attempt(first, preferred), HwAttempt::Software);
    }
    let preferred = preferred_hw("auto", true, true).is_some();
    assert_eq!(first_attempt(true, true, preferred), HwAttempt::SharedDevice);
}

#[test]
fn devices_are_set_up_on_windows_only() {
    assert_eq!(HwAccelContext::try_init("d3d11va", true), HwInit::Create(HwKind::D3D11Va));
    assert_eq!(HwAccelContext::try_init("dxva2", true), HwInit::Create(HwKind::Dxva2));
    let software = HwAccelContext { kind: HwKind::Software, has_device: false };
    assert_eq!(HwAccelContext::try_init("dxva2", false), HwInit::Ready(software));
    assert_eq!(HwAccelContext::try_init("cuda", true), HwInit::Ready(software));
    let device = HwAccelContext::created(HwKind::D3D11Va, 0, true).unwrap();
    assert_eq!(device.kind(), HwKind::D3D11Va);
    assert_eq!(HwAccelContext::created(HwKind::Dxva2, -1, true), Err(HwError { code: -1 }));
    assert_eq!(HwAccelContext::created(HwKind::Dxva2, 0, false), Err(HwError { code: 0 }));
    let setup = device.apply_to_codec(Some(16));
    assert_eq!((setup.frame_threads, setup.attach), (Some(8), Some(HwKind::D3D11Va)));
    let setup = software.apply_to_codec(Some(16));
    assert_eq!((setup.frame_threads, setup.attach), (None, None));
    let cuda = HwAccelContext { kind: HwKind::Cuda, has_device: true };
    let setup = cuda.apply_to_codec(None);
    assert_eq!((setup.frame_threads, setup.attach), (Some(4), None));
    assert_eq!((num_cpus(Some(1)), num_cpus(Some(6))), (2, 6));
}

#[test]
fn a_decoder_falls_back_to_its_first_layout() {
    assert_eq!(select_hw_format(&vec![1, 172, 0], 172), 172);
    assert_eq!(select_hw_format(&vec![1, 0], 172), 1);
    assert_eq!(select_hw_format(&vec![], 172), FORMAT_NONE);
}

#[test]
fn arguments_and_environment_are_understood() {
    assert!(opens("file:///film.mkv", false));
    assert!(opens("film.mkv", true));
    assert!(!opens("film.mkv", false));
    assert_eq!(choose_backend(Some("vulkan"), true), Backend::Vulkan);
    assert_eq!(choose_backend(Some("dx12"), false), Backend::Dx12);
    assert_eq!(choose_backend(Some("gl"), true), Backend::Dx12);
    assert_eq!(choose_backend(None, false), Backend::Primary);
}

#[test]
fn software_is_always_reached() {
    for preferred in [false, true] {
        for (given, windows) in [(false, false), (true, false), (false, true), (true, true)] {
            let mut attempt = first_attempt(given, windows, preferred);
            for _ in 0..2 {
                attempt = next_attempt(attempt, preferred);
            }
            assert_eq!(attempt, HwAttempt::Software);
        }
    }
}

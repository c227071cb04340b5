use forgeplayer::cpu_probe::{thread_cpu_secs, CpuProbe, CpuReport, CpuTime, FileTime, PERIOD};
use forgeplayer::icon::load_icon;
use forgeplayer::zero_copy::{
    AdapterReply, AdapterSearch, AdapterStep, BridgeError, Luid, VideoColorSpace, ZeroCopyBridge,
    SLOTS,
};

#[test]
fn the_adapter_of_the_renderer_is_found() {
    let wanted = Luid { low: 7, high: -1 };
    let mut s = AdapterSearch::new(wanted);
    let other = Luid { low: 7, high: 0 };
    assert_eq!(s.on_reply(AdapterReply::Found(other)), AdapterStep::Next);
    assert_eq!(s.on_reply(AdapterReply::Found(wanted)), AdapterStep::Take(1));
    let mut s = AdapterSearch::new(wanted);
    assert_eq!(s.on_reply(AdapterReply::Found(Luid { low: 8, high: -1 })), AdapterStep::Next);
    assert_eq!(s.on_reply(AdapterReply::End), AdapterStep::Missing);
}

#[test]
fn a_bridge_needs_a_device() {
    assert_eq!(ZeroCopyBridge::new(0, 2, 2), Err(BridgeError::UnknownDevice));
    let b = ZeroCopyBridge::new(0x1000, 1920, 1080).unwrap();
    assert!(b.matches(0x1000, 1920, 1080));
    assert!(!b.matches(0x1008, 1920, 1080));
    assert!(!b.matches(0x1000, 1919, 1080));
    assert!(!b.matches(0x1000, 1920, 1081));
}

#[test]
fn shared_textures_take_turns() {
    let mut b = ZeroCopyBridge::new(1, 2, 2).unwrap();
    assert_eq!(b.convert(0, false, false), Err(BridgeError::InvalidTexture));
    let slots: Vec<usize> =
        (0..7).map(|_| b.convert(9, false, false).unwrap().slot).collect();
    assert_eq!(slots, vec![0, 1, 2, 0, 1, 2, 0]);
    assert_eq!(SLOTS, 3);
    assert_eq!((b.signal(), b.signal(), b.fence_value), (1, 2, 2));
}

#[test]
fn conversions_keep_the_transfer_function() {
    let mut b = ZeroCopyBridge::new(1, 2, 2).unwrap();
    let spaces = |b: &mut ZeroCopyBridge, hdr, full| {
        let c = b.convert(9, hdr, full).unwrap();
        (c.input, c.output)
    };
    let pq = (
        VideoColorSpace::YcbcrStudioG2084LeftP2020,
        VideoColorSpace::RgbFullG2084NoneP2020,
    );
    assert_eq!(spaces(&mut b, true, false), pq);
    assert_eq!(spaces(&mut b, true, true), pq);
    let out = VideoColorSpace::RgbFullG22NoneP709;
    assert_eq!(spaces(&mut b, false, true), (VideoColorSpace::YcbcrFullG22LeftP709, out));
    assert_eq!(spaces(&mut b, false, false), (VideoColorSpace::YcbcrStudioG22LeftP709, out));
}

#[test]
fn processor_time_is_the_sum_of_two_clocks() {
    let kernel = FileTime { high: 1, low: 2 };
    let user = FileTime { high: 0, low: 5 };
    assert_eq!(thread_cpu_secs(Some((kernel, user))), CpuTime { ticks: 0x1_0000_0007 });
    assert_eq!(thread_cpu_secs(None), CpuTime { ticks: 0 });
    assert_eq!(FileTime { high: u32::MAX, low: u32::MAX }.to_ticks(), u64::MAX);
}

#[test]
fn measurements_last_five_seconds() {
    let mut p = CpuProbe::new("video".to_string(), CpuTime { ticks: 100 });
    assert_eq!(p.tick(PERIOD - 1, CpuTime { ticks: 900 }), None);
    assert_eq!(p.last_cpu, CpuTime { ticks: 100 });
    let r = p.tick(PERIOD, CpuTime { ticks: 25_000_100 }).unwrap();
    assert_eq!(r, CpuReport { used: 25_000_000, wall: PERIOD });
    let (num, den) = r.percent();
    assert_eq!(num as f64 / den as f64, 50.0);
    let second = p.tick(PERIOD, CpuTime { ticks: 25_000_150 }).unwrap();
    assert_eq!(r.used + second.used, 25_000_150 - 100);
    assert!(CpuProbe::due(5_000_000_000) && !CpuProbe::due(4_999_999_999));
    assert_eq!(p.label, "video");
}

#[test]
fn the_icon_shades_from_blue_to_violet() {
    let rgba = load_icon().rgba;
    let pixel = |x: usize, y: usize| rgba[4 * (32 * y + x)..][..3].to_vec();
    assert_eq!(pixel(1, 16), vec![4, 123, 255]);
    assert_eq!(pixel(16, 16), vec![66, 61, 255]);
    assert_eq!(pixel(31, 16), vec![128, 0, 255]);
}

#[test]
fn the_icon_is_a_shaded_disc() {
    let icon = load_icon();
    assert_eq!((icon.width, icon.height, icon.rgba.len()), (32, 32, 4096));
    for y in 0..32usize {
        for x in 0..32usize {
            let p = &icon.rgba[4 * (32 * y + x)..][..4];
            let (dx, dy) = (x as f32 - 16.0, y as f32 - 16.0);
            let dist = (dx * dx + dy * dy).sqrt();
            let expected = if dist <= 15.0 {
                let alpha = if dist > 13.5 {
                    ((15.0 - dist) * 170.0).clamp(0.0, 255.0) as u8
                } else {
                    255
                };
                let t = x as f32 / 31.0;
                [(t * 128.0) as u8, ((31 - x) * 128 / 31) as u8, 255, alpha]
            } else {
                [0, 0, 0, 0]
            };
            assert_eq!(p, expected, "pixel {x}, {y}");
        }
    }
}

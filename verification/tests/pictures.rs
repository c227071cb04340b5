use forgeplayer::pixel::PixelFormat;
use forgeplayer::timing::{Ratio, Seconds, TimeBase};
use forgeplayer::video::{
    desired_target, extract_planes, is_hw_format, FrameBuffers, RawVideo, ScalerSetup,
    SourceFormat, VideoDecoder, VideoError, VideoReply, VideoStep,
};

fn decoder() -> VideoDecoder {
    VideoDecoder::new(TimeBase { num: 1, den: 90_000 })
}

fn raw(format: SourceFormat) -> VideoReply {
    VideoReply::Frame(RawVideo { pts: Some(180_000), format, width: 64, height: 36 })
}

const TWO: Seconds = Seconds { nanos: 2_000_000_000 };

#[test]
fn pixel_formats_know_their_samples() {
    for f in [
        PixelFormat::Yuv420p,
        PixelFormat::Yuv422p,
        PixelFormat::Yuv444p,
        PixelFormat::Nv12,
        PixelFormat::Yuv420p10le,
        PixelFormat::P010Le,
        PixelFormat::Rgba,
        PixelFormat::D3d11,
    ] {
        assert_eq!(f.is_hdr10bit(), f == PixelFormat::Yuv420p10le || f == PixelFormat::P010Le);
        assert_eq!(f.is_gpu_surface(), f == PixelFormat::D3d11);
        assert_eq!(f.is_semi_planar(), f == PixelFormat::Nv12 || f == PixelFormat::P010Le);
        let scale = if f == PixelFormat::Yuv420p10le {
            Ratio { num: 65535, den: 1023 }
        } else {
            Ratio { num: 1, den: 1 }
        };
        assert_eq!(f.sample_scale(), scale);
    }
}

fn other(id: i32) -> SourceFormat {
    SourceFormat::Other { id, depth: 8, planar: false }
}

#[test]
fn what_the_gpu_shows_is_not_converted() {
    for f in [SourceFormat::Yuv420p, SourceFormat::Nv12, SourceFormat::P010le] {
        assert_eq!(desired_target(f), f);
        assert_eq!(decoder().receive_frame(raw(f)), Ok(VideoStep::Keep(TWO)));
    }
}

#[test]
fn ten_bits_stay_ten_bits_and_the_rest_becomes_planar() {
    for f in [
        SourceFormat::Yuv420p10le,
        SourceFormat::Yuv420p10be,
        SourceFormat::Yuv422p10le,
        SourceFormat::Yuv422p10be,
        SourceFormat::Yuv444p10le,
        SourceFormat::Yuv444p10be,
        SourceFormat::P010be,
        SourceFormat::Other { id: 154, depth: 10, planar: true },
    ] {
        assert_eq!(desired_target(f), SourceFormat::Yuv420p10le);
    }
    for (depth, planar) in [(8, true), (8, false), (9, true), (10, false), (12, true)] {
        let f = SourceFormat::Other { id: 154, depth, planar };
        assert_eq!(desired_target(f), SourceFormat::Yuv420p);
    }
    assert_eq!(desired_target(other(7)), SourceFormat::Yuv420p);
    for f in [SourceFormat::P010be, other(7), SourceFormat::Nv12] {
        assert_eq!(desired_target(desired_target(f)), desired_target(f));
        assert!(!is_hw_format(desired_target(f)));
    }
    assert_eq!(
        decoder().receive_frame(raw(SourceFormat::Yuv420p10le)),
        Ok(VideoStep::Keep(TWO))
    );
}

#[test]
fn a_scaler_lasts_while_the_stream_stays_the_same() {
    let mut d = decoder();
    let f = other(3);
    let convert = |rebuild| {
        Ok(VideoStep::Convert { pts: TWO, target: SourceFormat::Yuv420p, rebuild })
    };
    assert_eq!(d.receive_frame(raw(f)), convert(true));
    d.scaler_built(f, 64, 36);
    assert_eq!(
        d.scaler,
        Some(ScalerSetup { source: f, width: 64, height: 36, target: SourceFormat::Yuv420p })
    );
    assert_eq!(d.receive_frame(raw(f)), convert(false));
    assert_eq!(d.receive_frame(raw(other(4))), convert(true));
    let larger = RawVideo { pts: Some(180_000), format: f, width: 65, height: 36 };
    assert_eq!(d.receive_frame(VideoReply::Frame(larger)), convert(true));
}

#[test]
fn pictures_on_the_gpu_are_downloaded_first() {
    let d = decoder();
    assert!(is_hw_format(SourceFormat::D3d11) && is_hw_format(SourceFormat::Dxva2Vld));
    assert_eq!(d.receive_frame(raw(SourceFormat::D3d11)), Ok(VideoStep::Download(TWO)));
    assert_eq!(
        d.downloaded(TWO, Some((SourceFormat::P010le, 64, 36))),
        VideoStep::Keep(TWO)
    );
    assert_eq!(d.downloaded(TWO, None), VideoStep::Nothing);
}

#[test]
fn the_decoder_may_have_no_picture_or_fail() {
    assert_eq!(decoder().receive_frame(VideoReply::Again), Ok(VideoStep::Nothing));
    assert_eq!(decoder().receive_frame(VideoReply::Failed), Err(VideoError));
}

#[test]
fn the_start_of_the_container_is_taken_off() {
    let mut d = decoder();
    d.set_start_offset(Seconds { nanos: 1_500_000_000 });
    let half = Seconds { nanos: 500_000_000 };
    assert_eq!(d.receive_frame(raw(SourceFormat::Nv12)), Ok(VideoStep::Keep(half)));
    let untimed = RawVideo { pts: None, format: SourceFormat::Nv12, width: 2, height: 2 };
    assert_eq!(
        d.receive_frame(VideoReply::Frame(untimed)),
        Ok(VideoStep::Keep(Seconds { nanos: 0 }))
    );
}

#[test]
fn planes_are_cut_to_the_picture() {
    let y: Vec<u8> = (0..20).collect();
    let u: Vec<u8> = (20..26).collect();
    let v: Vec<u8> = (30..36).collect();
    let frame = FrameBuffers {
        format: SourceFormat::Yuv420p,
        width: 3,
        height: 3,
        planes: vec![&y, &u, &v],
        strides: vec![4, 2],
    };
    let (planes, strides, format) = extract_planes(&frame);
    assert_eq!(planes, vec![y[..12].to_vec(), u[..2].to_vec(), v[..2].to_vec()]);
    assert_eq!(strides, vec![4, 2, 2]);
    assert_eq!(format, PixelFormat::Yuv420p);
}

#[test]
fn semi_planar_and_packed_pictures_have_fewer_planes() {
    let y = vec![1u8; 8];
    let uv = vec![2u8; 8];
    for (source, format) in [
        (SourceFormat::Nv12, PixelFormat::Nv12),
        (SourceFormat::P010le, PixelFormat::P010Le),
    ] {
        let frame = FrameBuffers {
            format: source,
            width: 2,
            height: 2,
            planes: vec![&y, &uv],
            strides: vec![4, 4],
        };
        let d = decoder().finish_frame(TWO, &frame);
        assert_eq!((d.pts_secs, d.width, d.height, d.format), (TWO, 2, 2, format));
        assert_eq!(d.planes, vec![vec![1u8; 8], vec![2u8; 4]]);
        assert_eq!(d.strides, vec![4, 4]);
    }
    let frame = FrameBuffers {
        format: other(26),
        width: 1,
        height: 2,
        planes: vec![&y],
        strides: vec![4],
    };
    let (planes, strides, format) = extract_planes(&frame);
    assert_eq!((planes, strides, format), (vec![y.clone()], vec![4], PixelFormat::Rgba));
}

#[test]
fn short_planes_are_noticed() {
    let y = vec![0u8; 16];
    let c = vec![0u8; 4];
    let frame = |format, planes, strides| FrameBuffers {
        format,
        width: 4,
        height: 4,
        planes,
        strides,
    };
    let planar = SourceFormat::Yuv420p;
    assert!(frame(planar, vec![&y, &c, &c], vec![4, 2]).is_complete());
    assert!(!frame(planar, vec![&y, &c, &c], vec![5, 2]).is_complete());
    assert!(!frame(planar, vec![&y, &c, &c], vec![4, 3]).is_complete());
    assert!(!frame(planar, vec![&y, &c], vec![4, 2]).is_complete());
    assert!(!frame(planar, vec![&y, &c, &c], vec![4]).is_complete());
    assert!(frame(other(1), vec![&y], vec![4]).is_complete());
}

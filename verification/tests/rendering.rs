use forgeplayer::color::ColorUniforms;
use forgeplayer::frame_upload::{
    PlaneBytes, PlaneUpload, TexFormat, TexLayout, TextureSlot, TextureSpec, YuvTextures,
};
use forgeplayer::pixel::PixelFormat;
use forgeplayer::timing::{Ratio, Seconds};
use forgeplayer::video::DecodedVideoFrame;
use forgeplayer::video_callback::{
    CaptureLayout, HdrOffscreen, PaintSource, SnapshotState, VideoPaintCallback,
};
use forgeplayer::video_renderer::VideoRenderer;

fn value(r: Ratio) -> f64 {
    r.num as f64 / r.den as f64
}

fn close(a: f64, b: f64) -> bool {
    (a - b).abs() < 1e-6
}

fn frame(format: PixelFormat, width: u32, height: u32) -> DecodedVideoFrame {
    let bytes = if format.is_hdr10bit() { 2 } else { 1 };
    let (w, h) = (width as usize, height as usize);
    let y: Vec<u8> = (0..w * h * bytes).map(|i| i as u8).collect();
    let (planes, strides) = if format.is_semi_planar() {
        let uv: Vec<u8> = (0..w * (h / 2) * bytes).map(|i| 100 + i as u8).collect();
        (vec![y, uv], vec![w * bytes, w * bytes])
    } else {
        let c: Vec<u8> = (0..(w / 2) * (h / 2) * bytes).map(|i| 200 + i as u8).collect();
        (vec![y, c.clone(), c], vec![w * bytes, w / 2 * bytes, w / 2 * bytes])
    };
    DecodedVideoFrame { pts_secs: Seconds { nanos: 0 }, width, height, format, planes, strides }
}

fn bytes(u: &PlaneUpload, f: &DecodedVideoFrame) -> Vec<u8> {
    match &u.source {
        PlaneBytes::Plane(i) => f.planes[*i].clone(),
        PlaneBytes::Narrowed(b) => b.clone(),
    }
}

fn callback(transfer: u32) -> VideoPaintCallback {
    VideoPaintCallback {
        color_space: 2,
        full_range: false,
        transfer,
        tonemap_mode: 0,
        max_luminance: Ratio { num: 1000, den: 1 },
    }
}

#[test]
fn the_matrices_are_those_of_the_standards() {
    let m = ColorUniforms::bt709(false);
    assert!(close(value(m.matrix[0][0]), 255.0 / 219.0));
    assert!(close(value(m.matrix[2][0]), 1.5748 * 255.0 / 224.0));
    assert!(close(value(m.matrix[1][1]), -0.187_324_3 * 255.0 / 224.0));
    assert!(close(value(m.matrix[2][1]), -0.468_124_3 * 255.0 / 224.0));
    assert!(close(value(m.matrix[1][2]), 1.8556 * 255.0 / 224.0));
    assert!(close(value(m.offset[1]), 16.0 / 255.0));
    let m = ColorUniforms::bt601(true);
    assert!(close(value(m.matrix[0][2]), 1.0));
    assert!(close(value(m.matrix[2][0]), 1.402));
    assert!(close(value(m.matrix[1][2]), 1.772));
    assert!(close(value(m.offset[1]), 0.0));
    let m = ColorUniforms::bt2020(true);
    assert!(close(value(m.matrix[2][0]), 1.4746));
    assert!(close(value(m.matrix[1][2]), 1.8814));
}

#[test]
fn the_matrix_undoes_the_encoding() {
    let (kr, kb) = (0.2627, 0.0593);
    for full in [false, true] {
        let m = ColorUniforms::from_coeffs(2627, 593, full).matrix;
        let chroma = if full { 1.0 } else { 255.0 / 224.0 };
        for (r, g, b) in [(1.0, 0.0, 0.0), (0.2, 0.7, 0.4), (0.0, 0.0, 1.0)] {
            let y = kr * r + (1.0 - kr - kb) * g + kb * b;
            let u = (b - y) / (2.0 * (1.0 - kb)) / chroma;
            let v = (r - y) / (2.0 * (1.0 - kr)) / chroma;
            let row = |i: usize| y + value(m[1][i]) * u + value(m[2][i]) * v;
            assert!(close(row(0), r) && close(row(1), g) && close(row(2), b));
        }
    }
}

#[test]
fn the_layout_flag_is_the_only_change() {
    let flat = ColorUniforms::bt601(false);
    let semi = ColorUniforms::bt601(false).with_semi(true);
    assert_eq!(semi.matrix, flat.matrix);
    assert_eq!(semi.offset[1..], flat.offset[1..]);
    assert_eq!((value(semi.offset[0]), value(flat.offset[0])), (1.0, 0.0));
    assert_eq!(value(semi.with_semi(false).offset[0]), 0.0);
}

#[test]
fn textures_fit_the_layout() {
    let spec = |format, width, height| TextureSpec { format, width, height };
    let planar = TexLayout { semi: false, bits16: false };
    let (t, plan) = YuvTextures::ensure(None, 8, 5, planar);
    let plan = plan.unwrap();
    assert_eq!((t.width, t.height, t.layout()), (8, 5, planar));
    assert_eq!(plan.y, spec(TexFormat::R8Unorm, 8, 5));
    assert_eq!(plan.u, spec(TexFormat::R8Unorm, 4, 2));
    assert_eq!(plan.v, spec(TexFormat::R8Unorm, 4, 2));
    let semi = TexLayout { semi: true, bits16: true };
    let plan = YuvTextures::ensure(Some(t), 8, 5, semi).1.unwrap();
    assert_eq!(plan.y, spec(TexFormat::R16Unorm, 8, 5));
    assert_eq!(plan.u, spec(TexFormat::Rg16Unorm, 4, 2));
    assert_eq!(plan.v, spec(TexFormat::Rg16Unorm, 1, 1));
    let plan = YuvTextures::ensure(None, 1, 1, TexLayout { semi: true, bits16: false }).1.unwrap();
    assert_eq!(plan.u, spec(TexFormat::Rg8Unorm, 1, 1));
    let plan = YuvTextures::ensure(None, 0, 0, TexLayout { semi: false, bits16: true }).1.unwrap();
    assert_eq!(plan.y, spec(TexFormat::R16Unorm, 1, 1));
    assert_eq!(plan.v.format, TexFormat::R16Unorm);
}

#[test]
fn textures_last_while_pictures_are_alike() {
    let layout = TexLayout { semi: false, bits16: false };
    let t = YuvTextures::ensure(None, 8, 4, layout).0;
    assert!(YuvTextures::ensure(Some(t), 8, 4, layout).1.is_none());
    assert!(YuvTextures::ensure(Some(t), 9, 4, layout).1.is_some());
    assert!(YuvTextures::ensure(Some(t), 8, 5, layout).1.is_some());
    let other = TexLayout { semi: true, bits16: false };
    assert!(YuvTextures::ensure(Some(t), 8, 4, other).1.is_some());
}

#[test]
fn planes_go_to_their_textures_as_they_are() {
    for (format, semi, bits16) in [
        (PixelFormat::Yuv420p, false, false),
        (PixelFormat::Yuv420p10le, false, true),
        (PixelFormat::Nv12, true, false),
        (PixelFormat::P010Le, true, true),
    ] {
        let f = frame(format, 4, 4);
        let t = YuvTextures { width: 4, height: 4, layout: TexLayout { semi, bits16 } };
        let writes = t.upload(&f);
        assert_eq!(writes.len(), f.planes.len());
        let slots = [TextureSlot::Y, TextureSlot::U, TextureSlot::V];
        for (i, w) in writes.iter().enumerate() {
            assert_eq!(w.slot, slots[i]);
            assert!(matches!(w.source, PlaneBytes::Plane(k) if k == i));
            assert_eq!(w.bytes_per_row as usize, f.strides[i]);
            let side = if i == 0 { 4 } else { 2 };
            assert_eq!((w.width, w.height), (side, side));
        }
    }
}

#[test]
fn ten_bits_are_narrowed_where_the_gpu_has_eight() {
    let mut f = frame(PixelFormat::P010Le, 2, 2);
    f.planes[0] = vec![0x40, 0x11, 0x80, 0x22, 0xee, 0xee, 0xc0, 0x33, 0x00, 0x44];
    f.strides[0] = 6;
    f.planes[1] = vec![0x00, 0x55, 0x00, 0x66];
    f.strides[1] = 4;
    let t = YuvTextures { width: 2, height: 2, layout: TexLayout { semi: true, bits16: false } };
    let writes = t.upload(&f);
    assert_eq!(writes.len(), 2);
    assert_eq!(bytes(&writes[0], &f), vec![0x11, 0x22, 0x33, 0x44]);
    assert_eq!(writes[0].bytes_per_row, 2);
    assert_eq!(bytes(&writes[1], &f), vec![0x55, 0x66]);
    assert_eq!((writes[1].bytes_per_row, writes[1].width, writes[1].height), (2, 1, 1));
}

#[test]
fn missing_samples_narrow_to_zero() {
    let mut f = frame(PixelFormat::Yuv420p10le, 2, 2);
    f.planes[0] = vec![0x34, 0x12, 0x78];
    f.strides[0] = 4;
    let t = YuvTextures { width: 2, height: 2, layout: TexLayout { semi: false, bits16: false } };
    let writes = t.upload(&f);
    assert_eq!(writes.len(), 3);
    assert_eq!(bytes(&writes[0], &f), vec![0x12, 0, 0, 0]);
}

#[test]
fn other_layouts_are_not_uploaded() {
    for format in [PixelFormat::Rgba, PixelFormat::D3d11, PixelFormat::Yuv444p] {
        let mut f = frame(PixelFormat::Yuv420p, 2, 2);
        f.format = format;
        let layout = TexLayout { semi: false, bits16: false };
        assert!(YuvTextures { width: 2, height: 2, layout }.upload(&f).is_empty());
    }
}

#[test]
fn constants_are_written_when_they_change() {
    let (mut r, start) = VideoRenderer::new(true);
    assert_eq!(start.matrix, ColorUniforms::bt709(false).matrix);
    assert!(r.set_color_space(1, false).is_none());
    let u = r.set_color_space(2, true).unwrap();
    assert_eq!(u.matrix, ColorUniforms::bt2020(true).matrix);
    assert!(r.set_color_space(2, true).is_none());
    let up = r.upload_frame(&frame(PixelFormat::Nv12, 4, 4));
    let u = up.uniforms.unwrap();
    assert_eq!(u.matrix, ColorUniforms::bt2020(true).matrix);
    assert_eq!(value(u.offset[0]), 1.0);
    assert!(up.v_is_u);
    let u = r.set_color_space(0, true).unwrap();
    assert_eq!(u.matrix, ColorUniforms::bt601(true).matrix);
    assert_eq!(value(u.offset[0]), 1.0);
    let u = r.set_color_space(7, true).unwrap();
    assert_eq!(u.matrix, ColorUniforms::bt709(true).matrix);
}

#[test]
fn a_picture_is_taken_in() {
    let (mut r, _) = VideoRenderer::new(true);
    assert_eq!(r.frame_size(), None);
    assert!(!r.render() && !r.render_to_offscreen());
    let up = r.upload_frame(&frame(PixelFormat::Yuv420p10le, 4, 6));
    assert!(up.uniforms.is_none() && !up.v_is_u);
    assert_eq!(up.textures.unwrap().y.format, TexFormat::R16Unorm);
    assert_eq!(up.sample_scale, Some(Ratio { num: 65535, den: 1023 }));
    assert_eq!(up.planes.len(), 3);
    assert!(r.render() && r.render_to_offscreen());
    assert_eq!(r.frame_size(), Some((4, 6)));
    let up = r.upload_frame(&frame(PixelFormat::Yuv420p10le, 4, 6));
    assert!(up.textures.is_none() && up.sample_scale.is_none());
    let up = r.upload_frame(&frame(PixelFormat::P010Le, 2, 2));
    assert_eq!(up.sample_scale, Some(Ratio { num: 1, den: 1 }));
    assert_eq!(r.frame_size(), Some((2, 2)));
}

#[test]
fn without_sixteen_bits_pictures_are_still_shown() {
    let (mut r, _) = VideoRenderer::new(false);
    let up = r.upload_frame(&frame(PixelFormat::P010Le, 4, 4));
    assert_eq!(up.textures.unwrap().u.format, TexFormat::Rg8Unorm);
    assert!(up.planes.iter().all(|p| matches!(p.source, PlaneBytes::Narrowed(_))));
}

#[test]
fn the_transfer_function_decides_the_way_to_the_screen() {
    assert_eq!(callback(0).paint(), PaintSource::Renderer);
    assert_eq!(callback(1).paint(), PaintSource::ToneMapper);
    assert_eq!(callback(2).paint(), PaintSource::ToneMapper);
    let ten_bits = frame(PixelFormat::P010Le, 4, 4);
    let (mut r, _) = VideoRenderer::new(true);
    let mut off = HdrOffscreen::new();
    assert!(callback(0).prepare(&mut r, &mut off, Some(&ten_bits)).passes.is_none());
    assert_eq!(off.size, None);
}

#[test]
fn an_hdr_picture_is_converted_once() {
    let c = callback(1);
    let (mut r, _) = VideoRenderer::new(true);
    let mut off = HdrOffscreen::new();
    let p = c.prepare(&mut r, &mut off, None);
    assert!(p.uniforms.is_some() && p.upload.is_none() && p.passes.is_none());
    let f = frame(PixelFormat::P010Le, 4, 4);
    let pass = c.prepare(&mut r, &mut off, Some(&f)).passes.unwrap();
    assert_eq!((pass.texture, pass.convert), (Some((4, 4)), true));
    assert_eq!(pass.params.max_luminance, Ratio { num: 1000, den: 1 });
    assert_eq!((pass.params.exposure, pass.params.transfer), (Ratio { num: 1, den: 1 }, 1));
    for _ in 0..3 {
        let pass = c.prepare(&mut r, &mut off, None).passes.unwrap();
        assert_eq!((pass.texture, pass.convert), (None, false));
    }
    let pass = c.prepare(&mut r, &mut off, Some(&f)).passes.unwrap();
    assert_eq!((pass.texture, pass.convert), (None, true));
    let full = VideoPaintCallback { full_range: true, ..c };
    let pass = full.prepare(&mut r, &mut off, None).passes.unwrap();
    assert_eq!((pass.texture, pass.convert), (None, true));
}

#[test]
fn content_is_never_darker_than_a_nit() {
    let mut c = callback(2);
    c.max_luminance = Ratio { num: 1, den: 2 };
    let (mut r, _) = VideoRenderer::new(true);
    let mut off = HdrOffscreen::new();
    let f = frame(PixelFormat::P010Le, 2, 2);
    let pass = c.prepare(&mut r, &mut off, Some(&f)).passes.unwrap();
    assert_eq!(pass.params.max_luminance, Ratio { num: 1, den: 1 });
}

#[test]
fn the_texture_between_the_passes_follows_the_size() {
    let mut off = HdrOffscreen::new();
    assert_eq!(off.ensure(0, 7), Some((1, 7)));
    assert_eq!(off.ensure(0, 7), None);
    assert_eq!(off.ensure(8, 7), Some((8, 7)));
}

#[test]
fn a_capture_is_what_is_seen() {
    let c = callback(1);
    let (mut r, _) = VideoRenderer::new(true);
    let mut off = HdrOffscreen::new();
    let f = frame(PixelFormat::P010Le, 4, 4);
    let shown = c.prepare(&mut r, &mut off, Some(&f)).passes.unwrap();
    let plan = c.capture(&mut off, 4, 4);
    let captured = plan.passes.unwrap();
    assert_eq!((captured.texture, captured.convert), (None, true));
    assert_eq!(captured.params, shown.params);
    assert_eq!(plan.layout, CaptureLayout { unpadded: 16, padded: 256, size: 1024 });
    assert!(callback(0).capture(&mut off, 4, 4).passes.is_none());
}

#[test]
fn captures_lose_their_padding() {
    let layout = CaptureLayout::new(64, 2);
    assert_eq!((layout.unpadded, layout.padded, layout.size), (256, 256, 512));
    let layout = CaptureLayout::new(65, 3);
    assert_eq!((layout.unpadded, layout.padded, layout.size), (260, 512, 1536));
    let picture: Vec<u8> = (0..780u32).map(|i| (i % 251) as u8).collect();
    let mut data = Vec::new();
    for line in picture.chunks(260) {
        data.extend_from_slice(line);
        data.extend_from_slice(&[0xee; 252]);
    }
    assert_eq!(layout.pixels(&data, 3), picture);
    assert!(CaptureLayout::new(0, 3).pixels(&[], 3).is_empty());
}

#[test]
fn a_request_is_spent_once() {
    let mut s = SnapshotState::new();
    assert_eq!(s.begin(Some((2, 2))), None);
    s.requested = true;
    assert_eq!(s.begin(None), None);
    assert_eq!(s.begin(Some((2, 2))), None);
    s.requested = true;
    assert_eq!(s.begin(Some((2, 2))), Some((2, 2)));
    s.finish(2, 2, Some(vec![9]));
    assert_eq!(s.result, Some((2, 2, vec![9])));
    s.finish(3, 3, None);
    assert_eq!(s.result, Some((2, 2, vec![9])));
}

#[test]
fn pictures_without_their_planes_are_not_accepted() {
    let (r, _) = VideoRenderer::new(false);
    let mut f = frame(PixelFormat::P010Le, 4, 4);
    assert!(r.accepts(&f));
    f.strides[1] = usize::MAX;
    assert!(!VideoRenderer::new(false).0.accepts(&DecodedVideoFrame { height: 8, ..f }));
    let mut f = frame(PixelFormat::Yuv420p, 4, 4);
    assert!(r.accepts(&f));
    f.planes.pop();
    assert!(!r.accepts(&f));
    let mut f = frame(PixelFormat::Rgba, 4, 4);
    f.planes.clear();
    assert!(r.accepts(&f));
    assert!(CaptureLayout::fits(8192, 8192));
}

#[test]
fn black_and_white_fill_the_range() {
    for (full, black, white) in [(true, 0.0, 1.0), (false, 16.0 / 255.0, 235.0 / 255.0)] {
        let m = ColorUniforms::bt709(full);
        let luma = |y: f64| value(m.matrix[0][1]) * (y - value(m.offset[1]));
        assert!(close(luma(black), 0.0) && close(luma(white), 1.0));
    }
}

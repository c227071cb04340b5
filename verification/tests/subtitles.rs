use forgeplayer::subtitle::{
    collect_subtitle_bitmaps, collect_subtitle_text, strip_ass_overrides, strip_basic_tags,
    BitmapRect, SubtitleRect,
};

fn text(s: &str) -> SubtitleRect {
    SubtitleRect::Text(s.to_string())
}

fn ass(s: &str) -> SubtitleRect {
    SubtitleRect::Ass(s.to_string())
}

fn bitmap(width: u32, height: u32, stride: usize, indices: Vec<u8>) -> BitmapRect {
    BitmapRect {
        x: 12,
        y: 34,
        width,
        height,
        indices: Some(indices),
        palette: Some(vec![0x8011_2233, 0xff44_5566]),
        stride,
        colors: 2,
    }
}

#[test]
fn tags_are_taken_away() {
    assert_eq!(strip_basic_tags("<i>Hello</i> <b>you</b>"), "Hello you");
    assert_eq!(strip_basic_tags("plain, no tag"), "plain, no tag");
    assert_eq!(strip_basic_tags("open <i"), "open ");
    assert_eq!(strip_basic_tags("a > b"), "a  b");
    assert_eq!(strip_basic_tags("<<a>b>"), "b");
    assert_eq!(strip_basic_tags(&strip_basic_tags("<u>x</u><")), "x");
}

#[test]
fn overrides_are_taken_away() {
    assert_eq!(strip_ass_overrides("{\\an8}Up\\Ndown\\nthere"), "Up\ndown\nthere");
    assert_eq!(strip_ass_overrides("{a{b}c}d"), "d");
    assert_eq!(strip_ass_overrides("a}b"), "a}b");
    assert_eq!(strip_ass_overrides("a{b"), "a");
    assert_eq!(strip_ass_overrides("\\h"), "\\h");
    assert_eq!(strip_ass_overrides("\\{x}N"), "\n");
    assert_eq!(strip_ass_overrides("plain \\h text}"), "plain \\h text}");
    let once = strip_ass_overrides("\\\\N{\\b1}x\\{y}n");
    assert_eq!(once, "\\\nx\n");
    assert_eq!(strip_ass_overrides(&once), once);
}

#[test]
fn lines_are_trimmed_and_joined() {
    let rects = vec![text(" <i>One</i> "), text("<b> </b>"), SubtitleRect::Other, text("Two")];
    assert_eq!(collect_subtitle_text(&rects), "One\nTwo");
    assert_eq!(collect_subtitle_text(&vec![text(" \u{a0}\n")]), "");
    assert_eq!(collect_subtitle_text(&vec![]), "");
}

#[test]
fn events_give_their_text_field() {
    let full = "Dialogue: 0,0:00:01.00,0:00:02.00,Default,,0,0,0,,{\\i1}Hi{\\i0}\\Nall, of you";
    assert_eq!(collect_subtitle_text(&vec![ass(full)]), "Hi\nall, of you");
    let short = "0,0,Default,,0,0,0,,Hello";
    assert_eq!(collect_subtitle_text(&vec![ass(short)]), "Hello");
    let comma = "0,0,Default,,0,0,0,,Hello, world";
    assert_eq!(collect_subtitle_text(&vec![ass(comma)]), "Hello, world");
    let commas = "0,0,Default,,0,0,0,,one, two, three";
    assert_eq!(collect_subtitle_text(&vec![ass(commas)]), "one, two, three");
    let cut = "Dialogue: 0,0:00:01.00,0:00:02.00,Default,,0,0,0,last";
    assert_eq!(collect_subtitle_text(&vec![ass(cut)]), "last");
    assert_eq!(collect_subtitle_text(&vec![ass("0,Layer, text ")]), "text");
    assert_eq!(collect_subtitle_text(&vec![ass("no comma")]), "no comma");
    assert_eq!(collect_subtitle_text(&vec![ass("0,0,Default,,0,0,0,,{\\p1}")]), "");
}

#[test]
fn images_are_painted_with_their_palette() {
    let rects = vec![
        text("ignored"),
        SubtitleRect::Bitmap(bitmap(2, 2, 3, vec![0, 1, 99, 2, 0, 99])),
    ];
    let images = collect_subtitle_bitmaps(&rects);
    assert_eq!(images.len(), 1);
    let image = &images[0];
    assert_eq!((image.x, image.y, image.width, image.height), (12, 34, 2, 2));
    assert_eq!(
        image.rgba,
        vec![
            0x11, 0x22, 0x33, 0x80, 0x44, 0x55, 0x66, 0xff, // first line
            0, 0, 0, 0, 0x11, 0x22, 0x33, 0x80, // an index without a colour, then one with
        ]
    );
}

#[test]
fn rectangles_without_an_image_are_left_out() {
    let mut no_palette = bitmap(1, 1, 1, vec![0]);
    no_palette.palette = None;
    let mut no_pixels = bitmap(1, 1, 1, vec![0]);
    no_pixels.indices = None;
    let rects = vec![
        SubtitleRect::Bitmap(bitmap(0, 2, 1, vec![])),
        SubtitleRect::Bitmap(bitmap(2, 0, 1, vec![])),
        SubtitleRect::Bitmap(bitmap(1, 1, 0, vec![0])),
        SubtitleRect::Bitmap(no_palette),
        SubtitleRect::Bitmap(no_pixels),
    ];
    assert!(collect_subtitle_bitmaps(&rects).is_empty());
}

#[test]
fn short_images_are_noticed() {
    assert!(bitmap(2, 2, 3, vec![0; 5]).is_readable());
    assert!(!bitmap(2, 2, 3, vec![0; 4]).is_readable());
    let mut few_colors = bitmap(1, 1, 1, vec![0]);
    few_colors.colors = 3;
    assert!(!few_colors.is_readable());
    assert!(bitmap(0, 2, 3, vec![]).is_readable());
    let mut nothing = bitmap(9, 9, 9, vec![]);
    nothing.indices = None;
    assert!(nothing.is_readable());
}

//! Embedded subtitles: the text of text tracks, the pixels of image tracks.

use vstd::prelude::*;

use crate::text;
use crate::text::{
    chars_of, count, push_chars, replace_pairs, skip_fields, starts_with, string_of, trim,
};
use crate::timing::product;

verus! {

/// One rectangle of a decoded subtitle.
pub enum SubtitleRect {
    /// Plain text, possibly with simple tags such as `<i>`.
    Text(String),
    /// An ASS event line.
    Ass(String),
    /// A palette image (PGS, VOBSUB, DVB).
    Bitmap(BitmapRect),
    /// Anything else.
    Other,
}

/// A palette image as the decoder leaves it.
pub struct BitmapRect {
    pub x: u32,
    pub y: u32,
    pub width: u32,
    pub height: u32,
    /// One palette index per pixel, if the decoder produced pixels.
    pub indices: Option<Vec<u8>>,
    /// Colours as `0xAARRGGBB`, if the decoder produced a palette.
    pub palette: Option<Vec<u32>>,
    /// Bytes from the start of a line of `indices` to the start of the next.
    pub stride: usize,
    /// How many entries of the palette are in use.
    pub colors: usize,
}

/// A subtitle image ready to be drawn over the picture, four bytes (red,
/// green, blue, alpha) per pixel, lines packed.
pub struct SubtitleBitmap {
    pub x: u32,
    pub y: u32,
    pub width: u32,
    pub height: u32,
    pub rgba: Vec<u8>,
}

// ── Text ────────────────────────────────────────────────────────────────────
/// A tag is open at the end of `s`: a `<` that no `>` follows.
pub open spec fn tag_open(s: Seq<char>) -> bool {
    exists|i: int|
        0 <= i < s.len() && #[trigger] s[i] == '<' && (forall|j: int|
            i < j < s.len() ==> #[trigger] s[j] != '>')
}

/// `s` without its tags: the characters that stand outside every `<` … `>`.
pub open spec fn tags_removed(s: Seq<char>) -> Seq<char>
    decreases s.len(),
{
    if s.len() == 0 {
        s
    } else {
        let before = tags_removed(s.drop_last());
        if s.last() == '<' || s.last() == '>' || tag_open(s.drop_last()) {
            before
        } else {
            before.push(s.last())
        }
    }
}

proof fn lemma_tag_open_push(s: Seq<char>, c: char)
    ensures
        tag_open(s.push(c)) == (c == '<' || (c != '>' && tag_open(s))),
{
    let t = s.push(c);
    if c == '<' {
        assert(t[s.len() as int] == '<');
    } else if c == '>' {
        if tag_open(t) {
            let i = choose|i: int|
                0 <= i < t.len() && #[trigger] t[i] == '<' && (forall|j: int|
                    i < j < t.len() ==> #[trigger] t[j] != '>');
            assert(t[s.len() as int] == '>');
        }
    } else {
        if tag_open(t) {
            let i = choose|i: int|
                0 <= i < t.len() && #[trigger] t[i] == '<' && (forall|j: int|
                    i < j < t.len() ==> #[trigger] t[j] != '>');
            assert(s[i] == '<');
            assert forall|j: int| i < j < s.len() implies #[trigger] s[j] != '>' by {
                assert(t[j] == s[j]);
            }
        }
        if tag_open(s) {
            let i = choose|i: int|
                0 <= i < s.len() && #[trigger] s[i] == '<' && (forall|j: int|
                    i < j < s.len() ==> #[trigger] s[j] != '>');
            assert(t[i] == '<');
            assert forall|j: int| i < j < t.len() implies #[trigger] t[j] != '>' by {
                if j < s.len() {
                    assert(t[j] == s[j]);
                }
            }
        }
    }
}

/// The text of `s` without its tags.
pub fn strip_basic_tags(s: &str) -> (r: String)
    ensures
        r@ == tags_removed(s@),
{
    let chars = chars_of(s);
    let mut out: Vec<char> = Vec::new();
    let mut inside: bool = false;
    for i in 0..chars.len()
        invariant
            out@ == tags_removed(chars@.take(i as int)),
            inside == tag_open(chars@.take(i as int)),
    {
        let c = chars[i];
        proof {
            assert(chars@.take(i + 1) =~= chars@.take(i as int).push(c));
            assert(chars@.take(i + 1).drop_last() =~= chars@.take(i as int));
            lemma_tag_open_push(chars@.take(i as int), c);
        }
        if c == '<' {
            inside = true;
        } else if c == '>' {
            inside = false;
        } else if !inside {
            out.push(c);
        }
    }
    assert(chars@.take(chars@.len() as int) =~= chars@);
    string_of(&out)
}

/// How many `{` are still open at the end of `s`; a `}` without one closes
/// nothing.
pub open spec fn override_depth(s: Seq<char>) -> nat
    decreases s.len(),
{
    if s.len() == 0 {
        0
    } else {
        let depth = override_depth(s.drop_last());
        if s.last() == '{' {
            depth + 1
        } else if s.last() == '}' && depth > 0 {
            (depth - 1) as nat
        } else {
            depth
        }
    }
}

/// `s` without its `{` … `}` blocks, nested ones with their outer one.
pub open spec fn overrides_removed(s: Seq<char>) -> Seq<char>
    decreases s.len(),
{
    if s.len() == 0 {
        s
    } else {
        let before = overrides_removed(s.drop_last());
        if s.last() == '{' || override_depth(s.drop_last()) > 0 {
            before
        } else {
            before.push(s.last())
        }
    }
}

/// `s` without its override blocks, the line breaks `\N` and `\n` made real.
pub open spec fn ass_plain(s: Seq<char>) -> Seq<char> {
    text::pairs_replaced(text::pairs_replaced(overrides_removed(s), '\\', 'N', '\n'), '\\', 'n', '\n')
}

fn strip_overrides(chars: &[char]) -> (r: Vec<char>)
    ensures
        r@ == ass_plain(chars@),
{
    let mut out: Vec<char> = Vec::new();
    let mut depth: usize = 0;
    for i in 0..chars.len()
        invariant
            out@ == overrides_removed(chars@.take(i as int)),
            depth == override_depth(chars@.take(i as int)),
            depth <= i,
    {
        let c = chars[i];
        assert(chars@.take(i + 1).drop_last() =~= chars@.take(i as int));
        if c == '{' {
            depth += 1;
        } else if c == '}' && depth > 0 {
            depth -= 1;
        } else if depth == 0 {
            out.push(c);
        }
    }
    assert(chars@.take(chars@.len() as int) =~= chars@);
    let upper = replace_pairs(&out, '\\', 'N', '\n');
    replace_pairs(&upper, '\\', 'n', '\n')
}

/// The text of `s` without its override blocks, `\N` and `\n` as line breaks.
pub fn strip_ass_overrides(s: &str) -> (r: String)
    ensures
        r@ == ass_plain(s@),
{
    string_of(&strip_overrides(&chars_of(s)))
}

/// What an event line holds after its `Dialogue:` mark, if it has one.
pub open spec fn event_body(line: Seq<char>) -> Seq<char> {
    if text::has_prefix(line, "Dialogue:"@) {
        line.skip("Dialogue:"@.len() as int)
    } else {
        line
    }
}

/// The text field of an event body: nine fields stand before it in an event
/// with the `Dialogue:` mark, eight without. A body with fewer commas has its
/// text after the last of them.
pub open spec fn event_text(body: Seq<char>, marked: bool) -> Seq<char> {
    let commas = text::occurrences(body, ',');
    let fields: nat = if marked {
        9
    } else {
        8
    };
    text::after_nth(
        body,
        ',',
        if commas < fields {
            commas
        } else {
            fields
        },
    )
}

/// The text field of an event line, with the mark or without.
pub open spec fn event_field(line: Seq<char>) -> Seq<char> {
    event_text(event_body(line), text::has_prefix(line, "Dialogue:"@))
}

/// What one rectangle contributes to the text of a subtitle; nothing when it
/// has no visible character.
pub open spec fn rect_text(rect: SubtitleRect) -> Seq<char> {
    match rect {
        SubtitleRect::Text(raw) => text::trimmed(tags_removed(raw@)),
        SubtitleRect::Ass(line) => text::trimmed(ass_plain(text::trimmed(event_field(line@)))),
        _ => seq![],
    }
}

/// The texts of the rectangles that have one, in order.
pub open spec fn rect_texts(rects: Seq<SubtitleRect>) -> Seq<Seq<char>>
    decreases rects.len(),
{
    if rects.len() == 0 {
        seq![]
    } else {
        let before = rect_texts(rects.drop_last());
        let t = rect_text(rects.last());
        if t.len() == 0 {
            before
        } else {
            before.push(t)
        }
    }
}

fn text_of_rect(rect: &SubtitleRect) -> (r: Vec<char>)
    ensures
        r@ == rect_text(*rect),
{
    match rect {
        SubtitleRect::Text(raw) => trim(&chars_of(&strip_basic_tags(raw))),
        SubtitleRect::Ass(line) => {
            let chars = chars_of(line);
            let mark = chars_of("Dialogue:");
            let marked = starts_with(&chars, &mark);
            let body = if marked {
                let tail = vstd::slice::slice_subrange(&chars, mark.len(), chars.len());
                let mut v: Vec<char> = Vec::new();
                push_chars(&mut v, tail);
                assert(v@ =~= chars@.skip(mark@.len() as int));
                v
            } else {
                chars
            };
            assert(body@ == event_body(line@));
            let commas: usize = count(&body, ',');
            let fields: usize = if marked {
                9
            } else {
                8
            };
            let text = skip_fields(
                &body,
                ',',
                if commas < fields {
                    commas
                } else {
                    fields
                },
            );
            trim(&strip_overrides(&trim(&text)))
        },
        _ => Vec::new(),
    }
}

/// The text of a subtitle: that of each rectangle, one per line. Image
/// rectangles and rectangles without a visible character give none.
pub fn collect_subtitle_text(rects: &Vec<SubtitleRect>) -> (r: String)
    ensures
        r@ == text::joined(rect_texts(rects@), '\n'),
{
    let mut out: Vec<char> = Vec::new();
    let mut any: bool = false;
    for i in 0..rects.len()
        invariant
            out@ == text::joined(rect_texts(rects@.take(i as int)), '\n'),
            any == (rect_texts(rects@.take(i as int)).len() > 0),
    {
        let ghost done = rect_texts(rects@.take(i as int));
        assert(rects@.take(i + 1).drop_last() =~= rects@.take(i as int));
        let part = text_of_rect(&rects[i]);
        if part.len() > 0 {
            assert(done.push(part@).drop_last() =~= done);
            if any {
                out.push('\n');
            }
            push_chars(&mut out, &part);
            any = true;
            assert(out@ =~= text::joined(done.push(part@), '\n'));
        }
    }
    assert(rects@.take(rects@.len() as int) =~= rects@);
    string_of(&out)
}

/// No `a` in `s` is followed by `b`.
pub open spec fn no_pair(s: Seq<char>, a: char, b: char) -> bool {
    forall|i: int| 0 <= i < s.len() - 1 ==> !(#[trigger] s[i] == a && s[i + 1] == b)
}

proof fn lemma_replaced_first(s: Seq<char>, a: char, b: char, by: char)
    ensures
        s.len() > 0 ==> text::pairs_replaced(s, a, b, by).len() > 0,
        s.len() > 0 ==> (text::pairs_replaced(s, a, b, by)[0] == s[0] || text::pairs_replaced(
            s,
            a,
            b,
            by,
        )[0] == by),
        s.len() == 0 ==> text::pairs_replaced(s, a, b, by).len() == 0,
{
}

proof fn lemma_no_pair_after_replace(s: Seq<char>, a: char, b: char, by: char, c: char)
    requires
        by != c,
        by != a,
        c == b || no_pair(s, a, c),
    ensures
        no_pair(text::pairs_replaced(s, a, b, by), a, c),
    decreases s.len(),
{
    let r = text::pairs_replaced(s, a, b, by);
    if s.len() >= 2 {
        let replaced = s[0] == a && s[1] == b;
        let k: int = if replaced {
            2
        } else {
            1
        };
        let tail = s.skip(k);
        let rest = text::pairs_replaced(tail, a, b, by);
        assert(c == b || no_pair(tail, a, c)) by {
            if c != b {
                assert forall|i: int| 0 <= i < tail.len() - 1 implies !(#[trigger] tail[i] == a
                    && tail[i + 1] == c) by {
                    assert(tail[i] == s[i + k]);
                    assert(tail[i + 1] == s[i + k + 1]);
                }
            }
        }
        lemma_no_pair_after_replace(tail, a, b, by, c);
        lemma_replaced_first(tail, a, b, by);
        assert forall|i: int| 0 <= i < r.len() - 1 implies !(#[trigger] r[i] == a && r[i + 1]
            == c) by {
            if i == 0 {
                assert(r[1] == rest[0]);
                if !replaced {
                    assert(r[0] == s[0]);
                    assert(tail[0] == s[1]);
                    assert(c == b || !(s[0] == a && s[1] == c));
                }
            } else {
                assert(r[i] == rest[i - 1]);
                assert(r[i + 1] == rest[i]);
            }
        }
    }
}

/// Text without its tags holds no angle bracket, and taking the tags away a
/// second time changes nothing.
pub proof fn law_tags_are_gone(s: Seq<char>)
    ensures
        forall|i: int|
            0 <= i < tags_removed(s).len() ==> #[trigger] tags_removed(s)[i] != '<'
                && tags_removed(s)[i] != '>',
        tags_removed(tags_removed(s)) == tags_removed(s),
{
    lemma_tags_are_gone(s);
    law_untagged_text_is_kept(tags_removed(s));
}

proof fn lemma_tags_are_gone(s: Seq<char>)
    ensures
        forall|i: int|
            0 <= i < tags_removed(s).len() ==> #[trigger] tags_removed(s)[i] != '<'
                && tags_removed(s)[i] != '>',
    decreases s.len(),
{
    if s.len() > 0 {
        lemma_tags_are_gone(s.drop_last());
        let before = tags_removed(s.drop_last());
        assert forall|i: int| 0 <= i < tags_removed(s).len() implies #[trigger] tags_removed(s)[i]
            != '<' && tags_removed(s)[i] != '>' by {
            if i < before.len() {
                assert(tags_removed(s)[i] == before[i]);
            }
        }
    }
}

/// Text without angle brackets is left as it is.
pub proof fn law_untagged_text_is_kept(s: Seq<char>)
    requires
        forall|i: int| 0 <= i < s.len() ==> #[trigger] s[i] != '<' && s[i] != '>',
    ensures
        tags_removed(s) == s,
    decreases s.len(),
{
    if s.len() > 0 {
        let init = s.drop_last();
        assert forall|i: int| 0 <= i < init.len() implies #[trigger] init[i] != '<' && init[i]
            != '>' by {
            assert(init[i] == s[i]);
        }
        law_untagged_text_is_kept(init);
        assert(s.last() == s[s.len() - 1]);
        assert(init.push(s.last()) =~= s);
    }
}

/// Text without its override blocks holds no opening brace, and neither `\N`
/// nor `\n`; taking the blocks away a second time changes nothing.
pub proof fn law_overrides_are_gone(s: Seq<char>)
    ensures
        forall|i: int| 0 <= i < ass_plain(s).len() ==> #[trigger] ass_plain(s)[i] != '{',
        no_pair(ass_plain(s), '\\', 'N'),
        no_pair(ass_plain(s), '\\', 'n'),
        ass_plain(ass_plain(s)) == ass_plain(s),
{
    let bare = overrides_removed(s);
    let upper = text::pairs_replaced(bare, '\\', 'N', '\n');
    lemma_no_open_brace(s);
    lemma_replace_keeps_out(bare, '\\', 'N', '\n', '{');
    lemma_replace_keeps_out(upper, '\\', 'n', '\n', '{');
    lemma_no_pair_after_replace(bare, '\\', 'N', '\n', 'N');
    lemma_no_pair_after_replace(upper, '\\', 'n', '\n', 'N');
    lemma_no_pair_after_replace(upper, '\\', 'n', '\n', 'n');
    law_unmarked_text_is_kept(ass_plain(s));
}

/// Text without an opening brace, `\N` or `\n` is left as it is.
pub proof fn law_unmarked_text_is_kept(s: Seq<char>)
    requires
        forall|i: int| 0 <= i < s.len() ==> #[trigger] s[i] != '{',
        no_pair(s, '\\', 'N'),
        no_pair(s, '\\', 'n'),
    ensures
        ass_plain(s) == s,
{
    lemma_no_override(s);
    lemma_nothing_replaced(s, '\\', 'N', '\n');
    lemma_nothing_replaced(s, '\\', 'n', '\n');
}

proof fn lemma_no_override(s: Seq<char>)
    requires
        forall|i: int| 0 <= i < s.len() ==> #[trigger] s[i] != '{',
    ensures
        override_depth(s) == 0,
        overrides_removed(s) == s,
    decreases s.len(),
{
    if s.len() > 0 {
        let init = s.drop_last();
        assert forall|i: int| 0 <= i < init.len() implies #[trigger] init[i] != '{' by {
            assert(init[i] == s[i]);
        }
        lemma_no_override(init);
        assert(s.last() == s[s.len() - 1]);
        assert(init.push(s.last()) =~= s);
    }
}

proof fn lemma_nothing_replaced(s: Seq<char>, a: char, b: char, by: char)
    requires
        no_pair(s, a, b),
    ensures
        text::pairs_replaced(s, a, b, by) == s,
    decreases s.len(),
{
    if s.len() >= 2 {
        let tail = s.skip(1);
        assert forall|i: int| 0 <= i < tail.len() - 1 implies !(#[trigger] tail[i] == a && tail[i
            + 1] == b) by {
            assert(tail[i] == s[i + 1]);
            assert(tail[i + 1] == s[i + 2]);
        }
        lemma_nothing_replaced(tail, a, b, by);
        assert(!(s[0] == a && s[1] == b));
        assert(seq![s[0]] + tail =~= s);
    }
}

/// Whatever follows the fields of an event is its text, commas and all: nine
/// fields with the mark, eight without, each closed by its comma.
pub proof fn law_event_text_is_whole(fields: Seq<char>, text: Seq<char>, marked: bool)
    requires
        fields.len() > 0,
        fields.last() == ',',
        text::occurrences(fields, ',') == if marked {
            9nat
        } else {
            8nat
        },
    ensures
        event_text(fields + text, marked) == text,
{
    lemma_commas_add_up(fields, text);
    lemma_text_follows_fields(fields, text, text::occurrences(fields, ','));
}

proof fn lemma_commas_add_up(a: Seq<char>, b: Seq<char>)
    ensures
        text::occurrences(a + b, ',') == text::occurrences(a, ',') + text::occurrences(b, ','),
    decreases b.len(),
{
    if b.len() == 0 {
        assert(a + b =~= a);
    } else {
        assert((a + b).drop_last() =~= a + b.drop_last());
        lemma_commas_add_up(a, b.drop_last());
    }
}

proof fn lemma_text_follows_fields(fields: Seq<char>, text: Seq<char>, n: nat)
    requires
        text::occurrences(fields, ',') == n,
        fields.len() > 0 ==> fields.last() == ',',
    ensures
        text::after_nth(fields + text, ',', n) == text,
    decreases fields.len(),
{
    if fields.len() == 0 {
        assert(fields + text =~= text);
    } else {
        let rest = fields.drop_first();
        let first = fields.take(1);
        assert(first + rest =~= fields);
        lemma_commas_add_up(first, rest);
        assert(first.drop_last() =~= Seq::<char>::empty());
        assert(text::occurrences(first.drop_last(), ',') == 0);
        assert((fields + text).drop_first() =~= rest + text);
        if rest.len() > 0 {
            assert(text::occurrences(fields, ',') > 0);
            lemma_text_follows_fields(rest, text, text::occurrences(rest, ','));
        } else {
            assert(rest + text =~= text);
            assert(text::occurrences(rest, ',') == 0);
            assert(text::after_nth(text, ',', 0) == text);
        }
    }
}

proof fn lemma_no_open_brace(s: Seq<char>)
    ensures
        forall|i: int| 0 <= i < overrides_removed(s).len() ==> #[trigger] overrides_removed(s)[i]
            != '{',
    decreases s.len(),
{
    if s.len() > 0 {
        lemma_no_open_brace(s.drop_last());
        let before = overrides_removed(s.drop_last());
        assert forall|i: int| 0 <= i < overrides_removed(s).len() implies #[trigger]
            overrides_removed(s)[i] != '{' by {
            if i < before.len() {
                assert(overrides_removed(s)[i] == before[i]);
            }
        }
    }
}

proof fn lemma_replace_keeps_out(s: Seq<char>, a: char, b: char, by: char, c: char)
    requires
        by != c,
        forall|i: int| 0 <= i < s.len() ==> #[trigger] s[i] != c,
    ensures
        forall|i: int|
            0 <= i < text::pairs_replaced(s, a, b, by).len() ==> #[trigger] text::pairs_replaced(
                s,
                a,
                b,
                by,
            )[i] != c,
    decreases s.len(),
{
    if s.len() >= 2 {
        let k: int = if s[0] == a && s[1] == b {
            2
        } else {
            1
        };
        let tail = s.skip(k);
        assert forall|i: int| 0 <= i < tail.len() implies #[trigger] tail[i] != c by {
            assert(tail[i] == s[i + k]);
        }
        lemma_replace_keeps_out(tail, a, b, by, c);
        let r = text::pairs_replaced(s, a, b, by);
        let rest = text::pairs_replaced(tail, a, b, by);
        assert forall|i: int| 0 <= i < r.len() implies #[trigger] r[i] != c by {
            if i > 0 {
                assert(r[i] == rest[i - 1]);
            }
        }
    }
}

/// Every text of a subtitle has a visible character at its start and at its
/// end: a rectangle of white space gives no line.
pub proof fn law_lines_are_visible(rects: Seq<SubtitleRect>, k: int)
    requires
        0 <= k < rect_texts(rects).len(),
    ensures
        rect_texts(rects)[k].len() > 0,
        !text::is_white(rect_texts(rects)[k][0]),
        !text::is_white(rect_texts(rects)[k].last()),
    decreases rects.len(),
{
    if rects.len() > 0 {
        let before = rect_texts(rects.drop_last());
        if k < before.len() {
            law_lines_are_visible(rects.drop_last(), k);
        } else {
            match rects.last() {
                SubtitleRect::Text(raw) => text::lemma_trimmed_is_visible(tags_removed(raw@)),
                SubtitleRect::Ass(line) => text::lemma_trimmed_is_visible(
                    ass_plain(text::trimmed(event_field(line@))),
                ),
                _ => {},
            }
        }
    }
}

// ── Images ──────────────────────────────────────────────────────────────────
impl BitmapRect {
    /// The rectangle holds an image.
    pub open spec fn has_image(self) -> bool {
        self.width > 0 && self.height > 0 && self.indices is Some && self.palette is Some
            && self.stride > 0
    }

    /// What the rectangle announces is there: every line of indices, every
    /// colour in use, and the image they make fits in memory.
    pub open spec fn readable(self) -> bool {
        self.has_image() ==> {
            &&& (self.height - 1) * self.stride + self.width <= self.indices->0@.len()
            &&& self.palette->0@.len() >= self.used_colors()
            &&& 4 * (self.width * self.height) <= usize::MAX
        }
    }

    /// Palettes have at most 256 entries.
    pub open spec fn used_colors(self) -> int {
        if self.colors < 256 {
            self.colors as int
        } else {
            256
        }
    }

    /// The colour of pixel `p`, counted line by line, as red, green, blue,
    /// alpha. An index past the colours in use is transparent black.
    pub open spec fn color_at(self, p: int) -> Seq<u8> {
        let row = p / self.width as int;
        let col = p % self.width as int;
        let index = self.indices->0@[row * self.stride + col];
        if index < self.used_colors() {
            let v = self.palette->0@[index as int];
            seq![
                (v / 0x1_0000 % 0x100) as u8,
                (v / 0x100 % 0x100) as u8,
                (v % 0x100) as u8,
                (v / 0x100_0000) as u8,
            ]
        } else {
            seq![0u8, 0u8, 0u8, 0u8]
        }
    }

    /// The pixels of the image.
    pub open spec fn rgba(self) -> Seq<u8> {
        Seq::new(
            (4 * (self.width * self.height)) as nat,
            |i: int| self.color_at(i / 4)[i % 4],
        )
    }
}

impl BitmapRect {
    /// Whether what the rectangle announces is there.
    pub fn is_readable(&self) -> (r: bool)
        ensures
            r == self.readable(),
    {
        if self.width == 0 || self.height == 0 || self.stride == 0 {
            return true;
        }
        match (&self.indices, &self.palette) {
            (Some(indices), Some(palette)) => {
                let used: usize = if self.colors < 256 {
                    self.colors
                } else {
                    256
                };
                let lines: u128 = product((self.height - 1) as usize, self.stride);
                let pixels: u128 = product(self.width as usize, self.height as usize);
                lines + self.width as u128 <= indices.len() as u128 && palette.len() >= used
                    && pixels <= (usize::MAX / 4) as u128
            },
            _ => true,
        }
    }
}

/// `bitmap` is the image of `rect`, at the same place.
pub open spec fn is_image_of(bitmap: SubtitleBitmap, rect: BitmapRect) -> bool {
    &&& bitmap.x == rect.x
    &&& bitmap.y == rect.y
    &&& bitmap.width == rect.width
    &&& bitmap.height == rect.height
    &&& bitmap.rgba@ == rect.rgba()
}

/// The rectangles that hold an image, in order.
pub open spec fn images(rects: Seq<SubtitleRect>) -> Seq<BitmapRect>
    decreases rects.len(),
{
    if rects.len() == 0 {
        seq![]
    } else {
        let before = images(rects.drop_last());
        match rects.last() {
            SubtitleRect::Bitmap(b) => if b.has_image() {
                before.push(b)
            } else {
                before
            },
            _ => before,
        }
    }
}

fn paint(rect: &BitmapRect) -> (r: SubtitleBitmap)
    requires
        rect.has_image(),
        rect.readable(),
    ensures
        is_image_of(r, *rect),
{
    let w: usize = rect.width as usize;
    let h: usize = rect.height as usize;
    let stride: usize = rect.stride;
    let indices = rect.indices.as_ref().unwrap();
    let palette = rect.palette.as_ref().unwrap();
    let used: usize = if rect.colors < 256 {
        rect.colors
    } else {
        256
    };
    assert(w * h >= 0) by (nonlinear_arith)
        requires
            w >= 0,
            h >= 0,
    ;
    let n: usize = w * h;
    let len: usize = indices.len();
    let mut rgba: Vec<u8> = Vec::new();
    for p in 0..n
        invariant
            n == w * h,
            w > 0,
            w == rect.width,
            h == rect.height,
            stride == rect.stride,
            rect.indices is Some,
            rect.palette is Some,
            *indices == rect.indices->0,
            *palette == rect.palette->0,
            used == rect.used_colors(),
            (h - 1) * stride + w <= len,
            len == indices@.len(),
            palette@.len() >= used,
            rgba@.len() == 4 * p,
            forall|i: int| 0 <= i < 4 * p ==> #[trigger] rgba@[i] == rect.color_at(i / 4)[i % 4],
    {
        let row: usize = p / w;
        let col: usize = p % w;
        assert(row <= h - 1 && row * stride <= (h - 1) * stride && row >= 0 && row * stride >= 0)
            by (nonlinear_arith)
            requires
                p < w * h,
                w > 0,
                row == p / w,
                stride >= 0,
        ;
        let index = indices[row * stride + col];
        let ghost before = rgba@;
        if (index as usize) < used {
            let v = palette[index as usize];
            rgba.push((v / 0x1_0000 % 0x100) as u8);
            rgba.push((v / 0x100 % 0x100) as u8);
            rgba.push((v % 0x100) as u8);
            rgba.push((v / 0x100_0000) as u8);
        } else {
            rgba.push(0);
            rgba.push(0);
            rgba.push(0);
            rgba.push(0);
        }
        assert forall|i: int| 0 <= i < 4 * (p + 1) implies #[trigger] rgba@[i] == rect.color_at(
            i / 4,
        )[i % 4] by {
            if i < 4 * p {
                assert(rgba@[i] == before[i]);
            } else {
                assert(i / 4 == p);
            }
        }
    }
    assert(rgba@ =~= rect.rgba());
    SubtitleBitmap { x: rect.x, y: rect.y, width: rect.width, height: rect.height, rgba }
}

/// The images of a subtitle, in order.
pub fn collect_subtitle_bitmaps(rects: &Vec<SubtitleRect>) -> (r: Vec<SubtitleBitmap>)
    requires
        forall|i: int|
            0 <= i < rects@.len() ==> (#[trigger] rects@[i] matches SubtitleRect::Bitmap(b)
                ==> b.readable()),
    ensures
        r@.len() == images(rects@).len(),
        forall|k: int|
            0 <= k < r@.len() ==> is_image_of(#[trigger] r@[k], images(rects@)[k]),
{
    let mut out: Vec<SubtitleBitmap> = Vec::new();
    for i in 0..rects.len()
        invariant
            forall|i: int|
                0 <= i < rects@.len() ==> (#[trigger] rects@[i] matches SubtitleRect::Bitmap(b)
                    ==> b.readable()),
            out@.len() == images(rects@.take(i as int)).len(),
            forall|k: int|
                0 <= k < out@.len() ==> is_image_of(
                    #[trigger] out@[k],
                    images(rects@.take(i as int))[k],
                ),
    {
        assert(rects@.take(i + 1).drop_last() =~= rects@.take(i as int));
        match &rects[i] {
            SubtitleRect::Bitmap(b) => {
                if b.width > 0 && b.height > 0 && b.indices.is_some() && b.palette.is_some()
                    && b.stride > 0 {
                    out.push(paint(b));
                }
            },
            _ => {},
        }
    }
    assert(rects@.take(rects@.len() as int) =~= rects@);
    out
}

// ── Laws of whole subtitles ─────────────────────────────────────────────────
/// What stands before a tag, or after one, does not depend on it: once every `<`
/// of `x` is followed by a `>`, the text of `x` and that of `y` stand side by
/// side.
pub proof fn law_closed_tags_part_the_text(x: Seq<char>, y: Seq<char>)
    requires
        forall|i: int|
            0 <= i < x.len() && #[trigger] x[i] == '<' ==> exists|j: int|
                i < j < x.len() && #[trigger] x[j] == '>',
    ensures
        tags_removed(x + y) == tags_removed(x) + tags_removed(y),
    decreases y.len(),
{
    assert(!tag_open(x)) by {
        if tag_open(x) {
            let i = choose|i: int|
                0 <= i < x.len() && #[trigger] x[i] == '<' && (forall|j: int|
                    i < j < x.len() ==> #[trigger] x[j] != '>');
            assert(x[i] == '<');
        }
    }
    if y.len() == 0 {
        assert(x + y =~= x);
        assert(tags_removed(x) + tags_removed(y) =~= tags_removed(x));
    } else {
        let init = y.drop_last();
        law_closed_tags_part_the_text(x, init);
        assert((x + y).drop_last() =~= x + init);
        lemma_open_in_the_rest(x, init);
        assert((tags_removed(x) + tags_removed(init)).push(y.last()) =~= tags_removed(x)
            + tags_removed(init).push(y.last()));
    }
}

proof fn lemma_open_in_the_rest(x: Seq<char>, y: Seq<char>)
    requires
        !tag_open(x),
    ensures
        tag_open(x + y) == tag_open(y),
    decreases y.len(),
{
    if y.len() == 0 {
        assert(x + y =~= x);
        assert(!tag_open(y));
    } else {
        let init = y.drop_last();
        lemma_open_in_the_rest(x, init);
        assert((x + init).push(y.last()) =~= x + y);
        assert(init.push(y.last()) =~= y);
        lemma_tag_open_push(x + init, y.last());
        lemma_tag_open_push(init, y.last());
    }
}

/// A tag shows nothing, whatever it holds, and neither does one that is never
/// closed, with all that follows it.
pub proof fn law_tags_show_nothing(t: Seq<char>)
    requires
        forall|i: int| 0 <= i < t.len() ==> #[trigger] t[i] != '>',
    ensures
        tags_removed(seq!['<'] + t).len() == 0,
        tags_removed(seq!['<'] + t + seq!['>']).len() == 0,
    decreases t.len(),
{
    let s = seq!['<'] + t;
    if t.len() == 0 {
        assert(s =~= seq!['<']);
        assert(s.drop_last() =~= Seq::<char>::empty());
        assert(tags_removed(s.drop_last()).len() == 0);
        assert(s.last() == '<');
    } else {
        let init = t.drop_last();
        assert forall|i: int| 0 <= i < init.len() implies #[trigger] init[i] != '>' by {
            assert(init[i] == t[i]);
        }
        law_tags_show_nothing(init);
        let before = seq!['<'] + init;
        assert(s.drop_last() =~= before);
        assert(before[0] == '<');
        assert forall|j: int| 0 < j < before.len() implies #[trigger] before[j] != '>' by {
            assert(before[j] == init[j - 1]);
        }
        assert(tag_open(before));
    }
    let closed = s + seq!['>'];
    assert(closed.drop_last() =~= s);
}

/// Text before the first brace is kept, braces that close nothing included, and
/// what follows is read on its own.
pub proof fn law_text_before_a_block_is_kept(x: Seq<char>, y: Seq<char>)
    requires
        forall|i: int| 0 <= i < x.len() ==> #[trigger] x[i] != '{',
    ensures
        overrides_removed(x + y) == x + overrides_removed(y),
        override_depth(x + y) == override_depth(y),
    decreases y.len(),
{
    lemma_no_override(x);
    if y.len() == 0 {
        assert(x + y =~= x);
        assert(x + overrides_removed(y) =~= x);
    } else {
        let init = y.drop_last();
        law_text_before_a_block_is_kept(x, init);
        assert((x + y).drop_last() =~= x + init);
        assert((x + overrides_removed(init)).push(y.last()) =~= x + overrides_removed(init).push(
            y.last(),
        ));
    }
}

/// A block shows nothing, and what follows it is read as if it were not there. A
/// block inside a block goes with it, and a block that is never closed hides the
/// rest.
pub proof fn law_blocks_show_nothing(o: Seq<char>, inner: Seq<char>, p: Seq<char>, y: Seq<char>)
    requires
        forall|i: int| 0 <= i < o.len() ==> #[trigger] o[i] != '{' && o[i] != '}',
        forall|i: int| 0 <= i < inner.len() ==> #[trigger] inner[i] != '{' && inner[i] != '}',
        forall|i: int| 0 <= i < p.len() ==> #[trigger] p[i] != '{' && p[i] != '}',
    ensures
        overrides_removed(seq!['{'] + o + seq!['}'] + y) == overrides_removed(y),
        overrides_removed(
            seq!['{'] + o + (seq!['{'] + inner + seq!['}']) + p + seq!['}'] + y,
        ) == overrides_removed(y),
        overrides_removed(seq!['{'] + o).len() == 0,
{
    let none = Seq::<char>::empty();
    let open = seq!['{'];
    assert(open.drop_last() =~= none);
    assert(override_depth(none) == 0 && overrides_removed(none) == none);
    assert(override_depth(open.drop_last()) == 0 && overrides_removed(open.drop_last()) == none);
    assert(override_depth(open) == 1 && overrides_removed(open) == none);
    lemma_inside(open, o, none);
    let one = open + o;
    lemma_push(one, '}');
    assert(one.push('}') =~= one + seq!['}']);
    let block = one + seq!['}'];
    lemma_after(block, y);
    lemma_push(one, '{');
    let two = one.push('{');
    lemma_inside(two, inner, none);
    lemma_push(two + inner, '}');
    let back = (two + inner).push('}');
    lemma_inside(back, p, none);
    lemma_push(back + p, '}');
    let nested = (back + p).push('}');
    assert(nested =~= open + o + (seq!['{'] + inner + seq!['}']) + p + seq!['}']);
    lemma_after(nested, y);
}

proof fn lemma_push(s: Seq<char>, c: char)
    ensures
        override_depth(s.push(c)) == (if c == '{' {
            override_depth(s) as int + 1
        } else if c == '}' && override_depth(s) > 0 {
            override_depth(s) - 1
        } else {
            override_depth(s) as int
        }),
        override_depth(s) > 0 || c == '{' ==> overrides_removed(s.push(c)) == overrides_removed(s),
{
    assert(s.push(c).drop_last() =~= s);
}

proof fn lemma_inside(s: Seq<char>, o: Seq<char>, shown: Seq<char>)
    requires
        override_depth(s) > 0,
        overrides_removed(s) == shown,
        forall|i: int| 0 <= i < o.len() ==> #[trigger] o[i] != '{' && o[i] != '}',
    ensures
        override_depth(s + o) == override_depth(s),
        overrides_removed(s + o) == shown,
    decreases o.len(),
{
    if o.len() == 0 {
        assert(s + o =~= s);
    } else {
        let init = o.drop_last();
        assert forall|i: int| 0 <= i < init.len() implies #[trigger] init[i] != '{' && init[i]
            != '}' by {
            assert(init[i] == o[i]);
        }
        lemma_inside(s, init, shown);
        assert(o[o.len() - 1] != '{' && o[o.len() - 1] != '}');
        lemma_push(s + init, o.last());
        assert((s + init).push(o.last()) =~= s + o);
    }
}

proof fn lemma_after(block: Seq<char>, y: Seq<char>)
    requires
        override_depth(block) == 0,
        overrides_removed(block) == Seq::<char>::empty(),
    ensures
        overrides_removed(block + y) == overrides_removed(y),
        override_depth(block + y) == override_depth(y),
    decreases y.len(),
{
    if y.len() == 0 {
        assert(block + y =~= block);
    } else {
        lemma_after(block, y.drop_last());
        assert((block + y).drop_last() =~= block + y.drop_last());
    }
}

/// A line break of either kind becomes a real one where it stands; plain text
/// before it is kept, and what follows is read on its own.
pub proof fn law_line_breaks_are_made_real(x: Seq<char>, kind: char, y: Seq<char>)
    requires
        forall|i: int| 0 <= i < x.len() ==> #[trigger] x[i] != '{' && x[i] != '\\',
        kind == 'N' || kind == 'n',
    ensures
        ass_plain(x + seq!['\\', kind] + y) == x + seq!['\n'] + ass_plain(y),
{
    let head = x + seq!['\\', kind];
    assert forall|i: int| 0 <= i < head.len() implies #[trigger] head[i] != '{' by {
        if i < x.len() {
            assert(head[i] == x[i]);
        }
    }
    law_text_before_a_block_is_kept(head, y);
    let rest = overrides_removed(y);
    let upper = text::pairs_replaced(rest, '\\', 'N', '\n');
    let broken = x + seq!['\n'];
    assert forall|i: int| 0 <= i < broken.len() implies #[trigger] broken[i] != '\\' by {
        if i < x.len() {
            assert(broken[i] == x[i]);
        }
    }
    if kind == 'N' {
        text::law_pairs_are_replaced_in_place(x, rest, '\\', 'N', '\n');
        text::law_text_before_a_pair_is_kept(broken, upper, '\\', 'n', '\n');
    } else {
        let tail = seq!['n'] + rest;
        assert(x + seq!['\\', 'n'] + rest =~= x + seq!['\\'] + tail);
        text::law_pairs_are_replaced_in_place(x, tail, '\\', 'N', '\n');
        text::law_text_before_a_pair_is_kept(seq!['n'], rest, '\\', 'N', '\n');
        assert(x + seq!['\\'] + (seq!['n'] + upper) =~= x + seq!['\\', 'n'] + upper);
        text::law_pairs_are_replaced_in_place(x, upper, '\\', 'n', '\n');
    }
}

/// An event gives the text after its fields: nine of them behind the mark,
/// eight without it, each closed by its comma.
pub proof fn law_events_give_their_text(fields: Seq<char>, text: Seq<char>)
    requires
        fields.len() > 0,
        fields.last() == ',',
    ensures
        text::occurrences(fields, ',') == 9 ==> event_field("Dialogue:"@ + fields + text) == text,
        text::occurrences(fields, ',') == 8 && !text::has_prefix(fields + text, "Dialogue:"@)
            ==> event_field(fields + text) == text,
{
    let mark = "Dialogue:"@;
    let line = mark + fields + text;
    assert(line =~= mark + (fields + text));
    text::law_prefixes(line, mark, fields + text);
    assert(line.skip(mark.len() as int) =~= fields + text);
    if text::occurrences(fields, ',') == 9 {
        law_event_text_is_whole(fields, text, true);
    }
    if text::occurrences(fields, ',') == 8 {
        law_event_text_is_whole(fields, text, false);
    }
}

/// An event with fewer fields gives what follows its last comma, and one without
/// a comma is all text.
pub proof fn law_short_events_give_their_last_field(
    fields: Seq<char>,
    text: Seq<char>,
    marked: bool,
)
    requires
        fields.len() > 0 ==> fields.last() == ',',
        text::occurrences(fields, ',') <= if marked {
            9nat
        } else {
            8nat
        },
        text::occurrences(text, ',') == 0,
    ensures
        event_text(fields + text, marked) == text,
{
    lemma_commas_add_up(fields, text);
    lemma_text_follows_fields(fields, text, text::occurrences(fields, ','));
}

/// The texts of a subtitle are those of its rectangles, in order: two halves
/// give theirs one after the other, and a rectangle gives one line or none.
pub proof fn law_texts_come_in_order(a: Seq<SubtitleRect>, b: Seq<SubtitleRect>, rect: SubtitleRect)
    ensures
        rect_texts(a + b) == rect_texts(a) + rect_texts(b),
        rect_texts(seq![rect]) == (if rect_text(rect).len() > 0 {
            seq![rect_text(rect)]
        } else {
            seq![]
        }),
        rect is Bitmap || rect is Other ==> rect_text(rect).len() == 0,
    decreases b.len(),
{
    assert(seq![rect].drop_last() =~= Seq::<SubtitleRect>::empty());
    assert(rect_texts(seq![rect].drop_last()) =~= Seq::<Seq<char>>::empty());
    assert(Seq::<Seq<char>>::empty().push(rect_text(rect)) =~= seq![rect_text(rect)]);
    if b.len() == 0 {
        assert(a + b =~= a);
        assert(rect_texts(a) + rect_texts(b) =~= rect_texts(a));
    } else {
        assert((a + b).drop_last() =~= a + b.drop_last());
        law_texts_come_in_order(a, b.drop_last(), rect);
        let t = rect_text(b.last());
        assert((rect_texts(a) + rect_texts(b.drop_last())).push(t) =~= rect_texts(a) + rect_texts(
            b.drop_last(),
        ).push(t));
    }
}

/// Text without markup is shown as it is, but for the white space at its ends:
/// that of a text track, and that of an event behind its eight fields.
pub proof fn law_plain_text_is_shown(raw: String, line: String, fields: Seq<char>, said: Seq<char>)
    requires
        forall|i: int| 0 <= i < raw@.len() ==> #[trigger] raw@[i] != '<' && raw@[i] != '>',
        fields.len() > 0,
        fields.last() == ',',
        text::occurrences(fields, ',') == 8,
        line@ == fields + said,
        !text::has_prefix(line@, "Dialogue:"@),
        forall|i: int| 0 <= i < said.len() ==> #[trigger] said[i] != '{' && said[i] != '\\',
    ensures
        rect_text(SubtitleRect::Text(raw)) == text::trimmed(raw@),
        rect_text(SubtitleRect::Ass(line)) == text::trimmed(said),
{
    law_untagged_text_is_kept(raw@);
    law_events_give_their_text(fields, said);
    text::law_trimming_takes_white_ends(said);
    let t = text::trimmed(said);
    let (a, b) = choose|i: int, j: int|
        #![trigger said.subrange(i, j)]
        0 <= i <= j <= said.len() && t == said.subrange(i, j) && (forall|k: int|
            0 <= k < i || j <= k < said.len() ==> text::is_white(#[trigger] said[k]));
    assert forall|i: int| 0 <= i < t.len() implies #[trigger] t[i] != '{' && t[i] != '\\' by {
        assert(t[i] == said[a + i]);
    }
    assert(no_pair(t, '\\', 'N') && no_pair(t, '\\', 'n'));
    law_unmarked_text_is_kept(t);
}

/// Every pixel of an image is the palette colour of its index: the four bytes
/// put together again are the palette's entry. Only an index with no colour in
/// use is transparent black.
pub proof fn law_pixels_have_their_palette_colour(
    bitmap: SubtitleBitmap,
    rect: BitmapRect,
    row: int,
    col: int,
)
    requires
        is_image_of(bitmap, rect),
        rect.has_image(),
        rect.readable(),
        0 <= row < rect.height,
        0 <= col < rect.width,
    ensures
        bitmap.width == rect.width && bitmap.height == rect.height,
        bitmap.x == rect.x && bitmap.y == rect.y,
        bitmap.rgba@.len() == rect.width * rect.height * 4,
        ({
            let at = 4 * (row * rect.width + col);
            let index = rect.indices->0@[row * rect.stride + col] as int;
            let (r, g, b, a) = (
                bitmap.rgba@[at],
                bitmap.rgba@[at + 1],
                bitmap.rgba@[at + 2],
                bitmap.rgba@[at + 3],
            );
            &&& 0 <= at && at + 3 < bitmap.rgba@.len()
            &&& index < rect.colors ==> a * 0x100_0000 + r * 0x1_0000 + g * 0x100 + b
                == rect.palette->0@[index]
            &&& index >= rect.colors ==> r == 0 && g == 0 && b == 0 && a == 0
        }),
{
    let w = rect.width as int;
    let h = rect.height as int;
    let p = row * w + col;
    assert(0 <= p < w * h) by (nonlinear_arith)
        requires
            0 <= row < h,
            0 <= col < w,
            p == row * w + col,
    ;
    vstd::arithmetic::div_mod::lemma_fundamental_div_mod_converse(p, w, row, col);
    let at = 4 * p;
    assert(at / 4 == p && at % 4 == 0);
    assert((at + 1) / 4 == p && (at + 1) % 4 == 1);
    assert((at + 2) / 4 == p && (at + 2) % 4 == 2);
    assert((at + 3) / 4 == p && (at + 3) % 4 == 3);
    let c = rect.color_at(p);
    assert(bitmap.rgba@[at] == c[0]);
    assert(bitmap.rgba@[at + 1] == c[1]);
    assert(bitmap.rgba@[at + 2] == c[2]);
    assert(bitmap.rgba@[at + 3] == c[3]);
    let index = rect.indices->0@[row * rect.stride + col] as int;
    if index < rect.colors {
        let v = rect.palette->0@[index] as int;
        assert(v == 0x100_0000 * (v / 0x100_0000) + 0x1_0000 * (v / 0x1_0000 % 0x100) + 0x100 * (v
            / 0x100 % 0x100) + v % 0x100);
        assert(0 <= v / 0x100_0000 < 0x100);
    }
}

/// The images of a subtitle are those of its palette rectangles, in order: two
/// halves give theirs one after the other, and a rectangle gives its image when
/// it has an area, indices to read and a palette.
pub proof fn law_images_come_in_order(
    a: Seq<SubtitleRect>,
    b: Seq<SubtitleRect>,
    rect: SubtitleRect,
)
    ensures
        images(a + b) == images(a) + images(b),
        images(seq![rect]) == (match rect {
            SubtitleRect::Bitmap(m) if m.width > 0 && m.height > 0 && m.stride > 0 && m.indices
                is Some && m.palette is Some => seq![m],
            _ => seq![],
        }),
    decreases b.len(),
{
    assert(seq![rect].drop_last() =~= Seq::<SubtitleRect>::empty());
    assert(images(seq![rect].drop_last()) =~= Seq::<BitmapRect>::empty());
    match rect {
        SubtitleRect::Bitmap(m) => {
            assert(Seq::<BitmapRect>::empty().push(m) =~= seq![m]);
        },
        _ => {},
    }
    if b.len() == 0 {
        assert(a + b =~= a);
        assert(images(a) + images(b) =~= images(a));
    } else {
        assert((a + b).drop_last() =~= a + b.drop_last());
        law_images_come_in_order(a, b.drop_last(), rect);
        match b.last() {
            SubtitleRect::Bitmap(m) => {
                assert((images(a) + images(b.drop_last())).push(m) =~= images(a) + images(
                    b.drop_last(),
                ).push(m));
            },
            _ => {},
        }
    }
}

/// In a readable rectangle every pixel that it announces has an index, and every
/// colour in use an entry.
pub proof fn law_readable_rectangles_hold_their_pixels(rect: BitmapRect, row: int, col: int)
    requires
        rect.readable(),
        rect.width > 0 && rect.height > 0 && rect.stride > 0,
        rect.indices is Some && rect.palette is Some,
        0 <= row < rect.height,
        0 <= col < rect.width,
    ensures
        0 <= row * rect.stride + col < rect.indices->0@.len(),
        rect.colors <= 256 ==> rect.colors <= rect.palette->0@.len(),
        rect.colors > 256 ==> 256 <= rect.palette->0@.len(),
{
    let h = rect.height as int;
    let s = rect.stride as int;
    assert(0 <= row * s <= (h - 1) * s) by (nonlinear_arith)
        requires
            0 <= row <= h - 1,
            s >= 0,
    ;
}

/// A rectangle whose lines and colours are there is readable when its image fits
/// in memory; one without an image always is.
pub proof fn law_held_pixels_are_enough(rect: BitmapRect)
    ensures
        rect.width == 0 || rect.height == 0 || rect.stride == 0 || rect.indices is None
            || rect.palette is None ==> rect.readable() && !rect.has_image(),
        rect.width > 0 && rect.height > 0 && rect.stride > 0 && rect.indices is Some && rect.palette
            is Some ==> rect.has_image(),
        rect.has_image() && (rect.height - 1) * rect.stride + rect.width <= rect.indices->0@.len()
            && (rect.palette->0@.len() >= 256 || rect.palette->0@.len() >= rect.colors) && 4 * (
        rect.width * rect.height) <= usize::MAX ==> rect.readable(),
{
}

} // verus!

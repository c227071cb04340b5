use forgeplayer::text::{
    chars_of, contains, count, is_whitespace, push_number, push_padded, push_text, replace_pairs,
    same_text, skip_fields, starts_with, string_of, to_ascii_lowercase, trim,
};

fn chars(s: &str) -> Vec<char> {
    s.chars().collect()
}

#[test]
fn strings_and_characters_convert_both_ways() {
    let word = "Crème brûlée 🎬";
    assert_eq!(chars_of(word), chars(word));
    assert_eq!(string_of(&chars_of(word)), word);
    assert_eq!(string_of(&[]), "");
    assert_eq!(string_of(&['a', 'b']), "ab");
}

#[test]
fn white_space_is_that_of_unicode() {
    for n in 0..=0x10ffffu32 {
        if let Some(c) = char::from_u32(n) {
            assert_eq!(is_whitespace(c), c.is_whitespace(), "U+{n:04X}");
        }
    }
}

#[test]
fn trimming_takes_white_space_at_both_ends() {
    for s in ["", " ", "a", " a", "a ", "\u{3000}a b\t\n", "\u{a0}\u{2003}", "x\u{200b} "] {
        assert_eq!(string_of(&trim(&chars(s))), s.trim());
    }
}

#[test]
fn only_ascii_letters_are_made_small() {
    for s in ["HTTP://Ex", "azAZ@[`{", "ÉÀ", ""] {
        assert_eq!(string_of(&to_ascii_lowercase(&chars(s))), s.to_ascii_lowercase());
    }
}

#[test]
fn prefixes_and_parts_are_found() {
    assert!(starts_with(&chars("rtsp://x"), &chars("rtsp://")));
    assert!(!starts_with(&chars("rtsp:/"), &chars("rtsp://")));
    assert!(starts_with(&chars("a"), &[]));
    for (s, part) in [("file://x", "://"), ("C:/x", "://"), ("", ""), ("ab", "b"), ("aab", "ab")] {
        assert_eq!(contains(&chars(s), &chars(part)), s.contains(part));
    }
    assert!(same_text("dx12", "dx12"));
    assert!(!same_text("dx12", "dx11"));
    assert!(!same_text("dx1", "dx12"));
}

#[test]
fn fields_are_counted_and_skipped() {
    assert_eq!(count(&chars("a,b,,c"), ','), 3);
    assert_eq!(string_of(&skip_fields(&chars("a,b,,c"), ',', 0)), "a,b,,c");
    assert_eq!(string_of(&skip_fields(&chars("a,b,,c"), ',', 2)), ",c");
    assert_eq!(string_of(&skip_fields(&chars("a,b,,c"), ',', 3)), "c");
    assert_eq!(string_of(&skip_fields(&chars("a,b,,c"), ',', 4)), "");
}

#[test]
fn pairs_are_replaced_from_the_left() {
    for s in ["\\N", "a\\Nb\\N", "\\\\N", "\\", "N\\", "\\N\\N"] {
        assert_eq!(
            string_of(&replace_pairs(&chars(s), '\\', 'N', '\n')),
            s.replace("\\N", "\n")
        );
    }
}

#[test]
fn numbers_are_written_like_std_does() {
    for n in [0u64, 7, 10, 255, 48_000, u64::MAX] {
        let mut out = Vec::new();
        push_number(&mut out, n, 10);
        push_text(&mut out, "/");
        push_number(&mut out, n, 16);
        assert_eq!(string_of(&out), format!("{n}/{n:x}"));
    }
    let mut out = Vec::new();
    push_padded(&mut out, 42, 6);
    assert_eq!(string_of(&out), "000042");
}

//! Text as sequences of characters: trimming, searching, replacing and
//! printing numbers.

use vstd::prelude::*;

verus! {

broadcast use vstd::string::group_string_axioms;

/// `String::push` of std appends one character to the end of the string.
pub assume_specification[ String::push ](s: &mut String, ch: char)
    ensures
        final(s)@ == old(s)@.push(ch),
;

/// The characters of `s`, in order.
pub fn chars_of(s: &str) -> (r: Vec<char>)
    ensures
        r@ == s@,
{
    let mut v: Vec<char> = Vec::new();
    for c in it: s.chars()
        invariant
            v@ == it.seq().take(it.index() as int),
            it.seq() == s@,
    {
        v.push(c);
    }
    v
}

/// The string made of `chars`, in order.
pub fn string_of(chars: &[char]) -> (r: String)
    ensures
        r@ == chars@,
{
    let mut s = String::new();
    for i in 0..chars.len()
        invariant
            s@ == chars@.take(i as int),
    {
        s.push(chars[i]);
        assert(chars@.take(i as int).push(chars@[i as int]) =~= chars@.take(i + 1));
    }
    assert(chars@.take(chars@.len() as int) =~= chars@);
    s
}

/// Whether two character sequences are the same.
pub fn same_chars(a: &[char], b: &[char]) -> (r: bool)
    ensures
        r == (a@ == b@),
{
    if a.len() != b.len() {
        return false;
    }
    for i in 0..a.len()
        invariant
            a@.len() == b@.len(),
            a@.take(i as int) == b@.take(i as int),
    {
        if a[i] != b[i] {
            assert(a@[i as int] != b@[i as int]);
            return false;
        }
        assert(a@.take(i + 1) =~= a@.take(i as int).push(a@[i as int]));
        assert(b@.take(i + 1) =~= b@.take(i as int).push(b@[i as int]));
    }
    assert(a@.take(a@.len() as int) =~= a@);
    assert(b@.take(b@.len() as int) =~= b@);
    true
}

/// Whether two strings hold the same characters.
pub fn same_text(a: &str, b: &str) -> (r: bool)
    ensures
        r == (a@ == b@),
{
    same_chars(&chars_of(a), &chars_of(b))
}

/// The Unicode `White_Space` characters.
pub open spec fn is_white(c: char) -> bool {
    ||| '\u{9}' <= c <= '\u{d}'
    ||| c == ' '
    ||| c == '\u{85}'
    ||| c == '\u{a0}'
    ||| c == '\u{1680}'
    ||| '\u{2000}' <= c <= '\u{200a}'
    ||| c == '\u{2028}'
    ||| c == '\u{2029}'
    ||| c == '\u{202f}'
    ||| c == '\u{205f}'
    ||| c == '\u{3000}'
}

/// Whether `c` is white space.
pub fn is_whitespace(c: char) -> (r: bool)
    ensures
        r == is_white(c),
{
    ('\u{9}' <= c && c <= '\u{d}') || c == ' ' || c == '\u{85}' || c == '\u{a0}' || c == '\u{1680}'
        || ('\u{2000}' <= c && c <= '\u{200a}') || c == '\u{2028}' || c == '\u{2029}'
        || c == '\u{202f}' || c == '\u{205f}' || c == '\u{3000}'
}

/// `s` without the white space at its start.
pub open spec fn trimmed_start(s: Seq<char>) -> Seq<char>
    decreases s.len(),
{
    if s.len() > 0 && is_white(s[0]) {
        trimmed_start(s.drop_first())
    } else {
        s
    }
}

/// `s` without the white space at its end.
pub open spec fn trimmed_end(s: Seq<char>) -> Seq<char>
    decreases s.len(),
{
    if s.len() > 0 && is_white(s.last()) {
        trimmed_end(s.drop_last())
    } else {
        s
    }
}

/// `s` without the white space at its two ends.
pub open spec fn trimmed(s: Seq<char>) -> Seq<char> {
    trimmed_end(trimmed_start(s))
}

proof fn lemma_trimmed_start_skips(s: Seq<char>, n: int)
    requires
        0 <= n <= s.len(),
        forall|i: int| 0 <= i < n ==> is_white(#[trigger] s[i]),
    ensures
        trimmed_start(s) == trimmed_start(s.subrange(n, s.len() as int)),
    decreases n,
{
    if n == 0 {
        assert(s.subrange(0, s.len() as int) =~= s);
    } else {
        let rest = s.drop_first();
        assert forall|i: int| 0 <= i < n - 1 implies is_white(#[trigger] rest[i]) by {
            assert(rest[i] == s[i + 1]);
        }
        lemma_trimmed_start_skips(rest, n - 1);
        assert(rest.subrange(n - 1, rest.len() as int) =~= s.subrange(n, s.len() as int));
    }
}

proof fn lemma_trimmed_end_skips(s: Seq<char>, n: int)
    requires
        0 <= n <= s.len(),
        forall|i: int| n <= i < s.len() ==> is_white(#[trigger] s[i]),
    ensures
        trimmed_end(s) == trimmed_end(s.subrange(0, n)),
    decreases s.len() - n,
{
    if n == s.len() {
        assert(s.subrange(0, n) =~= s);
    } else {
        let rest = s.drop_last();
        assert forall|i: int| n <= i < rest.len() implies is_white(#[trigger] rest[i]) by {
            assert(rest[i] == s[i]);
        }
        lemma_trimmed_end_skips(rest, n);
        assert(rest.subrange(0, n) =~= s.subrange(0, n));
    }
}

/// What is left of a trimmed text has no white space at its ends.
pub proof fn lemma_trimmed_is_visible(s: Seq<char>)
    ensures
        trimmed(s).len() > 0 ==> !is_white(trimmed(s)[0]) && !is_white(trimmed(s).last()),
{
    lemma_start_is_visible(s);
    lemma_end_is_visible(trimmed_start(s));
}

proof fn lemma_start_is_visible(s: Seq<char>)
    ensures
        trimmed_start(s).len() > 0 ==> !is_white(trimmed_start(s)[0]),
    decreases s.len(),
{
    if s.len() > 0 && is_white(s[0]) {
        lemma_start_is_visible(s.drop_first());
    }
}

proof fn lemma_end_is_visible(s: Seq<char>)
    ensures
        trimmed_end(s).len() > 0 ==> !is_white(trimmed_end(s).last()) && trimmed_end(s)[0] == s[0],
    decreases s.len(),
{
    if s.len() > 0 && is_white(s.last()) {
        lemma_end_is_visible(s.drop_last());
    }
}

/// `chars` without the white space at its two ends.
pub fn trim(chars: &[char]) -> (r: Vec<char>)
    ensures
        r@ == trimmed(chars@),
{
    let n: usize = chars.len();
    let mut a: usize = 0;
    while a < n && is_whitespace(chars[a])
        invariant
            n == chars@.len(),
            a <= n,
            forall|i: int| 0 <= i < a ==> is_white(#[trigger] chars@[i]),
        decreases n - a,
    {
        a += 1;
    }
    let mut b: usize = n;
    while b > a && is_whitespace(chars[b - 1])
        invariant
            n == chars@.len(),
            a <= b <= n,
            forall|i: int| b <= i < n ==> is_white(#[trigger] chars@[i]),
        decreases b,
    {
        b -= 1;
    }
    let mut out: Vec<char> = Vec::new();
    for i in a..b
        invariant
            a <= b <= chars@.len(),
            out@ == chars@.subrange(a as int, i as int),
    {
        out.push(chars[i]);
        assert(chars@.subrange(a as int, i as int).push(chars@[i as int])
            =~= chars@.subrange(a as int, i + 1));
    }
    proof {
        lemma_trimmed_start_skips(chars@, a as int);
        let rest = chars@.subrange(a as int, n as int);
        assert(trimmed_start(rest) == rest);
        assert forall|i: int| b - a <= i < rest.len() implies is_white(#[trigger] rest[i]) by {
            assert(rest[i] == chars@[i + a]);
        }
        lemma_trimmed_end_skips(rest, b - a);
        assert(rest.subrange(0, b - a) =~= chars@.subrange(a as int, b as int));
    }
    out
}

/// `c` with the letters `A` to `Z` made small.
pub open spec fn lower(c: char) -> char {
    if 'A' <= c <= 'Z' {
        (c as u32 + 32) as char
    } else {
        c
    }
}

/// `s` with the letters `A` to `Z` made small.
pub open spec fn lowered(s: Seq<char>) -> Seq<char> {
    s.map_values(|c: char| lower(c))
}

/// `chars` with the letters `A` to `Z` made small.
pub fn to_ascii_lowercase(chars: &[char]) -> (r: Vec<char>)
    ensures
        r@ == lowered(chars@),
{
    let mut out: Vec<char> = Vec::new();
    for i in 0..chars.len()
        invariant
            out@.len() == i,
            forall|k: int| 0 <= k < i ==> out@[k] == lower(#[trigger] chars@[k]),
    {
        let c = chars[i];
        let l = if 'A' <= c && c <= 'Z' {
            (c as u8 + 32) as char
        } else {
            c
        };
        out.push(l);
    }
    assert(out@ =~= lowered(chars@));
    out
}

/// `s` begins with `prefix`.
pub open spec fn has_prefix(s: Seq<char>, prefix: Seq<char>) -> bool {
    prefix.len() <= s.len() && s.take(prefix.len() as int) == prefix
}

/// Whether `chars` begins with `prefix`.
pub fn starts_with(chars: &[char], prefix: &[char]) -> (r: bool)
    ensures
        r == has_prefix(chars@, prefix@),
{
    if prefix.len() > chars.len() {
        return false;
    }
    for i in 0..prefix.len()
        invariant
            prefix@.len() <= chars@.len(),
            forall|k: int| 0 <= k < i ==> chars@[k] == prefix@[k],
    {
        if chars[i] != prefix[i] {
            assert(chars@.take(prefix@.len() as int)[i as int] != prefix@[i as int]);
            return false;
        }
    }
    assert(chars@.take(prefix@.len() as int) =~= prefix@);
    true
}

/// `part` stands somewhere in `s`.
pub open spec fn has_part(s: Seq<char>, part: Seq<char>) -> bool {
    exists|i: int| 0 <= i <= s.len() && has_prefix(#[trigger] s.skip(i), part)
}

/// Whether `part` stands somewhere in `chars`.
pub fn contains(chars: &[char], part: &[char]) -> (r: bool)
    ensures
        r == has_part(chars@, part@),
{
    let n: usize = chars.len();
    for i in 0..n
        invariant
            n == chars@.len(),
            forall|k: int| 0 <= k < i ==> !has_prefix(#[trigger] chars@.skip(k), part@),
    {
        let tail = vstd::slice::slice_subrange(chars, i, n);
        assert(tail@ =~= chars@.skip(i as int));
        if starts_with(tail, part) {
            return true;
        }
    }
    let tail = vstd::slice::slice_subrange(chars, n, n);
    assert(tail@ =~= chars@.skip(n as int));
    starts_with(tail, part)
}

/// How many times `c` occurs in `s`.
pub open spec fn occurrences(s: Seq<char>, c: char) -> nat
    decreases s.len(),
{
    if s.len() == 0 {
        0
    } else {
        occurrences(s.drop_last(), c) + if s.last() == c { 1nat } else { 0nat }
    }
}

/// How many times `c` occurs in `chars`.
pub fn count(chars: &[char], c: char) -> (r: usize)
    ensures
        r == occurrences(chars@, c),
{
    let mut n: usize = 0;
    for i in 0..chars.len()
        invariant
            n == occurrences(chars@.take(i as int), c),
            n <= i,
    {
        assert(chars@.take(i + 1).drop_last() =~= chars@.take(i as int));
        if chars[i] == c {
            n += 1;
        }
    }
    assert(chars@.take(chars@.len() as int) =~= chars@);
    n
}

/// What follows the `n`-th `sep` of `s`: all of `s` when `n` is zero, nothing
/// when `s` holds fewer.
pub open spec fn after_nth(s: Seq<char>, sep: char, n: nat) -> Seq<char>
    decreases s.len(),
{
    if n == 0 {
        s
    } else if s.len() == 0 {
        s
    } else if s[0] == sep {
        after_nth(s.drop_first(), sep, (n - 1) as nat)
    } else {
        after_nth(s.drop_first(), sep, n)
    }
}

/// What follows the `n`-th `sep` of `chars`.
pub fn skip_fields(chars: &[char], sep: char, n: usize) -> (r: Vec<char>)
    ensures
        r@ == after_nth(chars@, sep, n as nat),
{
    let len: usize = chars.len();
    let mut i: usize = 0;
    let mut left: usize = n;
    assert(chars@.skip(0) =~= chars@);
    while i < len && left > 0
        invariant
            len == chars@.len(),
            i <= len,
            after_nth(chars@.skip(i as int), sep, left as nat) == after_nth(chars@, sep, n as nat),
        decreases len - i,
    {
        assert(chars@.skip(i as int).drop_first() =~= chars@.skip(i + 1));
        if chars[i] == sep {
            left -= 1;
        }
        i += 1;
    }
    let mut out: Vec<char> = Vec::new();
    for k in i..len
        invariant
            i <= len,
            len == chars@.len(),
            out@ == chars@.subrange(i as int, k as int),
    {
        out.push(chars[k]);
        assert(chars@.subrange(i as int, k as int).push(chars@[k as int])
            =~= chars@.subrange(i as int, k + 1));
    }
    assert(chars@.subrange(i as int, len as int) =~= chars@.skip(i as int));
    out
}

/// `s` with every `a` that `b` follows replaced, both together, by `by`; read
/// from the left, no character used twice.
pub open spec fn pairs_replaced(s: Seq<char>, a: char, b: char, by: char) -> Seq<char>
    decreases s.len(),
{
    if s.len() < 2 {
        s
    } else if s[0] == a && s[1] == b {
        seq![by] + pairs_replaced(s.skip(2), a, b, by)
    } else {
        seq![s[0]] + pairs_replaced(s.skip(1), a, b, by)
    }
}

/// `chars` with every `a` that `b` follows replaced, both together, by `by`.
pub fn replace_pairs(chars: &[char], a: char, b: char, by: char) -> (r: Vec<char>)
    ensures
        r@ == pairs_replaced(chars@, a, b, by),
{
    let n: usize = chars.len();
    let mut out: Vec<char> = Vec::new();
    let mut i: usize = 0;
    assert(chars@.skip(0) =~= chars@);
    while i < n
        invariant
            n == chars@.len(),
            i <= n,
            pairs_replaced(chars@, a, b, by) =~= out@ + pairs_replaced(
                chars@.skip(i as int),
                a,
                b,
                by,
            ),
        decreases n - i,
    {
        let ghost rest = chars@.skip(i as int);
        if n - i >= 2 && chars[i] == a && chars[i + 1] == b {
            assert(rest.skip(2) =~= chars@.skip(i + 2));
            out.push(by);
            i += 2;
        } else {
            assert(rest.skip(1) =~= chars@.skip(i + 1));
            assert(rest.len() < 2 ==> rest =~= seq![rest[0]] + rest.skip(1));
            out.push(chars[i]);
            i += 1;
        }
    }
    assert(chars@.skip(n as int) =~= Seq::<char>::empty());
    out
}

/// `parts` one after the other, with `sep` between each two.
pub open spec fn joined(parts: Seq<Seq<char>>, sep: char) -> Seq<char>
    decreases parts.len(),
{
    if parts.len() == 0 {
        seq![]
    } else if parts.len() == 1 {
        parts[0]
    } else {
        joined(parts.drop_last(), sep).push(sep) + parts.last()
    }
}

/// The digit that stands for `n`, in the bases up to sixteen.
pub open spec fn digit(n: int) -> char {
    if n < 10 {
        (n + 48) as char
    } else {
        (n + 87) as char
    }
}

/// `n` written in `base`, without leading zeros.
pub open spec fn digits(n: nat, base: nat) -> Seq<char>
    decreases n,
{
    if base < 2 || n < base {
        seq![digit(n as int)]
    } else {
        proof {
            assert(n / base < n) by (nonlinear_arith)
                requires
                    n >= base,
                    base >= 2,
            ;
        }
        digits(n / base, base).push(digit((n % base) as int))
    }
}

/// `n` written in decimal on `width` characters, the lowest digits if it is
/// longer.
pub open spec fn padded(n: nat, width: nat) -> Seq<char>
    decreases width,
{
    if width == 0 {
        seq![]
    } else {
        padded(n / 10, (width - 1) as nat).push(digit((n % 10) as int))
    }
}

fn digit_char(n: u64) -> (r: char)
    requires
        n < 16,
    ensures
        r == digit(n as int),
{
    if n < 10 {
        (n as u8 + 48) as char
    } else {
        (n as u8 + 87) as char
    }
}

/// Appends `n`, written in `base`.
pub fn push_number(out: &mut Vec<char>, n: u64, base: u64)
    requires
        2 <= base <= 16,
    ensures
        final(out)@ == old(out)@ + digits(n as nat, base as nat),
    decreases n,
{
    if n < base {
        out.push(digit_char(n));
        assert(out@ =~= old(out)@ + digits(n as nat, base as nat));
    } else {
        assert(n / base < n) by (nonlinear_arith)
            requires
                n >= base,
                base >= 2,
        ;
        push_number(out, n / base, base);
        out.push(digit_char(n % base));
        assert(out@ =~= old(out)@ + digits(n as nat, base as nat));
    }
}

/// Appends `n` in decimal, on `width` characters.
pub fn push_padded(out: &mut Vec<char>, n: u64, width: usize)
    ensures
        final(out)@ == old(out)@ + padded(n as nat, width as nat),
    decreases width,
{
    if width > 0 {
        push_padded(out, n / 10, width - 1);
        out.push(digit_char(n % 10));
    }
    assert(out@ =~= old(out)@ + padded(n as nat, width as nat));
}

/// Appends the characters of `s`.
pub fn push_text(out: &mut Vec<char>, s: &str)
    ensures
        final(out)@ == old(out)@ + s@,
{
    let chars = chars_of(s);
    push_chars(out, &chars);
}

/// Appends `chars`.
pub fn push_chars(out: &mut Vec<char>, chars: &[char])
    ensures
        final(out)@ == old(out)@ + chars@,
{
    for i in 0..chars.len()
        invariant
            out@ == old(out)@ + chars@.take(i as int),
    {
        out.push(chars[i]);
        assert((old(out)@ + chars@.take(i as int)).push(chars@[i as int])
            =~= old(out)@ + chars@.take(i + 1));
    }
    assert(chars@.take(chars@.len() as int) =~= chars@);
}

// ── Laws ────────────────────────────────────────────────────────────────────
/// Trimming takes white space away at the two ends, all of it, and nothing else:
/// what is left is a stretch of the text, and everything outside it is white.
pub proof fn law_trimming_takes_white_ends(s: Seq<char>)
    ensures
        exists|i: int, j: int|
            #![trigger s.subrange(i, j)]
            0 <= i <= j <= s.len() && trimmed(s) == s.subrange(i, j) && (forall|k: int|
                0 <= k < i || j <= k < s.len() ==> is_white(#[trigger] s[k])),
        trimmed(s).len() > 0 ==> !is_white(trimmed(s)[0]) && !is_white(trimmed(s).last()),
        trimmed(trimmed(s)) == trimmed(s),
{
    lemma_trimmed_is_visible(s);
    let a = lemma_start_is_a_tail(s);
    let b = lemma_end_is_a_head(trimmed_start(s));
    let (i, j) = (a, a + b);
    assert(trimmed(s) =~= s.subrange(i, j));
    assert forall|k: int| 0 <= k < i || j <= k < s.len() implies is_white(#[trigger] s[k]) by {
        if j <= k {
            assert(trimmed_start(s)[k - a] == s[k]);
        }
    }
    let t = trimmed(s);
    assert(t.len() > 0 ==> trimmed_start(t) == t && trimmed_end(t) == t);
}

proof fn lemma_start_is_a_tail(s: Seq<char>) -> (a: int)
    ensures
        0 <= a <= s.len(),
        trimmed_start(s) == s.skip(a),
        forall|k: int| 0 <= k < a ==> is_white(#[trigger] s[k]),
    decreases s.len(),
{
    if s.len() > 0 && is_white(s[0]) {
        let a = lemma_start_is_a_tail(s.drop_first());
        assert(s.drop_first().skip(a) =~= s.skip(a + 1));
        assert forall|k: int| 0 <= k < a + 1 implies is_white(#[trigger] s[k]) by {
            if k > 0 {
                assert(s.drop_first()[k - 1] == s[k]);
            }
        }
        a + 1
    } else {
        assert(s.skip(0) =~= s);
        0
    }
}

proof fn lemma_end_is_a_head(s: Seq<char>) -> (b: int)
    ensures
        0 <= b <= s.len(),
        trimmed_end(s) == s.take(b),
        forall|k: int| b <= k < s.len() ==> is_white(#[trigger] s[k]),
    decreases s.len(),
{
    if s.len() > 0 && is_white(s.last()) {
        let b = lemma_end_is_a_head(s.drop_last());
        assert(s.drop_last().take(b) =~= s.take(b));
        assert forall|k: int| b <= k < s.len() implies is_white(#[trigger] s[k]) by {
            if k < s.len() - 1 {
                assert(s.drop_last()[k] == s[k]);
            }
        }
        b
    } else {
        assert(s.take(s.len() as int) =~= s);
        s.len() as int
    }
}

/// White space, by number: tabulation to carriage return, the space, and the
/// spaces and line ends that Unicode has beyond ASCII. No letter, digit or sign
/// is white.
pub proof fn law_white_space_is_unicode_white_space(c: char)
    ensures
        c as u32 <= 127 ==> (is_white(c) <==> 9 <= c as u32 <= 13 || c as u32 == 32),
        c as u32 > 127 ==> (is_white(c) <==> c as u32 == 0x85 || c as u32 == 0xa0 || c as u32
            == 0x1680 || 0x2000 <= c as u32 <= 0x200a || c as u32 == 0x2028 || c as u32 == 0x2029
            || c as u32 == 0x202f || c as u32 == 0x205f || c as u32 == 0x3000),
{
}

/// Letters keep their place in the alphabet when they are made small, every
/// other character stays, and no capital letter is left.
pub proof fn law_letters_are_made_small(s: Seq<char>, i: int)
    requires
        0 <= i < s.len(),
    ensures
        lowered(s).len() == s.len(),
        ({
            let (c, l) = (s[i] as u32, lowered(s)[i] as u32);
            &&& 65 <= c <= 90 ==> l - 97 == c - 65
            &&& !(65 <= c <= 90) ==> l == c
            &&& !(65 <= l <= 90)
        }),
        lowered(lowered(s)) == lowered(s),
{
    assert(lowered(lowered(s)) =~= lowered(s));
}

/// A text begins with a prefix exactly when it is that prefix and something
/// after it.
pub proof fn law_prefixes(s: Seq<char>, prefix: Seq<char>, rest: Seq<char>)
    ensures
        has_prefix(prefix + rest, prefix),
        has_prefix(s, prefix) ==> s == prefix + s.skip(prefix.len() as int),
        s == prefix + rest ==> has_prefix(s, prefix),
{
    assert((prefix + rest).take(prefix.len() as int) =~= prefix);
    if has_prefix(s, prefix) {
        assert(s =~= s.take(prefix.len() as int) + s.skip(prefix.len() as int));
    }
}

/// A part is found wherever it stands, and what is found stands there.
pub proof fn law_parts(s: Seq<char>, before: Seq<char>, part: Seq<char>, after: Seq<char>)
    ensures
        has_part(before + part + after, part),
        has_part(s, part) ==> exists|x: Seq<char>, y: Seq<char>| s == #[trigger] (x + part + y),
{
    let whole = before + part + after;
    assert(whole.skip(before.len() as int) =~= part + after);
    law_prefixes(whole, part, after);
    assert(has_prefix(whole.skip(before.len() as int), part));
    if has_part(s, part) {
        let i = choose|i: int| 0 <= i <= s.len() && has_prefix(#[trigger] s.skip(i), part);
        law_prefixes(s.skip(i), part, after);
        let x = s.take(i);
        let y = s.skip(i).skip(part.len() as int);
        assert(s =~= x + (part + y));
        assert(s =~= x + part + y);
    }
}

/// Counting adds up over two texts, counts nothing where the character is not,
/// and counts every place where it is.
pub proof fn law_occurrences_add_up(a: Seq<char>, b: Seq<char>, c: char)
    ensures
        occurrences(a + b, c) == occurrences(a, c) + occurrences(b, c),
        occurrences(seq![c], c) == 1,
        (forall|i: int| 0 <= i < a.len() ==> #[trigger] a[i] != c) <==> occurrences(a, c) == 0,
    decreases b.len(),
{
    lemma_none_occurs(a, c);
    assert(seq![c].drop_last() =~= Seq::<char>::empty());
    assert(occurrences(seq![c].drop_last(), c) == 0);
    if b.len() == 0 {
        assert(a + b =~= a);
    } else {
        assert((a + b).drop_last() =~= a + b.drop_last());
        law_occurrences_add_up(a, b.drop_last(), c);
    }
}

proof fn lemma_none_occurs(a: Seq<char>, c: char)
    ensures
        (forall|i: int| 0 <= i < a.len() ==> #[trigger] a[i] != c) <==> occurrences(a, c) == 0,
    decreases a.len(),
{
    if a.len() > 0 {
        let init = a.drop_last();
        lemma_none_occurs(init, c);
        if occurrences(a, c) == 0 {
            assert forall|i: int| 0 <= i < a.len() implies #[trigger] a[i] != c by {
                if i < init.len() {
                    assert(init[i] == a[i]);
                }
            }
        }
        if forall|i: int| 0 <= i < a.len() ==> #[trigger] a[i] != c {
            assert forall|i: int| 0 <= i < init.len() implies #[trigger] init[i] != c by {
                assert(init[i] == a[i]);
            }
            assert(a[a.len() - 1] != c);
        }
    }
}

/// What follows the fields is what stands after them: a field without a
/// separator, and its separator, are skipped as one.
pub proof fn law_fields_are_skipped(field: Seq<char>, rest: Seq<char>, sep: char, n: nat)
    requires
        forall|i: int| 0 <= i < field.len() ==> #[trigger] field[i] != sep,
        n > 0,
    ensures
        after_nth(field + seq![sep] + rest, sep, n) == after_nth(rest, sep, (n - 1) as nat),
        after_nth(rest, sep, 0) == rest,
        after_nth(field, sep, n).len() == 0,
    decreases field.len(),
{
    let whole = field + seq![sep] + rest;
    if field.len() == 0 {
        assert(whole.drop_first() =~= rest);
    } else {
        let tail = field.drop_first();
        assert forall|i: int| 0 <= i < tail.len() implies #[trigger] tail[i] != sep by {
            assert(tail[i] == field[i + 1]);
        }
        assert(field[0] != sep);
        law_fields_are_skipped(tail, rest, sep, n);
        assert(whole.drop_first() =~= tail + seq![sep] + rest);
    }
}

/// A pair is replaced where it stands: before the first `a` nothing changes, the
/// pair itself becomes one character, and what follows is read on its own.
pub proof fn law_pairs_are_replaced_in_place(
    before: Seq<char>,
    after: Seq<char>,
    a: char,
    b: char,
    by: char,
)
    requires
        forall|i: int| 0 <= i < before.len() ==> #[trigger] before[i] != a,
    ensures
        pairs_replaced(before + seq![a, b] + after, a, b, by) == before + seq![by]
            + pairs_replaced(after, a, b, by),
        pairs_replaced(before, a, b, by) == before,
        (after.len() > 0 && after[0] != b && a != b) ==> pairs_replaced(
            before + seq![a] + after,
            a,
            b,
            by,
        ) == before + seq![a] + pairs_replaced(after, a, b, by),
    decreases before.len(),
{
    let whole = before + seq![a, b] + after;
    let alone = before + seq![a] + after;
    if before.len() == 0 {
        assert(whole.skip(2) =~= after);
        assert(whole =~= seq![a, b] + after);
        assert(before + seq![by] + pairs_replaced(after, a, b, by) =~= seq![by] + pairs_replaced(
            after,
            a,
            b,
            by,
        ));
        assert(alone.skip(1) =~= after);
        assert(before + seq![a] + pairs_replaced(after, a, b, by) =~= seq![a] + pairs_replaced(
            after,
            a,
            b,
            by,
        ));
    } else {
        let tail = before.drop_first();
        assert forall|i: int| 0 <= i < tail.len() implies #[trigger] tail[i] != a by {
            assert(tail[i] == before[i + 1]);
        }
        assert(before[0] != a);
        law_pairs_are_replaced_in_place(tail, after, a, b, by);
        assert(whole.skip(1) =~= tail + seq![a, b] + after);
        assert(alone.skip(1) =~= tail + seq![a] + after);
        assert(before.skip(1) =~= tail);
        assert(seq![before[0]] + tail =~= before);
        assert(seq![before[0]] + (tail + seq![by] + pairs_replaced(after, a, b, by)) =~= before
            + seq![by] + pairs_replaced(after, a, b, by));
        assert(seq![before[0]] + (tail + seq![a] + pairs_replaced(after, a, b, by)) =~= before
            + seq![a] + pairs_replaced(after, a, b, by));
    }
}

/// Where part `k` starts in the joined text: after the parts before it, each
/// with its separator.
pub open spec fn part_start(parts: Seq<Seq<char>>, k: int) -> int
    decreases k,
{
    if k <= 0 {
        0
    } else {
        part_start(parts, k - 1) + parts[k - 1].len() + 1
    }
}

/// Joined parts stand whole and in order, one separator between each two and
/// none at the ends.
pub proof fn law_parts_are_joined(parts: Seq<Seq<char>>, sep: char, k: int)
    requires
        0 <= k < parts.len(),
    ensures
        ({
            let whole = joined(parts, sep);
            let start = part_start(parts, k);
            let end = start + parts[k].len();
            &&& 0 <= start && end <= whole.len()
            &&& whole.subrange(start, end) == parts[k]
            &&& k > 0 ==> whole[start - 1] == sep
            &&& k == parts.len() - 1 <==> end == whole.len()
        }),
    decreases parts.len(),
{
    lemma_joined_len(parts, sep);
    let whole = joined(parts, sep);
    let start = part_start(parts, k);
    lemma_part_starts_rise(parts, 0, k);
    if k > 0 {
        lemma_part_starts_rise(parts, 0, k - 1);
    }
    if parts.len() > 1 {
        let init = parts.drop_last();
        lemma_joined_len(init, sep);
        lemma_same_starts(parts, k);
        lemma_same_starts(parts, parts.len() - 1);
        if k == parts.len() - 1 {
            assert(joined(init, sep).len() == start - 1);
            assert(whole == joined(init, sep).push(sep) + parts.last());
            assert(whole[start - 1] == sep);
            assert(whole.subrange(start, start + parts[k].len() as int) =~= parts[k]);
        } else {
            law_parts_are_joined(init, sep, k);
            assert(init[k] == parts[k]);
            assert(whole == joined(init, sep).push(sep) + parts.last());
            assert(k > 0 ==> whole[start - 1] == joined(init, sep)[start - 1]);
            assert(whole.subrange(start, start + parts[k].len() as int) =~= joined(
                init,
                sep,
            ).subrange(start, start + parts[k].len() as int));
            lemma_part_starts_rise(parts, k + 1, parts.len() - 1);
        }
    } else {
        assert(whole.subrange(0, parts[0].len() as int) =~= parts[0]);
    }
}

proof fn lemma_joined_len(parts: Seq<Seq<char>>, sep: char)
    ensures
        parts.len() > 0 ==> joined(parts, sep).len() == part_start(parts, parts.len() as int) - 1,
        parts.len() == 0 ==> joined(parts, sep).len() == 0,
    decreases parts.len(),
{
    reveal_with_fuel(part_start, 2);
    if parts.len() > 1 {
        lemma_joined_len(parts.drop_last(), sep);
        lemma_same_starts(parts, parts.len() - 1);
    }
}

proof fn lemma_same_starts(parts: Seq<Seq<char>>, k: int)
    requires
        0 <= k <= parts.len() - 1,
    ensures
        part_start(parts, k) == part_start(parts.drop_last(), k),
    decreases k,
{
    if k > 0 {
        lemma_same_starts(parts, k - 1);
    }
}

proof fn lemma_part_starts_rise(parts: Seq<Seq<char>>, j: int, k: int)
    requires
        0 <= j <= k <= parts.len(),
    ensures
        0 <= part_start(parts, j) <= part_start(parts, k),
    decreases k,
{
    if k > j {
        lemma_part_starts_rise(parts, j, k - 1);
    } else if k > 0 {
        lemma_part_starts_rise(parts, j - 1, k - 1);
    }
}

/// The number that a digit stands for: `0` to `9`, then `a` to `f`.
pub open spec fn digit_value(c: char) -> int {
    if '0' <= c <= '9' {
        c as int - '0' as int
    } else {
        c as int - 'a' as int + 10
    }
}

/// The number that is written in `base`.
pub open spec fn value_of(s: Seq<char>, base: int) -> int
    decreases s.len(),
{
    if s.len() == 0 {
        0
    } else {
        value_of(s.drop_last(), base) * base + digit_value(s.last())
    }
}

/// `base` to the power of `n`.
pub open spec fn power(base: int, n: nat) -> int
    decreases n,
{
    if n == 0 {
        1
    } else {
        base * power(base, (n - 1) as nat)
    }
}

/// What is written reads back as the number it was written for, digit by digit
/// below the base, with no leading zero.
pub proof fn law_numbers_read_back(n: nat, base: nat)
    requires
        2 <= base <= 16,
    ensures
        value_of(digits(n, base), base as int) == n,
        digits(n, base).len() > 0,
        n > 0 ==> digits(n, base)[0] != '0',
        n == 0 ==> digits(n, base) == seq!['0'],
        forall|i: int|
            0 <= i < digits(n, base).len() ==> {
                let c = #[trigger] digits(n, base)[i];
                ('0' <= c <= '9' || 'a' <= c <= 'f') && 0 <= digit_value(c) < base
            },
    decreases n,
{
    let d = digits(n, base);
    if n < base {
        assert(d.drop_last() =~= Seq::<char>::empty());
        assert(value_of(d.drop_last(), base as int) == 0);
        assert(0 * (base as int) == 0) by (nonlinear_arith);
        assert(d[0] == digit(n as int));
    } else {
        assert(0 < n / base < n) by (nonlinear_arith)
            requires
                n >= base,
                base >= 2,
        ;
        let low = (n % base) as int;
        vstd::arithmetic::div_mod::lemma_fundamental_div_mod(n as int, base as int);
        vstd::arithmetic::div_mod::lemma_mod_bound(n as int, base as int);
        law_numbers_read_back(n / base, base);
        let high = digits(n / base, base);
        assert(d.drop_last() =~= high);
        assert((n / base) * base == base * (n / base)) by (nonlinear_arith);
        assert forall|i: int| 0 <= i < d.len() implies {
            let c = #[trigger] d[i];
            ('0' <= c <= '9' || 'a' <= c <= 'f') && 0 <= digit_value(c) < base
        } by {
            if i < high.len() {
                assert(d[i] == high[i]);
            } else {
                assert(d[i] == digit(low));
            }
        }
    }
}

/// Decimals take exactly the width they are given and read back as the number,
/// as far as it fits.
pub proof fn law_decimals_read_back(n: nat, width: nat)
    ensures
        padded(n, width).len() == width,
        n < power(10, width) ==> value_of(padded(n, width), 10) == n,
        forall|i: int|
            0 <= i < padded(n, width).len() ==> '0' <= #[trigger] padded(n, width)[i] <= '9',
    decreases width,
{
    if width > 0 {
        let p = padded(n, width);
        let high = padded(n / 10, (width - 1) as nat);
        law_decimals_read_back(n / 10, (width - 1) as nat);
        assert(p.drop_last() =~= high);
        assert forall|i: int| 0 <= i < p.len() implies '0' <= #[trigger] p[i] <= '9' by {
            if i < high.len() {
                assert(p[i] == high[i]);
            } else {
                assert(p[i] == digit((n % 10) as int));
            }
        }
    }
}

/// Text without the first character of a pair is kept, and what follows it is
/// read on its own.
pub proof fn law_text_before_a_pair_is_kept(
    before: Seq<char>,
    after: Seq<char>,
    a: char,
    b: char,
    by: char,
)
    requires
        forall|i: int| 0 <= i < before.len() ==> #[trigger] before[i] != a,
    ensures
        pairs_replaced(before + after, a, b, by) == before + pairs_replaced(after, a, b, by),
    decreases before.len(),
{
    let whole = before + after;
    if before.len() == 0 {
        assert(whole =~= after);
        assert(before + pairs_replaced(after, a, b, by) =~= pairs_replaced(after, a, b, by));
    } else {
        let tail = before.drop_first();
        assert forall|i: int| 0 <= i < tail.len() implies #[trigger] tail[i] != a by {
            assert(tail[i] == before[i + 1]);
        }
        assert(before[0] != a);
        law_text_before_a_pair_is_kept(tail, after, a, b, by);
        assert(whole.skip(1) =~= tail + after);
        if whole.len() < 2 {
            assert(after =~= Seq::<char>::empty());
            assert(before + pairs_replaced(after, a, b, by) =~= whole);
        } else {
            assert(seq![before[0]] + (tail + pairs_replaced(after, a, b, by)) =~= before
                + pairs_replaced(after, a, b, by));
        }
    }
}

} // verus!

//! Theme identifiers and the colour notations stored in theme settings.
use vstd::prelude::*;

use crate::text::{
    ascii_lower_seq, boundary_index, byte_len, char_index_at_byte, chars_of, copy_range,
    extend_chars, find_char, has_prefix, hex_digit_value, hex_digits_value, hex_fixed,
    hex_string, hex_to_u32, is_ws, joined, last_index_of, non_empty, parse_hex_u32,
    pieces, pow16, prefix_byte_len, rfind_char, split_by, split_char, split_class, split_on,
    starts_with, string_from_chars, to_ascii_lowercase, trim, trim_end_by, trim_start_by,
    trim_start_char, trim_start_matches, trim_ws, CharClass,
};

verus! {

/// The prefix of custom theme identifiers.
pub const CUSTOM_THEME_PREFIX: &'static str = "custom:";

/// Whether a theme identifier names a custom theme.
pub fn is_custom_theme_id(id: &str) -> (r: bool)
    ensures
        r == has_prefix(id@, CUSTOM_THEME_PREFIX@),
{
    let c = chars_of(id);
    let p = chars_of(CUSTOM_THEME_PREFIX);
    starts_with(&c, &p)
}

/// Every character of `s` twice in a row (`#abc` shorthand expansion).
pub open spec fn doubled(s: Seq<char>) -> Seq<char>
    decreases s.len(),
{
    if s.len() == 0 {
        s
    } else {
        doubled(s.drop_last()).push(s.last()).push(s.last())
    }
}

/// The value of a `#`-notation colour body of the given byte length.
pub open spec fn hex_notation_value(hex: Seq<char>) -> Option<u32> {
    let n = byte_len(hex);
    if n == 3 {
        parse_hex_u32(doubled(hex))
    } else if n == 6 {
        parse_hex_u32(hex)
    } else if n == 8 {
        match boundary_index(hex, 6) {
            Some(k) => parse_hex_u32(hex.take(k)),
            None => None,
        }
    } else {
        None
    }
}

/// The recognised forms of a colour setting.
pub ghost enum ColorNotationView {
    /// `#rgb`, `#rrggbb` or `#rrggbbaa`: the 24-bit colour.
    Hex(Option<u32>),
    /// `rgb(r, g, b)` or `rgba(r, g, b, a)`: the three trimmed channel texts.
    Rgb(Seq<char>, Seq<char>, Seq<char>),
    /// Anything else.
    Unrecognized,
}

/// A colour setting sorted by notation.
#[derive(Clone, Debug)]
pub enum ColorNotation {
    /// `#` notation, with its value when the digits are valid.
    Hex(Option<u32>),
    /// Functional notation, with the trimmed red, green and blue channel texts.
    Rgb(String, String, String),
    /// Neither notation.
    Unrecognized,
}

impl View for ColorNotation {
    type V = ColorNotationView;

    open spec fn view(&self) -> ColorNotationView {
        match self {
            ColorNotation::Hex(v) => ColorNotationView::Hex(*v),
            ColorNotation::Rgb(r, g, b) => ColorNotationView::Rgb(r@, g@, b@),
            ColorNotation::Unrecognized => ColorNotationView::Unrecognized,
        }
    }
}

/// The text between the first `(` and the last `)` of a functional notation.
pub open spec fn rgb_arguments(t: Seq<char>) -> Option<Seq<char>> {
    if !t.contains('(') {
        None
    } else {
        let start = choose|i: int| 0 <= i < t.len() && t[i] == '(' && forall|j: int| 0 <= j < i ==> t[j] != '(';
        match last_index_of(t, ')') {
            Some(end) => Some(t.subrange(start + 1, end)),
            None => None,
        }
    }
}

/// The notation of a colour setting: surrounding whitespace is ignored; `#`
/// starts hexadecimal notation, an ASCII case-insensitive `rgb(` or `rgba(`
/// starts functional notation whose first three comma-separated arguments are
/// the channels.
pub open spec fn color_notation(value: Seq<char>) -> ColorNotationView {
    let t = trim(value);
    if has_prefix(t, "#"@) {
        ColorNotationView::Hex(hex_notation_value(t.drop_first()))
    } else if has_prefix(ascii_lower_seq(t), "rgb("@) || has_prefix(ascii_lower_seq(t), "rgba("@) {
        match rgb_arguments(t) {
            Some(args) => {
                let parts = split_char(args, ',');
                if parts.len() >= 3 {
                    ColorNotationView::Rgb(trim(parts[0]), trim(parts[1]), trim(parts[2]))
                } else {
                    ColorNotationView::Unrecognized
                }
            },
            None => ColorNotationView::Unrecognized,
        }
    } else {
        ColorNotationView::Unrecognized
    }
}

/// Slicing an eight-byte `#` body at byte six would cut a character.
pub open spec fn color_notation_panics(value: Seq<char>) -> bool {
    let t = trim(value);
    has_prefix(t, "#"@) && byte_len(t.drop_first()) == 8 && boundary_index(t.drop_first(), 6) is None
}

/// Doubles every character.
fn double_chars(s: &[char]) -> (r: Vec<char>)
    ensures
        r@ == doubled(s@),
        r@.len() == 2 * s@.len(),
{
    let mut r: Vec<char> = Vec::new();
    let mut i: usize = 0;
    assert(s@.take(0) =~= Seq::<char>::empty());
    while i < s.len()
        invariant
            i <= s.len(),
            r@ == doubled(s@.take(i as int)),
            r@.len() == 2 * i,
        decreases s.len() - i,
    {
        assert(s@.take(i as int + 1).drop_last() =~= s@.take(i as int));
        r.push(s[i]);
        r.push(s[i]);
        i += 1;
    }
    assert(s@.take(s.len() as int) =~= s@);
    r
}

/// The value of a `#` body.
fn hex_notation(hex: &[char]) -> (r: Option<u32>)
    requires
        !(byte_len(hex@) == 8 && boundary_index(hex@, 6) is None),
    ensures
        r == hex_notation_value(hex@),
{
    let n = prefix_byte_len(hex, hex.len(), 8);
    assert(hex@.take(hex@.len() as int) =~= hex@);
    if n == 3 {
        let d = double_chars(hex);
        hex_to_u32(&d)
    } else if n == 6 {
        hex_to_u32(hex)
    } else if n == 8 {
        match char_index_at_byte(hex, 6) {
            Some(k) => {
                let prefix = copy_range(hex, 0, k);
                assert(hex@.subrange(0, k as int) =~= hex@.take(k as int));
                hex_to_u32(&prefix)
            },
            None => None,
        }
    } else {
        None
    }
}

/// Sorts a colour setting by notation (see `color_notation`).
pub fn parse_color_notation(value: &str) -> (r: ColorNotation)
    requires
        !color_notation_panics(value@),
    ensures
        r@ == color_notation(value@),
{
    let v = chars_of(value);
    let t = trim_ws(&v);
    let hash = chars_of("#");
    if starts_with(&t, &hash) {
        proof {
            reveal_strlit("#");
        }
        let body = copy_range(&t, 1, t.len());
        assert(body@ =~= t@.drop_first());
        return ColorNotation::Hex(hex_notation(&body));
    }
    let lower = to_ascii_lowercase(&t);
    let rgb = chars_of("rgb(");
    let rgba = chars_of("rgba(");
    if !(starts_with(&lower, &rgb) || starts_with(&lower, &rgba)) {
        return ColorNotation::Unrecognized;
    }
    let start = match find_char(&t, '(') {
        Some(i) => i,
        None => {
            return ColorNotation::Unrecognized;
        },
    };
    let end = match rfind_char(&t, ')') {
        Some(i) => i,
        None => {
            proof {
                assert(t@.contains('('));
            }
            return ColorNotation::Unrecognized;
        },
    };
    proof {
        reveal_strlit("rgb(");
        reveal_strlit("rgba(");
        let lw = ascii_lower_seq(t@);
        let k: int = if has_prefix(lw, "rgb("@) { 3 } else { 4 };
        assert(lw.len() == t@.len());
        assert forall|i: int| 0 <= i <= k implies lw[i] != ')' && (lw[i] == '(' <==> i == k) by {
            if has_prefix(lw, "rgb("@) {
                assert(lw.take(4)[i] == lw[i]);
            } else {
                assert(lw.take(5)[i] == lw[i]);
            }
        }
        assert(lw[k] == crate::text::ascii_lower(t@[k]));
        assert(t@[k] == '(');
        assert(start <= k);
        assert(t@.contains('('));
        let w = choose|i: int| 0 <= i < t@.len() && t@[i] == '(' && forall|j: int| 0 <= j < i ==> t@[j] != '(';
        if w < start {
        } else if w > start {
        }
        assert(w == start);
        if end <= start {
            assert(lw[end as int] == crate::text::ascii_lower(t@[end as int]));
            assert(false);
        }
    }
    let args = copy_range(&t, start + 1, end);
    let parts = split_on(&args, ',');
    if parts.len() >= 3 {
        let r = trim_ws(&parts[0]);
        let g = trim_ws(&parts[1]);
        let b = trim_ws(&parts[2]);
        assert(parts@[0]@ == split_char(args@, ',')[0]);
        assert(parts@[1]@ == split_char(args@, ',')[1]);
        assert(parts@[2]@ == split_char(args@, ',')[2]);
        ColorNotation::Rgb(string_from_chars(&r), string_from_chars(&g), string_from_chars(&b))
    } else {
        ColorNotation::Unrecognized
    }
}

/// The strict six-digit colour form: surrounding whitespace and leading `#`
/// characters are ignored, then exactly six hexadecimal digits, with no sign.
pub open spec fn rgb24_value(value: Seq<char>) -> Option<u32> {
    let hex = trim_start_char(trim(value), '#');
    if byte_len(hex) == 6 && hex_digits_value(hex) is Some {
        Some(hex_digits_value(hex)->0 as u32)
    } else {
        None
    }
}

/// Parses the strict six-digit color form used by editable color fields.
pub fn parse_rgb24_hex(value: &str) -> (r: Option<u32>)
    ensures
        r == rgb24_value(value@),
{
    let v = chars_of(value);
    let t = trim_ws(&v);
    let hex = trim_start_matches(&t, '#');
    let n = prefix_byte_len(&hex, hex.len(), 6);
    assert(hex@.take(hex@.len() as int) =~= hex@);
    if n != 6 {
        return None;
    }
    proof {
        crate::text::lemma_byte_len_prefix_mono(hex@, 0, hex@.len() as int);
        assert(hex@.take(0) =~= Seq::<char>::empty());
    }
    if hex[0] == '+' {
        proof {
            assert(hex@.take(1).drop_last() =~= Seq::<char>::empty());
            assert(hex@.take(1).last() == '+');
            crate::text::lemma_hex_invalid_prefix(hex@, 1);
        }
        return None;
    }
    proof {
        if hex_digits_value(hex@) is Some {
            crate::text::lemma_hex_digits_bound(hex@);
            crate::text::lemma_pow16_mono(hex@.len(), 6);
            assert(pow16(6) == 0x1000000) by {
                reveal_with_fuel(pow16, 7);
            }
        }
    }
    hex_to_u32(&hex)
}

/// `#` and six lower-case hexadecimal digits of the colour's low 24 bits.
pub open spec fn hex_color_text(color: u32) -> Seq<char> {
    seq!['#'] + hex_fixed((color % 0x1000000) as nat, 6)
}

/// Formats a colour as `#rrggbb`.
pub fn format_hex_color(color: u32) -> (r: String)
    ensures
        r@ == hex_color_text(color),
{
    let low = color & 0x00ff_ffff;
    assert(color & 0x00ff_ffff == color % 0x1000000) by (bit_vector);
    let digits = hex_string(low as u64, 6);
    let mut out: Vec<char> = Vec::new();
    out.push('#');
    extend_chars(&mut out, &digits);
    string_from_chars(&out)
}

/// A fixed-width hexadecimal text reads back as the value modulo the width.
proof fn lemma_hex_fixed_value(n: nat, w: nat)
    ensures
        hex_digits_value(hex_fixed(n, w)) == Some(n % pow16(w)),
        hex_fixed(n, w).len() == w,
        forall|i: int| 0 <= i < w ==> {
            let c = #[trigger] hex_fixed(n, w)[i];
            &&& hex_digit_value(c) is Some
            &&& c != '+'
            &&& !is_ws(c)
            &&& c != '#'
            &&& (c as u32) < 0x80
        },
    decreases w,
{
    if w > 0 {
        let m = (w - 1) as nat;
        lemma_hex_fixed_value(n / 16, m);
        let s = hex_fixed(n, w);
        assert(s.drop_last() =~= hex_fixed(n / 16, m));
        let d = n % 16;
        assert(s.last() == crate::text::digit_char(d));
        assert(hex_digit_value(crate::text::digit_char(d)) == Some(d));
        assert(pow16(w) == 16 * pow16(m));
        crate::text::lemma_pow16_mono(0, m);
        assert((n / 16) % pow16(m) * 16 + d == n % pow16(w)) by (nonlinear_arith)
            requires
                pow16(w) == 16 * pow16(m),
                d == n % 16,
                pow16(m) >= 1,
        {
            vstd::arithmetic::div_mod::lemma_fundamental_div_mod(n as int, 16);
            vstd::arithmetic::div_mod::lemma_breakdown(n as int, 16, pow16(m) as int);
        }
    }
}

/// Parsing a formatted colour gives back its low 24 bits.
pub proof fn lemma_format_then_parse_rgb24(color: u32)
    ensures
        rgb24_value(hex_color_text(color)) == Some((color % 0x1000000) as u32),
{
    let n = (color % 0x1000000) as nat;
    let h = hex_fixed(n, 6);
    lemma_hex_fixed_value(n, 6);
    let text = hex_color_text(color);
    assert(text.drop_first() =~= h);
    assert(text[0] == '#');
    assert(text.last() == h[5]);
    assert(!is_ws(h[5]));
    assert(trim_start_by(text, CharClass::Whitespace) == text);
    assert(trim_end_by(text, CharClass::Whitespace) == text);
    assert(trim(text) == text);
    assert(trim_start_by(h, CharClass::Exactly('#')) == h);
    assert(trim_start_char(text, '#') == h);
    lemma_ascii_byte_len(h);
    assert(pow16(6) == 0x1000000) by {
        reveal_with_fuel(pow16, 7);
    }
    assert(h[0] != '+');
}

/// A sequence of hexadecimal digits has a value.
proof fn lemma_hex_digits_valid(d: Seq<char>)
    requires
        forall|i: int| 0 <= i < d.len() ==> #[trigger] hex_digit_value(d[i]) is Some,
    ensures
        hex_digits_value(d) is Some,
    decreases d.len(),
{
    if d.len() > 0 {
        assert(d.last() == d[d.len() - 1]);
        lemma_hex_digits_valid(d.drop_last());
    }
}

/// `#` followed by six hexadecimal digits is that colour: the notation is
/// accepted (it never cuts a character) and gives the digits' value, the
/// same value the strict six-digit form gives for the digits alone, below
/// `0x1000000`.
pub proof fn lemma_six_hex_digits_are_a_colour(d: Seq<char>)
    requires
        d.len() == 6,
        forall|i: int| 0 <= i < d.len() ==> #[trigger] hex_digit_value(d[i]) is Some,
    ensures
        hex_digits_value(d) is Some,
        hex_digits_value(d)->0 < 0x1000000,
        !color_notation_panics(seq!['#'] + d),
        color_notation(seq!['#'] + d) == ColorNotationView::Hex(Some(hex_digits_value(d)->0 as u32)),
        rgb24_value(d) == Some(hex_digits_value(d)->0 as u32),
        rgb24_value(seq!['#'] + d) == Some(hex_digits_value(d)->0 as u32),
{
    lemma_hex_digits_valid(d);
    crate::text::lemma_hex_digits_bound(d);
    assert(pow16(6) == 0x1000000) by {
        reveal_with_fuel(pow16, 7);
    }
    assert forall|i: int| 0 <= i < d.len() implies !is_ws(#[trigger] d[i]) && d[i] != '#' && d[i] != '+'
        && (d[i] as u32) < 0x80 by {
        assert(hex_digit_value(d[i]) is Some);
    }
    lemma_ascii_byte_len(d);
    let text = seq!['#'] + d;
    assert(text.drop_first() =~= d);
    assert(text[0] == '#');
    assert(text.last() == d[5]);
    assert(trim_start_by(text, CharClass::Whitespace) == text);
    assert(trim_end_by(text, CharClass::Whitespace) == text);
    assert(trim(text) == text);
    assert(d.last() == d[5]);
    assert(trim_start_by(d, CharClass::Whitespace) == d);
    assert(trim_end_by(d, CharClass::Whitespace) == d);
    assert(trim(d) == d);
    assert(trim_start_by(d, CharClass::Exactly('#')) == d);
    assert(trim_start_char(text, '#') == d) by {
        assert(trim_start_by(text, CharClass::Exactly('#')) == trim_start_by(text.drop_first(), CharClass::Exactly('#')));
    }
    reveal_strlit("#");
    assert(has_prefix(text, "#"@)) by {
        assert(text.take(1) =~= "#"@);
    }
}

/// Appending a digit multiplies the value by sixteen and adds the digit.
proof fn lemma_hex_digits_push(s: Seq<char>, c: char)
    ensures
        hex_digits_value(s.push(c)) == match (hex_digits_value(s), hex_digit_value(c)) {
            (Some(v), Some(x)) => Some(v * 16 + x),
            _ => None,
        },
{
    assert(s.push(c).drop_last() =~= s);
}

/// `#` and three hexadecimal digits `r`, `g`, `b` is the colour `#rrggbb`:
/// each digit is doubled into its channel.
pub proof fn lemma_three_hex_digits_double_each_channel(d: Seq<char>)
    requires
        d.len() == 3,
        forall|i: int| 0 <= i < d.len() ==> #[trigger] hex_digit_value(d[i]) is Some,
    ensures
        color_notation(seq!['#'] + d) == ColorNotationView::Hex(
            Some(
                (0x110000 * hex_digit_value(d[0])->0 + 0x1100 * hex_digit_value(d[1])->0 + 0x11 * hex_digit_value(
                    d[2],
                )->0) as u32,
            ),
        ),
        !color_notation_panics(seq!['#'] + d),
{
    assert forall|i: int| 0 <= i < d.len() implies !is_ws(#[trigger] d[i]) && d[i] != '+' && (d[i] as u32)
        < 0x80 by {
        assert(hex_digit_value(d[i]) is Some);
    }
    lemma_ascii_byte_len(d);
    let text = seq!['#'] + d;
    assert(text.drop_first() =~= d);
    assert(text.last() == d[2]);
    assert(trim_start_by(text, CharClass::Whitespace) == text);
    assert(trim_end_by(text, CharClass::Whitespace) == text);
    assert(trim(text) == text);
    reveal_strlit("#");
    assert(text.take(1) =~= "#"@);
    let e = Seq::<char>::empty();
    assert(d.drop_last().drop_last().drop_last() =~= e);
    assert(d.drop_last().drop_last() =~= seq![d[0]]);
    assert(d.drop_last() =~= seq![d[0], d[1]]);
    let d1 = doubled(seq![d[0]]);
    assert(doubled(e) == e);
    assert(d1 =~= seq![d[0], d[0]]) by {
        assert(seq![d[0]].drop_last() =~= e);
        assert(doubled(seq![d[0]].drop_last()) == doubled(e));
        assert(seq![d[0]].last() == d[0]);
    }
    let d2 = doubled(seq![d[0], d[1]]);
    assert(d2 =~= seq![d[0], d[0], d[1], d[1]]) by {
        assert(seq![d[0], d[1]].drop_last() =~= seq![d[0]]);
        assert(doubled(seq![d[0], d[1]].drop_last()) == d1);
        assert(seq![d[0], d[1]].last() == d[1]);
    }
    let dd = doubled(d);
    assert(doubled(d.drop_last()) == d2);
    assert(d.last() == d[2]);
    assert(dd =~= seq![d[0], d[0], d[1], d[1], d[2], d[2]]);
    let a = hex_digit_value(d[0])->0;
    let b = hex_digit_value(d[1])->0;
    let c = hex_digit_value(d[2])->0;
    lemma_hex_digits_push(e, d[0]);
    lemma_hex_digits_push(seq![d[0]], d[0]);
    lemma_hex_digits_push(seq![d[0], d[0]], d[1]);
    lemma_hex_digits_push(seq![d[0], d[0], d[1]], d[1]);
    lemma_hex_digits_push(seq![d[0], d[0], d[1], d[1]], d[2]);
    lemma_hex_digits_push(seq![d[0], d[0], d[1], d[1], d[2]], d[2]);
    assert(seq![d[0]] =~= e.push(d[0]));
    assert(seq![d[0], d[0]] =~= seq![d[0]].push(d[0]));
    assert(seq![d[0], d[0], d[1]] =~= seq![d[0], d[0]].push(d[1]));
    assert(seq![d[0], d[0], d[1], d[1]] =~= seq![d[0], d[0], d[1]].push(d[1]));
    assert(seq![d[0], d[0], d[1], d[1], d[2]] =~= seq![d[0], d[0], d[1], d[1]].push(d[2]));
    assert(dd =~= seq![d[0], d[0], d[1], d[1], d[2]].push(d[2]));
    assert(hex_digits_value(dd) == Some(((((a * 16 + a) * 16 + b) * 16 + b) * 16 + c) * 16 + c));
    assert(a < 16 && b < 16 && c < 16);
    assert(dd[0] == d[0]);
}

/// `#` and eight hexadecimal digits is the colour of the first six: the
/// alpha pair is ignored.
pub proof fn lemma_eight_hex_digits_ignore_alpha(d: Seq<char>)
    requires
        d.len() == 8,
        forall|i: int| 0 <= i < d.len() ==> #[trigger] hex_digit_value(d[i]) is Some,
    ensures
        !color_notation_panics(seq!['#'] + d),
        color_notation(seq!['#'] + d) == color_notation(seq!['#'] + d.take(6)),
        color_notation(seq!['#'] + d) == ColorNotationView::Hex(Some(hex_digits_value(d.take(6))->0 as u32)),
{
    assert forall|i: int| 0 <= i < d.len() implies !is_ws(#[trigger] d[i]) && d[i] != '+' && (d[i] as u32)
        < 0x80 by {
        assert(hex_digit_value(d[i]) is Some);
    }
    lemma_ascii_byte_len(d);
    let six = d.take(6);
    assert forall|i: int| 0 <= i < six.len() implies #[trigger] hex_digit_value(six[i]) is Some by {
        assert(six[i] == d[i]);
    }
    assert forall|i: int| 0 <= i < six.len() implies ((#[trigger] six[i]) as u32) < 0x80 by {
        assert(six[i] == d[i]);
    }
    lemma_ascii_byte_len(six);
    lemma_six_hex_digits_are_a_colour(six);
    assert(boundary_index(d, 6) == Some(6int)) by {
        assert(byte_len(d.take(6)) == 6);
        let k = choose|k: int| 0 <= k <= d.len() && byte_len(d.take(k)) == 6;
        crate::text::lemma_boundary_unique(d, k, 6);
    }
    let text = seq!['#'] + d;
    assert(text.drop_first() =~= d);
    assert(text.last() == d[7]);
    assert(trim_start_by(text, CharClass::Whitespace) == text);
    assert(trim_end_by(text, CharClass::Whitespace) == text);
    assert(trim(text) == text);
    reveal_strlit("#");
    assert(text.take(1) =~= "#"@);
    assert(six[0] != '+');
}

/// A text without the separator is one piece.
proof fn lemma_split_without_separator(a: Seq<char>, c: char)
    requires
        !a.contains(c),
    ensures
        split_char(a, c) == seq![a],
    decreases a.len(),
{
    if a.len() > 0 {
        assert(!a.drop_last().contains(c)) by {
            if a.drop_last().contains(c) {
                let k = choose|k: int| 0 <= k < a.drop_last().len() && a.drop_last()[k] == c;
                assert(a[k] == c);
            }
        }
        lemma_split_without_separator(a.drop_last(), c);
        assert(a.last() == a[a.len() - 1]);
        assert(a.last() != c);
        assert(!crate::text::in_class(CharClass::Exactly(c), a.last()));
        assert(a.drop_last().push(a.last()) =~= a);
        let rest = split_char(a.drop_last(), c);
        assert(split_char(a, c) == rest.drop_last().push(rest.last().push(a.last())));
        assert(split_char(a, c) =~= seq![a]);
    } else {
        assert(a =~= Seq::<char>::empty());
    }
}

/// Splitting at a separator between two texts: the pieces of the first, with
/// the pieces of the second after it.
proof fn lemma_split_at_separator(a: Seq<char>, b: Seq<char>, c: char)
    ensures
        split_char(a + seq![c] + b, c) == split_char(a, c) + split_char(b, c),
    decreases b.len(),
{
    crate::text::lemma_split_nonempty(b, CharClass::Exactly(c));
    let ab = a + seq![c] + b;
    if b.len() == 0 {
        assert(ab.drop_last() =~= a);
        assert(ab.last() == c);
        assert(split_char(b, c) =~= seq![Seq::<char>::empty()]);
    } else {
        let b0 = b.drop_last();
        lemma_split_at_separator(a, b0, c);
        assert(ab.drop_last() =~= a + seq![c] + b0);
        assert(ab.last() == b.last());
        crate::text::lemma_split_nonempty(b0, CharClass::Exactly(c));
        let rest = split_char(a, c) + split_char(b0, c);
        assert(split_char(ab.drop_last(), c) == rest);
        if b.last() == c {
            assert(split_char(ab, c) == rest.push(Seq::<char>::empty()));
            assert(split_char(b, c) == split_char(b0, c).push(Seq::<char>::empty()));
            assert(split_char(ab, c) =~= split_char(a, c) + split_char(b, c));
        } else {
            let sb0 = split_char(b0, c);
            assert(rest.last() == sb0.last());
            assert(rest.drop_last() =~= split_char(a, c) + sb0.drop_last());
            assert(split_char(ab, c) == rest.drop_last().push(rest.last().push(b.last())));
            assert(split_char(b, c) == sb0.drop_last().push(sb0.last().push(b.last())));
            assert(split_char(ab, c) =~= split_char(a, c) + split_char(b, c));
        }
    }
}

/// `rgb(r, g, b)` gives its three channel texts, trimmed, in order: red from
/// the first argument, green from the second, blue from the third.
pub proof fn lemma_rgb_channels_in_order(r: Seq<char>, g: Seq<char>, b: Seq<char>)
    requires
        !r.contains(',') && !r.contains('(') && !r.contains(')'),
        !g.contains(',') && !g.contains('(') && !g.contains(')'),
        !b.contains(',') && !b.contains('(') && !b.contains(')'),
    ensures
        ({
            let v = seq!['r', 'g', 'b', '('] + r + seq![','] + g + seq![','] + b + seq![')'];
            &&& !color_notation_panics(v)
            &&& color_notation(v) == ColorNotationView::Rgb(trim(r), trim(g), trim(b))
        }),
{
    let args = r + seq![','] + g + seq![','] + b;
    let v = seq!['r', 'g', 'b', '('] + args + seq![')'];
    assert(v =~= seq!['r', 'g', 'b', '('] + r + seq![','] + g + seq![','] + b + seq![')']);
    let n = v.len() as int;
    assert(v[0] == 'r' && v[1] == 'g' && v[2] == 'b' && v[3] == '(' && v[n - 1] == ')');
    assert(v.last() == ')');
    assert(trim_start_by(v, CharClass::Whitespace) == v);
    assert(trim_end_by(v, CharClass::Whitespace) == v);
    assert(trim(v) == v);
    reveal_strlit("#");
    reveal_strlit("rgb(");
    assert(!has_prefix(v, "#"@)) by {
        if has_prefix(v, "#"@) {
            assert(v.take(1)[0] == "#"@[0]);
        }
    }
    assert(ascii_lower_seq(v).take(4) =~= "rgb("@);
    assert(has_prefix(ascii_lower_seq(v), "rgb("@));
    // The first `(` is the one after `rgb`; the last `)` closes the list.
    assert forall|k: int| 4 <= k < n - 1 implies v[k] != '(' && v[k] != ')' && v[k] == args[k - 4] by {
        assert(v[k] == args[k - 4]);
        let j = k - 4;
        if j < r.len() {
            assert(args[j] == r[j]);
        } else if j == r.len() {
        } else if j < r.len() + 1 + g.len() {
            assert(args[j] == g[j - r.len() - 1]);
        } else if j == r.len() + 1 + g.len() {
        } else {
            assert(args[j] == b[j - r.len() - 2 - g.len()]);
        }
    }
    assert(v.contains('('));
    let start = choose|i: int| 0 <= i < v.len() && v[i] == '(' && forall|j: int| 0 <= j < i ==> v[j] != '(';
    assert(0 <= 3 < v.len() && v[3] == '(' && forall|j: int| 0 <= j < 3 ==> v[j] != '(');
    assert(start == 3) by {
        if start > 3 {
            assert(v[3] != '(');
        } else if start < 3 {
            assert(v[start] != '(');
        }
    }
    reveal(last_index_of);
    assert(v.contains(')'));
    let end = last_index_of(v, ')')->0;
    assert(0 <= n - 1 < v.len() && v[n - 1] == ')' && forall|j: int| n - 1 < j < v.len() ==> v[j] != ')');
    assert(end == n - 1) by {
        if end < n - 1 {
            assert(v[n - 1] != ')');
        }
    }
    assert(rgb_arguments(v) == Some(v.subrange(4, n - 1)));
    assert(v.subrange(4, n - 1) =~= args);
    lemma_split_without_separator(r, ',');
    lemma_split_without_separator(g, ',');
    lemma_split_without_separator(b, ',');
    lemma_split_at_separator(g, b, ',');
    lemma_split_at_separator(r, g + seq![','] + b, ',');
    assert(r + seq![','] + (g + seq![','] + b) =~= args);
    let parts = split_char(args, ',');
    assert(parts =~= seq![r, g, b]);
}

/// A setting that, once trimmed, neither starts with `#` nor (ignoring ASCII
/// case) with `rgb(` or `rgba(` is not a colour notation; a `#` body whose
/// byte length is not 3, 6 or 8 gives no colour.
pub proof fn lemma_other_notations_are_not_colours(value: Seq<char>)
    ensures
        !has_prefix(trim(value), "#"@) && !has_prefix(ascii_lower_seq(trim(value)), "rgb("@) && !has_prefix(
            ascii_lower_seq(trim(value)),
            "rgba("@,
        ) ==> color_notation(value) == ColorNotationView::Unrecognized,
        has_prefix(trim(value), "#"@) && byte_len(trim(value).drop_first()) != 3 && byte_len(trim(value).drop_first())
            != 6 && byte_len(trim(value).drop_first()) != 8 ==> color_notation(value) == ColorNotationView::Hex(None),
{
}

/// A formatted colour is read back by the colour notation as its low 24 bits.
pub proof fn lemma_formatted_colour_notation(color: u32)
    ensures
        color_notation(hex_color_text(color)) == ColorNotationView::Hex(Some((color % 0x1000000) as u32)),
{
    let n = (color % 0x1000000) as nat;
    let h = hex_fixed(n, 6);
    lemma_hex_fixed_value(n, 6);
    assert forall|i: int| 0 <= i < h.len() implies #[trigger] hex_digit_value(h[i]) is Some by {
        let c = hex_fixed(n, 6)[i];
    }
    lemma_six_hex_digits_are_a_colour(h);
    assert(pow16(6) == 0x1000000) by {
        reveal_with_fuel(pow16, 7);
    }
    assert(hex_color_text(color) =~= seq!['#'] + h);
}

/// An all-ASCII sequence takes one byte per character.
proof fn lemma_ascii_byte_len(s: Seq<char>)
    requires
        forall|i: int| 0 <= i < s.len() ==> (s[i] as u32) < 0x80,
    ensures
        byte_len(s) == s.len(),
    decreases s.len(),
{
    if s.len() > 0 {
        lemma_ascii_byte_len(s.drop_last());
    }
}

/// The upper-case mapping of one character (`char::to_uppercase`), which
/// may be several characters.
pub uninterp spec fn char_uppercase(c: char) -> Seq<char>;

/// `char::to_uppercase`: the upper-case mapping of one character; ASCII
/// letters `a` to `z` map to `A` to `Z` and other ASCII characters to themselves.
#[verifier::external_body]
fn uppercase_chars(c: char) -> (r: Vec<char>)
    ensures
        r@ == char_uppercase(c),
        (c as u32) < 0x80 ==> r@ == seq![crate::text::ascii_upper(c)],
{
    c.to_uppercase().collect()
}

/// A word with its first character upper-cased.
pub open spec fn capitalized(w: Seq<char>) -> Seq<char> {
    if w.len() == 0 {
        w
    } else {
        char_uppercase(w[0]) + w.drop_first()
    }
}

/// The display name of a theme identifier: the words between `-` and `_`,
/// each capitalised, joined by spaces.
pub open spec fn theme_display_name_text(id: Seq<char>) -> Seq<char> {
    joined(
        non_empty(split_by(id, CharClass::Either('-', '_'))).map_values(|w: Seq<char>| capitalized(w)),
        " "@,
    )
}

/// The display name of a theme identifier (`one-dark_pro` becomes `One Dark Pro`).
pub fn theme_display_name(id: &str) -> (r: String)
    ensures
        r@ == theme_display_name_text(id@),
{
    let c = chars_of(id);
    let parts = split_class(&c, CharClass::Either('-', '_'));
    let mut out: Vec<char> = Vec::new();
    let mut count: usize = 0;
    let mut i: usize = 0;
    assert(non_empty(pieces(parts@).take(0)) =~= Seq::<Seq<char>>::empty());
    while i < parts.len()
        invariant
            i <= parts@.len(),
            pieces(parts@) == split_by(id@, CharClass::Either('-', '_')),
            count == non_empty(pieces(parts@).take(i as int)).len(),
            count <= i,
            out@ == joined(
                non_empty(pieces(parts@).take(i as int)).map_values(|w: Seq<char>| capitalized(w)),
                " "@,
            ),
        decreases parts.len() - i,
    {
        let ghost before = non_empty(pieces(parts@).take(i as int));
        let ghost t = pieces(parts@).take(i as int + 1);
        assert(t.drop_last() =~= pieces(parts@).take(i as int));
        assert(t.last() == parts@[i as int]@);
        let w = &parts[i];
        if w.len() > 0 {
            if count > 0 {
                let sp = chars_of(" ");
                extend_chars(&mut out, &sp);
            }
            count = count + 1;
            let up = uppercase_chars(w[0]);
            extend_chars(&mut out, &up);
            let rest = copy_range(w, 1, w.len());
            extend_chars(&mut out, &rest);
            proof {
                assert(rest@ =~= w@.drop_first());
                let after = non_empty(t);
                assert(after == before.push(w@));
                let m_after = after.map_values(|x: Seq<char>| capitalized(x));
                let m_before = before.map_values(|x: Seq<char>| capitalized(x));
                assert(m_after =~= m_before.push(capitalized(w@)));
                assert(m_after.drop_last() =~= m_before);
                if before.len() == 0 {
                    assert(m_after =~= seq![capitalized(w@)]);
                    assert(out@ =~= joined(m_after, " "@));
                } else {
                    assert(out@ =~= joined(m_before, " "@) + " "@ + capitalized(w@));
                }
            }
        } else {
            assert(non_empty(t) == before);
        }
        i += 1;
    }
    assert(pieces(parts@).take(parts@.len() as int) =~= pieces(parts@));
    string_from_chars(&out)
}


/// The interface colours of a theme, as `0xrrggbb`.
#[derive(Clone, Copy, Debug, PartialEq, Eq, Structural)]
pub struct AppUiColors {
    pub bg: u32,
    pub bg_panel: u32,
    pub bg_card: u32,
    pub bg_hover: u32,
    pub bg_active: u32,
    pub bg_secondary: u32,
    pub bg_elevated: u32,
    pub bg_sunken: u32,
    pub text: u32,
    pub text_muted: u32,
    pub text_secondary: u32,
    pub text_heading: u32,
    pub border: u32,
    pub border_strong: u32,
    pub divider: u32,
    pub accent: u32,
    pub accent_hover: u32,
    pub accent_text: u32,
    pub accent_secondary: u32,
    pub success: u32,
    pub warning: u32,
    pub error: u32,
    pub info: u32,
}

/// The terminal palette of a theme, as `0xrrggbb`, with the selection
/// colour kept as CSS text.
#[derive(Clone, Copy, Debug, PartialEq, Eq)]
pub struct TerminalTheme {
    pub background: u32,
    pub foreground: u32,
    pub cursor: u32,
    pub selection_background: &'static str,
    pub black: u32,
    pub red: u32,
    pub green: u32,
    pub yellow: u32,
    pub blue: u32,
    pub magenta: u32,
    pub cyan: u32,
    pub white: u32,
    pub bright_black: u32,
    pub bright_red: u32,
    pub bright_green: u32,
    pub bright_yellow: u32,
    pub bright_blue: u32,
    pub bright_magenta: u32,
    pub bright_cyan: u32,
    pub bright_white: u32,
}

/// The interface colours read from a custom theme, each `None` where its
/// key is missing or holds no colour.
#[derive(Clone, Copy, Debug, PartialEq, Eq, Structural)]
pub struct DecodedUiColors {
    pub bg: Option<u32>,
    pub bg_panel: Option<u32>,
    pub bg_card: Option<u32>,
    pub bg_hover: Option<u32>,
    pub bg_active: Option<u32>,
    pub bg_secondary: Option<u32>,
    pub bg_elevated: Option<u32>,
    pub bg_sunken: Option<u32>,
    pub text: Option<u32>,
    pub text_muted: Option<u32>,
    pub text_secondary: Option<u32>,
    pub text_heading: Option<u32>,
    pub border: Option<u32>,
    pub border_strong: Option<u32>,
    pub divider: Option<u32>,
    pub accent: Option<u32>,
    pub accent_hover: Option<u32>,
    pub accent_text: Option<u32>,
    pub accent_secondary: Option<u32>,
    pub success: Option<u32>,
    pub warning: Option<u32>,
    pub error: Option<u32>,
    pub info: Option<u32>,
}

/// The terminal colours read from a custom theme, each `None` where its key
/// is missing or holds no colour; the selection colour as `#rrggbb` text.
#[derive(Clone, Copy, Debug, PartialEq, Eq)]
pub struct DecodedTerminalColors {
    pub background: Option<u32>,
    pub foreground: Option<u32>,
    pub cursor: Option<u32>,
    pub selection_background: Option<&'static str>,
    pub black: Option<u32>,
    pub red: Option<u32>,
    pub green: Option<u32>,
    pub yellow: Option<u32>,
    pub blue: Option<u32>,
    pub magenta: Option<u32>,
    pub cyan: Option<u32>,
    pub white: Option<u32>,
    pub bright_black: Option<u32>,
    pub bright_red: Option<u32>,
    pub bright_green: Option<u32>,
    pub bright_yellow: Option<u32>,
    pub bright_blue: Option<u32>,
    pub bright_magenta: Option<u32>,
    pub bright_cyan: Option<u32>,
    pub bright_white: Option<u32>,
}

/// The heading colour when neither the heading nor the text colour is set.
pub const DEFAULT_TEXT_HEADING: u32 = 0xdbeafe;

/// The interface colours of a custom theme: every colour but the heading is
/// required; the heading falls back to the text colour, then to
/// `DEFAULT_TEXT_HEADING`.
pub open spec fn ui_colors_of(d: DecodedUiColors) -> Option<AppUiColors> {
    if d.bg is Some
        && d.bg_panel is Some
        && d.bg_card is Some
        && d.bg_hover is Some
        && d.bg_active is Some
        && d.bg_secondary is Some
        && d.bg_elevated is Some
        && d.bg_sunken is Some
        && d.text is Some
        && d.text_muted is Some
        && d.text_secondary is Some
        && d.border is Some
        && d.border_strong is Some
        && d.divider is Some
        && d.accent is Some
        && d.accent_hover is Some
        && d.accent_text is Some
        && d.accent_secondary is Some
        && d.success is Some
        && d.warning is Some
        && d.error is Some
        && d.info is Some {
        Some(AppUiColors {
            bg: d.bg->0,
            bg_panel: d.bg_panel->0,
            bg_card: d.bg_card->0,
            bg_hover: d.bg_hover->0,
            bg_active: d.bg_active->0,
            bg_secondary: d.bg_secondary->0,
            bg_elevated: d.bg_elevated->0,
            bg_sunken: d.bg_sunken->0,
            text: d.text->0,
            text_muted: d.text_muted->0,
            text_secondary: d.text_secondary->0,
            text_heading: match d.text_heading {
                Some(c) => c,
                None => match d.text {
                    Some(c) => c,
                    None => DEFAULT_TEXT_HEADING,
                },
            },
            border: d.border->0,
            border_strong: d.border_strong->0,
            divider: d.divider->0,
            accent: d.accent->0,
            accent_hover: d.accent_hover->0,
            accent_text: d.accent_text->0,
            accent_secondary: d.accent_secondary->0,
            success: d.success->0,
            warning: d.warning->0,
            error: d.error->0,
            info: d.info->0,
        })
    } else {
        None
    }
}

/// The terminal palette of a custom theme: every colour is required.
pub open spec fn terminal_theme_of(d: DecodedTerminalColors) -> Option<TerminalTheme> {
    if d.background is Some
        && d.foreground is Some
        && d.cursor is Some
        && d.selection_background is Some
        && d.black is Some
        && d.red is Some
        && d.green is Some
        && d.yellow is Some
        && d.blue is Some
        && d.magenta is Some
        && d.cyan is Some
        && d.white is Some
        && d.bright_black is Some
        && d.bright_red is Some
        && d.bright_green is Some
        && d.bright_yellow is Some
        && d.bright_blue is Some
        && d.bright_magenta is Some
        && d.bright_cyan is Some
        && d.bright_white is Some {
        Some(TerminalTheme {
            background: d.background->0,
            foreground: d.foreground->0,
            cursor: d.cursor->0,
            selection_background: d.selection_background->0,
            black: d.black->0,
            red: d.red->0,
            green: d.green->0,
            yellow: d.yellow->0,
            blue: d.blue->0,
            magenta: d.magenta->0,
            cyan: d.cyan->0,
            white: d.white->0,
            bright_black: d.bright_black->0,
            bright_red: d.bright_red->0,
            bright_green: d.bright_green->0,
            bright_yellow: d.bright_yellow->0,
            bright_blue: d.bright_blue->0,
            bright_magenta: d.bright_magenta->0,
            bright_cyan: d.bright_cyan->0,
            bright_white: d.bright_white->0,
        })
    } else {
        None
    }
}

/// Assembles the interface colours of a custom theme (see `ui_colors_of`).
pub fn app_ui_colors_from_decoded(d: DecodedUiColors) -> (r: Option<AppUiColors>)
    ensures
        r == ui_colors_of(d),
{
    let bg = match d.bg {
        Some(c) => c,
        None => {
            return None;
        },
    };
    let bg_panel = match d.bg_panel {
        Some(c) => c,
        None => {
            return None;
        },
    };
    let bg_card = match d.bg_card {
        Some(c) => c,
        None => {
            return None;
        },
    };
    let bg_hover = match d.bg_hover {
        Some(c) => c,
        None => {
            return None;
        },
    };
    let bg_active = match d.bg_active {
        Some(c) => c,
        None => {
            return None;
        },
    };
    let bg_secondary = match d.bg_secondary {
        Some(c) => c,
        None => {
            return None;
        },
    };
    let bg_elevated = match d.bg_elevated {
        Some(c) => c,
        None => {
            return None;
        },
    };
    let bg_sunken = match d.bg_sunken {
        Some(c) => c,
        None => {
            return None;
        },
    };
    let text = match d.text {
        Some(c) => c,
        None => {
            return None;
        },
    };
    let text_muted = match d.text_muted {
        Some(c) => c,
        None => {
            return None;
        },
    };
    let text_secondary = match d.text_secondary {
        Some(c) => c,
        None => {
            return None;
        },
    };
    let border = match d.border {
        Some(c) => c,
        None => {
            return None;
        },
    };
    let border_strong = match d.border_strong {
        Some(c) => c,
        None => {
            return None;
        },
    };
    let divider = match d.divider {
        Some(c) => c,
        None => {
            return None;
        },
    };
    let accent = match d.accent {
        Some(c) => c,
        None => {
            return None;
        },
    };
    let accent_hover = match d.accent_hover {
        Some(c) => c,
        None => {
            return None;
        },
    };
    let accent_text = match d.accent_text {
        Some(c) => c,
        None => {
            return None;
        },
    };
    let accent_secondary = match d.accent_secondary {
        Some(c) => c,
        None => {
            return None;
        },
    };
    let success = match d.success {
        Some(c) => c,
        None => {
            return None;
        },
    };
    let warning = match d.warning {
        Some(c) => c,
        None => {
            return None;
        },
    };
    let error = match d.error {
        Some(c) => c,
        None => {
            return None;
        },
    };
    let info = match d.info {
        Some(c) => c,
        None => {
            return None;
        },
    };
    let text_heading = match d.text_heading {
        Some(c) => c,
        None => text,
    };
    Some(AppUiColors {
        bg,
        bg_panel,
        bg_card,
        bg_hover,
        bg_active,
        bg_secondary,
        bg_elevated,
        bg_sunken,
        text,
        text_muted,
        text_secondary,
        text_heading,
        border,
        border_strong,
        divider,
        accent,
        accent_hover,
        accent_text,
        accent_secondary,
        success,
        warning,
        error,
        info,
    })
}

/// Assembles the terminal palette of a custom theme (see `terminal_theme_of`).
pub fn terminal_theme_from_decoded(d: DecodedTerminalColors) -> (r: Option<TerminalTheme>)
    ensures
        r == terminal_theme_of(d),
{
    let background: u32 = match d.background {
        Some(c) => c,
        None => {
            return None;
        },
    };
    let foreground: u32 = match d.foreground {
        Some(c) => c,
        None => {
            return None;
        },
    };
    let cursor: u32 = match d.cursor {
        Some(c) => c,
        None => {
            return None;
        },
    };
    let selection_background: &'static str = match d.selection_background {
        Some(c) => c,
        None => {
            return None;
        },
    };
    let black: u32 = match d.black {
        Some(c) => c,
        None => {
            return None;
        },
    };
    let red: u32 = match d.red {
        Some(c) => c,
        None => {
            return None;
        },
    };
    let green: u32 = match d.green {
        Some(c) => c,
        None => {
            return None;
        },
    };
    let yellow: u32 = match d.yellow {
        Some(c) => c,
        None => {
            return None;
        },
    };
    let blue: u32 = match d.blue {
        Some(c) => c,
        None => {
            return None;
        },
    };
    let magenta: u32 = match d.magenta {
        Some(c) => c,
        None => {
            return None;
        },
    };
    let cyan: u32 = match d.cyan {
        Some(c) => c,
        None => {
            return None;
        },
    };
    let white: u32 = match d.white {
        Some(c) => c,
        None => {
            return None;
        },
    };
    let bright_black: u32 = match d.bright_black {
        Some(c) => c,
        None => {
            return None;
        },
    };
    let bright_red: u32 = match d.bright_red {
        Some(c) => c,
        None => {
            return None;
        },
    };
    let bright_green: u32 = match d.bright_green {
        Some(c) => c,
        None => {
            return None;
        },
    };
    let bright_yellow: u32 = match d.bright_yellow {
        Some(c) => c,
        None => {
            return None;
        },
    };
    let bright_blue: u32 = match d.bright_blue {
        Some(c) => c,
        None => {
            return None;
        },
    };
    let bright_magenta: u32 = match d.bright_magenta {
        Some(c) => c,
        None => {
            return None;
        },
    };
    let bright_cyan: u32 = match d.bright_cyan {
        Some(c) => c,
        None => {
            return None;
        },
    };
    let bright_white: u32 = match d.bright_white {
        Some(c) => c,
        None => {
            return None;
        },
    };
    Some(TerminalTheme {
        background,
        foreground,
        cursor,
        selection_background,
        black,
        red,
        green,
        yellow,
        blue,
        magenta,
        cyan,
        white,
        bright_black,
        bright_red,
        bright_green,
        bright_yellow,
        bright_blue,
        bright_magenta,
        bright_cyan,
        bright_white,
    })
}

/// The palette and interface colours of a stored theme, given its identifier
/// and the colours read from its `terminalColors` and `uiColors` objects
/// (`None` where the theme or the object is missing).
pub open spec fn custom_theme_colors(
    id: Seq<char>,
    terminal: Option<DecodedTerminalColors>,
    ui: Option<DecodedUiColors>,
) -> Option<(TerminalTheme, AppUiColors)> {
    if !has_prefix(id, CUSTOM_THEME_PREFIX@) {
        None
    } else {
        match (terminal, ui) {
            (Some(t), Some(u)) => match (terminal_theme_of(t), ui_colors_of(u)) {
                (Some(a), Some(b)) => Some((a, b)),
                _ => None,
            },
            _ => None,
        }
    }
}

/// The terminal palette and interface colours of a `custom:*` theme; any
/// other identifier has none.
pub fn custom_theme_terminal_and_ui(
    id: &str,
    terminal: Option<DecodedTerminalColors>,
    ui: Option<DecodedUiColors>,
) -> (r: Option<(TerminalTheme, AppUiColors)>)
    ensures
        r == custom_theme_colors(id@, terminal, ui),
{
    if !is_custom_theme_id(id) {
        return None;
    }
    let t = match terminal {
        Some(t) => t,
        None => {
            return None;
        },
    };
    let u = match ui {
        Some(u) => u,
        None => {
            return None;
        },
    };
    match (terminal_theme_from_decoded(t), app_ui_colors_from_decoded(u)) {
        (Some(a), Some(b)) => Some((a, b)),
        _ => None,
    }
}

/// The interface colours a built-in theme sets over the derived ones: the
/// default palette, registered as `neutral`, fixes sixteen of them.
pub open spec fn builtin_ui_overrides(theme_id: Seq<char>, ui: AppUiColors) -> AppUiColors {
    if theme_id == "neutral"@ {
        AppUiColors {
            bg: 0x09090b,
            bg_panel: 0x18181b,
            bg_card: 0x1e1e22,
            bg_hover: 0x27272a,
            bg_elevated: 0x1f1f23,
            bg_sunken: 0x050506,
            border: 0x2e2e33,
            border_strong: 0x3f3f46,
            text: 0xf4f4f5,
            text_muted: 0xa1a1aa,
            text_heading: 0xfafafa,
            accent: 0xea580c,
            accent_hover: 0xc2410c,
            success: 0x22c55e,
            warning: 0xeab308,
            error: 0xef4444,
            ..ui
        }
    } else {
        ui
    }
}

/// Applies a built-in theme's interface colour overrides.
pub fn apply_builtin_ui_overrides(theme_id: &str, ui: AppUiColors) -> (r: AppUiColors)
    ensures
        r == builtin_ui_overrides(theme_id@, ui),
{
    let mut ui = ui;
    if crate::text::str_eq(theme_id, "neutral") {
        ui.bg = 0x09090b;
        ui.bg_panel = 0x18181b;
        ui.bg_card = 0x1e1e22;
        ui.bg_hover = 0x27272a;
        ui.bg_elevated = 0x1f1f23;
        ui.bg_sunken = 0x050506;
        ui.border = 0x2e2e33;
        ui.border_strong = 0x3f3f46;
        ui.text = 0xf4f4f5;
        ui.text_muted = 0xa1a1aa;
        ui.text_heading = 0xfafafa;
        ui.accent = 0xea580c;
        ui.accent_hover = 0xc2410c;
        ui.success = 0x22c55e;
        ui.warning = 0xeab308;
        ui.error = 0xef4444;
    }
    ui
}

}

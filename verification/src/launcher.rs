//! Launcher models and the decoding and parsing of `wsl.exe` output.
use vstd::prelude::*;
use vstd::utf8::{decode_utf8, encode_scalar, encode_utf8, valid_utf8};

use crate::text::{
    ascii_lower_seq, chars_of, eq_ignore_ascii_case, has_prefix, lines, pieces, split_lines,
    split_whitespace, starts_with, string_from_chars, trim, trim_start_char, trim_start_matches,
    trim_ws, words,
};

verus! {

/// One launchable application.
#[derive(Clone, Debug, Eq, PartialEq)]
pub struct LauncherAppEntry {
    pub name: String,
    pub path: String,
    pub bundle_id: Option<String>,
    pub icon_path: Option<String>,
}

/// The applications a platform scan found.
#[derive(Clone, Debug, Eq, PartialEq)]
pub struct LauncherListResponse {
    pub apps: Vec<LauncherAppEntry>,
    pub icon_dir: Option<String>,
}

/// One registered WSL distribution as reported by `wsl.exe --list --verbose`.
#[derive(Clone, Debug, Eq, PartialEq)]
pub struct WslDistro {
    pub name: String,
    pub is_default: bool,
    pub is_running: bool,
}

/// Everything the launcher shows: applications and WSL distributions.
#[derive(Clone, Debug, Default, Eq, PartialEq)]
pub struct LauncherLoadResponse {
    pub apps: Vec<LauncherAppEntry>,
    pub icon_dir: Option<String>,
    pub wsl_distros: Vec<WslDistro>,
}

impl LauncherLoadResponse {
    /// A load response with the scanned applications and no distributions.
    pub fn from_list(response: LauncherListResponse) -> (r: Self)
        ensures
            r.apps == response.apps,
            r.icon_dir == response.icon_dir,
            r.wsl_distros@.len() == 0,
    {
        LauncherLoadResponse { apps: response.apps, icon_dir: response.icon_dir, wsl_distros: Vec::new() }
    }
}

/// The content of a `WslDistro`.
pub ghost struct WslDistroView {
    pub name: Seq<char>,
    pub is_default: bool,
    pub is_running: bool,
}

impl View for WslDistro {
    type V = WslDistroView;

    open spec fn view(&self) -> WslDistroView {
        WslDistroView { name: self.name@, is_default: self.is_default, is_running: self.is_running }
    }
}

// ---------------------------------------------------------------------------
// UTF-16
// ---------------------------------------------------------------------------

/// The little-endian 16-bit units of a byte sequence; an odd last byte is dropped.
pub open spec fn le_units(data: Seq<u8>) -> Seq<u16> {
    Seq::new(data.len() / 2, |i: int| (data[2 * i] as u16 + 256 * (data[2 * i + 1] as u16)) as u16)
}

/// A surrogate code unit.
pub open spec fn is_surrogate(u: u16) -> bool {
    0xD800 <= u && u <= 0xDFFF
}

/// The characters `char::decode_utf16` yields for a unit sequence, with the
/// unpaired surrogates (its errors) left out.
pub open spec fn utf16_chars(units: Seq<u16>) -> Seq<char>
    decreases units.len(),
{
    if units.len() == 0 {
        Seq::<char>::empty()
    } else {
        let u = units[0];
        if !is_surrogate(u) {
            seq![(u as u32) as char] + utf16_chars(units.drop_first())
        } else if u <= 0xDBFF && units.len() >= 2 && 0xDC00 <= units[1] && units[1] <= 0xDFFF {
            seq![
                (0x10000 + (u - 0xD800) * 1024 + (units[1] - 0xDC00)) as u32 as char,
            ] + utf16_chars(units.skip(2))
        } else {
            utf16_chars(units.drop_first())
        }
    }
}

/// The characters of `s` other than NUL.
pub open spec fn without_nul(s: Seq<char>) -> Seq<char>
    decreases s.len(),
{
    if s.len() == 0 {
        s
    } else if s[0] == '\0' {
        without_nul(s.drop_first())
    } else {
        seq![s[0]] + without_nul(s.drop_first())
    }
}

/// Text decoded from UTF-16LE bytes: unpaired surrogates and NULs dropped.
pub open spec fn utf16le_text(data: Seq<u8>) -> Seq<char> {
    without_nul(utf16_chars(le_units(data)))
}

/// `char::from_u32`: the character with a code point, if it is a Unicode scalar value.
#[verifier::external_body]
fn char_from_u32(u: u32) -> (r: Option<char>)
    ensures
        match r {
            Some(c) => c == u as char && (u < 0xD800 || (0xE000 <= u && u <= 0x10FFFF)),
            None => !(u < 0xD800 || (0xE000 <= u && u <= 0x10FFFF)),
        },
{
    char::from_u32(u)
}

/// The code point of a scalar value as a character.
fn scalar_char(u: u32) -> (c: char)
    requires
        u < 0xD800 || (0xE000 <= u && u <= 0x10FFFF),
    ensures
        c == u as char,
{
    match char_from_u32(u) {
        Some(c) => c,
        None => {
            assert(false);
            ' '
        },
    }
}

/// Decodes the UTF-16 units `units[i..]`, appending non-NUL characters.
fn decode_units(units: &[u16]) -> (r: Vec<char>)
    ensures
        r@ == without_nul(utf16_chars(units@)),
{
    let mut out: Vec<char> = Vec::new();
    let mut i: usize = 0;
    assert(units@.skip(0) =~= units@);
    assert(without_nul(utf16_chars(units@)) =~= out@ + without_nul(utf16_chars(units@.skip(0))));
    while i < units.len()
        invariant
            i <= units@.len(),
            without_nul(utf16_chars(units@)) == out@ + without_nul(utf16_chars(units@.skip(i as int))),
        decreases units.len() - i,
    {
        let ghost rest = units@.skip(i as int);
        let u = units[i];
        assert(rest[0] == u);
        let c: Option<char>;
        let step: usize;
        if u < 0xD800 || u > 0xDFFF {
            c = Some(scalar_char(u as u32));
            step = 1;
            assert(rest.drop_first() =~= units@.skip(i + 1));
        } else if u <= 0xDBFF && i + 1 < units.len() && 0xDC00 <= units[i + 1] && units[i + 1] <= 0xDFFF {
            let lo = units[i + 1];
            assert(rest[1] == lo);
            let cp: u32 = 0x10000 + ((u - 0xD800) as u32) * 1024 + ((lo - 0xDC00) as u32);
            c = Some(scalar_char(cp));
            step = 2;
            assert(rest.skip(2) =~= units@.skip(i + 2));
        } else {
            c = None;
            step = 1;
            assert(rest.drop_first() =~= units@.skip(i + 1));
        }
        let ghost decoded = utf16_chars(rest);
        let ghost next = units@.skip(i + step);
        match c {
            Some(ch) => {
                assert(decoded == seq![ch] + utf16_chars(next));
                proof {
                    lemma_without_nul_prepend(ch, utf16_chars(next));
                }
                if ch != '\0' {
                    let ghost o = out@;
                    out.push(ch);
                    assert(o + (seq![ch] + without_nul(utf16_chars(next))) =~= out@ + without_nul(
                        utf16_chars(next),
                    ));
                } else {
                    assert(seq![ch] + without_nul(utf16_chars(next)) =~= without_nul(
                        utf16_chars(next),
                    ) || without_nul(seq![ch] + utf16_chars(next)) == without_nul(
                        utf16_chars(next),
                    ));
                }
            },
            None => {
                assert(decoded == utf16_chars(next));
            },
        }
        i += step;
    }
    assert(units@.skip(units@.len() as int) =~= Seq::<u16>::empty());
    assert(out@ + Seq::<char>::empty() =~= out@);
    out
}

/// Dropping NULs from a sequence with one character in front.
proof fn lemma_without_nul_prepend(c: char, s: Seq<char>)
    ensures
        without_nul(seq![c] + s) == if c == '\0' {
            without_nul(s)
        } else {
            seq![c] + without_nul(s)
        },
{
    let t = seq![c] + s;
    assert(t[0] == c);
    assert(t.drop_first() =~= s);
}

/// Decodes UTF-16LE bytes, dropping unpaired surrogates and NUL characters.
pub fn decode_utf16le(data: &[u8]) -> (r: String)
    ensures
        r@ == utf16le_text(data@),
{
    let mut units: Vec<u16> = Vec::new();
    let mut i: usize = 0;
    while i + 1 < data.len()
        invariant
            i % 2 == 0,
            i <= data@.len(),
            units@.len() == i / 2,
            forall|k: int| 0 <= k < units@.len() ==> units@[k] == le_units(data@)[k],
        decreases data.len() - i,
    {
        let u: u16 = data[i] as u16 + 256 * (data[i + 1] as u16);
        units.push(u);
        i += 2;
    }
    assert(units@ =~= le_units(data@));
    let chars = decode_units(&units);
    string_from_chars(&chars)
}

/// `String::from_utf8_lossy`: invalid sequences replaced by U+FFFD.
pub uninterp spec fn utf8_lossy(bytes: Seq<u8>) -> Seq<char>;

/// `String::from_utf8_lossy`; valid UTF-8 is decoded unchanged.
#[verifier::external_body]
fn utf8_lossy_string(bytes: &[u8]) -> (r: String)
    ensures
        r@ == utf8_lossy(bytes@),
        valid_utf8(bytes@) ==> r@ == decode_utf8(bytes@),
{
    String::from_utf8_lossy(bytes).to_string()
}

/// The text of `wsl.exe` output: UTF-16LE after a byte-order mark, UTF-16LE
/// when the second and fourth bytes are zero, otherwise UTF-8 (lossy when
/// the bytes are not valid UTF-8).
pub open spec fn wsl_output_text(raw: Seq<u8>) -> Seq<char> {
    if raw.len() >= 2 && raw[0] == 0xff && raw[1] == 0xfe {
        utf16le_text(raw.skip(2))
    } else if raw.len() >= 4 && raw[1] == 0 && raw[3] == 0 {
        utf16le_text(raw)
    } else if valid_utf8(raw) {
        decode_utf8(raw)
    } else {
        utf8_lossy(raw)
    }
}

/// Decode `wsl.exe` output, which may be UTF-8 or UTF-16LE with or without a BOM.
pub fn decode_wsl_output(raw: &[u8]) -> (r: String)
    ensures
        r@ == wsl_output_text(raw@),
{
    if raw.len() >= 2 && raw[0] == 0xff && raw[1] == 0xfe {
        let mut rest: Vec<u8> = Vec::new();
        let mut i: usize = 2;
        while i < raw.len()
            invariant
                2 <= i <= raw@.len(),
                rest@ == raw@.subrange(2, i as int),
            decreases raw.len() - i,
        {
            rest.push(raw[i]);
            i += 1;
            assert(rest@ =~= raw@.subrange(2, i as int));
        }
        assert(rest@ =~= raw@.skip(2));
        return decode_utf16le(&rest);
    }
    if raw.len() >= 4 && raw[1] == 0x00 && raw[3] == 0x00 {
        return decode_utf16le(raw);
    }
    utf8_lossy_string(raw)
}

/// UTF-16LE output reads the same with or without a byte-order mark in front.
pub proof fn lemma_wsl_bom_is_transparent(data: Seq<u8>)
    requires
        data.len() >= 4,
        data[1] == 0,
        data[3] == 0,
    ensures
        wsl_output_text(seq![0xffu8, 0xfeu8] + data) == wsl_output_text(data),
{
    let with_bom = seq![0xffu8, 0xfeu8] + data;
    assert(with_bom[0] == 0xff && with_bom[1] == 0xfe);
    assert(with_bom.skip(2) =~= data);
}

/// The UTF-16LE bytes of ASCII text: each character, then a zero byte.
pub open spec fn ascii_utf16le(s: Seq<char>) -> Seq<u8>
    decreases s.len(),
{
    if s.len() == 0 {
        Seq::empty()
    } else {
        ascii_utf16le(s.drop_last()).push((s.last() as u32) as u8).push(0u8)
    }
}

/// ASCII text without NUL characters.
pub open spec fn plain_ascii(s: Seq<char>) -> bool {
    forall|i: int| 0 <= i < s.len() ==> 0 < (#[trigger] s[i] as u32) < 0x80
}

/// The code units of UTF-16LE-encoded ASCII text are its characters.
proof fn lemma_ascii_utf16le_units(s: Seq<char>)
    requires
        plain_ascii(s),
    ensures
        ascii_utf16le(s).len() == 2 * s.len(),
        le_units(ascii_utf16le(s)) =~= s.map_values(|c: char| (c as u32) as u16),
    decreases s.len(),
{
    if s.len() > 0 {
        let t = s.drop_last();
        assert(plain_ascii(t)) by {
            assert forall|i: int| 0 <= i < t.len() implies 0 < (#[trigger] t[i] as u32) < 0x80 by {
                assert(t[i] == s[i]);
            }
        }
        lemma_ascii_utf16le_units(t);
        let b = ascii_utf16le(s);
        let bt = ascii_utf16le(t);
        let c = s.last();
        assert(0 < (s[s.len() - 1] as u32) < 0x80);
        let units = le_units(b);
        assert forall|k: int| 0 <= k < s.len() implies units[k] == ((#[trigger] s[k]) as u32) as u16 by {
            if k < t.len() {
                assert(b[2 * k] == bt[2 * k]);
                assert(b[2 * k + 1] == bt[2 * k + 1]);
                assert(le_units(bt)[k] == ((t[k]) as u32) as u16);
            } else {
                assert(b[2 * k] == (c as u32) as u8);
                assert(b[2 * k + 1] == 0);
                let x = c as u32;
                assert(((x as u8) as u16 + 256 * (0u8 as u16)) as u16 == x as u16) by (bit_vector)
                    requires
                        x < 0x80,
                ;
            }
        }
    }
}

/// Decoding code units that are ASCII characters gives the characters back.
proof fn lemma_ascii_units_decode(s: Seq<char>)
    requires
        plain_ascii(s),
    ensures
        utf16_chars(s.map_values(|c: char| (c as u32) as u16)) == s,
        without_nul(s) == s,
    decreases s.len(),
{
    if s.len() > 0 {
        let u = s.map_values(|c: char| (c as u32) as u16);
        let rest = s.drop_first();
        assert(plain_ascii(rest)) by {
            assert forall|i: int| 0 <= i < rest.len() implies 0 < (#[trigger] rest[i] as u32) < 0x80 by {
                assert(rest[i] == s[i + 1]);
            }
        }
        lemma_ascii_units_decode(rest);
        assert(u.drop_first() =~= rest.map_values(|c: char| (c as u32) as u16));
        let c = s[0];
        assert(0 < (c as u32) < 0x80);
        let x = c as u32;
        assert((x as u16) as u32 == x) by (bit_vector)
            requires
                x < 0x80,
        ;
        assert(u[0] == x as u16);
        assert(!is_surrogate(u[0]));
        assert(u[0] as u32 == c as u32);
        vstd::utf8::char_u32_cast(c, u[0] as u32);
        assert(utf16_chars(u) =~= seq![c] + rest);
        assert(c != '\0');
        assert(without_nul(s) =~= seq![c] + without_nul(rest));
        assert(seq![c] + rest =~= s);
    }
}

/// The UTF-8 bytes of ASCII text are its characters.
proof fn lemma_ascii_utf8_bytes(s: Seq<char>)
    requires
        plain_ascii(s),
    ensures
        encode_utf8(s).len() == s.len(),
        forall|i: int| 0 <= i < s.len() ==> 0 < #[trigger] encode_utf8(s)[i] < 0x80,
    decreases s.len(),
{
    if s.len() > 0 {
        let rest = s.drop_first();
        assert(plain_ascii(rest)) by {
            assert forall|i: int| 0 <= i < rest.len() implies 0 < (#[trigger] rest[i] as u32) < 0x80 by {
                assert(rest[i] == s[i + 1]);
            }
        }
        lemma_ascii_utf8_bytes(rest);
        let x = s[0] as u32;
        assert(0 < x < 0x80);
        assert((x & 0x7F) as u8 == x as u8 && 0 < (x as u8) < 0x80) by (bit_vector)
            requires
                0 < x < 0x80,
        ;
        assert(encode_scalar(x) =~= seq![x as u8]);
        let b = encode_utf8(s);
        assert(b =~= seq![x as u8] + encode_utf8(rest));
        assert forall|i: int| 0 <= i < s.len() implies 0 < #[trigger] b[i] < 0x80 by {
            if i > 0 {
                assert(b[i] == encode_utf8(rest)[i - 1]);
            }
        }
    }
}

/// ASCII text as UTF-8 reads back as the text.
pub proof fn lemma_wsl_utf8_ascii_roundtrip(s: Seq<char>)
    requires
        plain_ascii(s),
        s.len() >= 2,
    ensures
        wsl_output_text(encode_utf8(s)) == s,
{
    lemma_ascii_utf8_bytes(s);
    let b = encode_utf8(s);
    assert(0 < b[0] < 0x80);
    assert(0 < b[1] < 0x80);
    vstd::utf8::encode_utf8_valid_utf8(s);
    vstd::utf8::encode_utf8_decode_utf8(s);
}

/// ASCII text encoded as UTF-16LE, with or without a byte-order mark, reads
/// back as the text.
pub proof fn lemma_wsl_utf16_ascii_roundtrip(s: Seq<char>)
    requires
        plain_ascii(s),
        s.len() >= 2,
    ensures
        wsl_output_text(ascii_utf16le(s)) == s,
        wsl_output_text(seq![0xffu8, 0xfeu8] + ascii_utf16le(s)) == s,
{
    lemma_ascii_utf16le_units(s);
    lemma_ascii_units_decode(s);
    let b = ascii_utf16le(s);
    assert(b.len() >= 4);
    assert(b[1] == 0u8) by {
        assert(le_units(b)[0] == ((s[0]) as u32) as u16);
    }
    assert(b[3] == 0u8) by {
        assert(le_units(b)[1] == ((s[1]) as u32) as u16);
    }
    lemma_wsl_bom_is_transparent(b);
}

// ---------------------------------------------------------------------------
// Distribution list
// ---------------------------------------------------------------------------

/// The distribution a `wsl --list --verbose` row describes: a leading `*`
/// marks the default, the first column is the name and the second the state.
pub open spec fn wsl_row(line: Seq<char>) -> Option<WslDistroView> {
    let t = trim(line);
    if t.len() == 0 {
        None
    } else {
        let parts = words(trim(trim_start_char(t, '*')));
        if parts.len() >= 2 {
            Some(
                WslDistroView {
                    name: parts[0],
                    is_default: has_prefix(t, "*"@),
                    is_running: ascii_lower_seq(parts[1]) == ascii_lower_seq("Running"@),
                },
            )
        } else {
            None
        }
    }
}

/// The distributions of rows `i..` of the listing.
pub open spec fn wsl_rows_from(ls: Seq<Seq<char>>, i: int) -> Seq<WslDistroView>
    decreases ls.len() - i,
{
    if i < 0 || i >= ls.len() {
        Seq::<WslDistroView>::empty()
    } else {
        match wsl_row(ls[i]) {
            Some(d) => seq![d] + wsl_rows_from(ls, i + 1),
            None => wsl_rows_from(ls, i + 1),
        }
    }
}

/// The distributions of a `wsl --list --verbose` listing (its first line is the header).
pub open spec fn wsl_distro_list(stdout: Seq<char>) -> Seq<WslDistroView> {
    wsl_rows_from(lines(stdout), 1)
}

/// The views of a vector of distributions.
pub open spec fn distro_views(v: Seq<WslDistro>) -> Seq<WslDistroView> {
    v.map_values(|d: WslDistro| d@)
}

/// Parses one row of the listing.
fn parse_wsl_row(line: &[char]) -> (r: Option<WslDistro>)
    ensures
        match r {
            Some(d) => wsl_row(line@) == Some(d@),
            None => wsl_row(line@) is None,
        },
{
    let t = trim_ws(line);
    if t.len() == 0 {
        return None;
    }
    let star = chars_of("*");
    let is_default = starts_with(&t, &star);
    let unstarred = trim_start_matches(&t, '*');
    let rest = trim_ws(&unstarred);
    let parts = split_whitespace(&rest);
    if parts.len() >= 2 {
        let running = chars_of("Running");
        let is_running = eq_ignore_ascii_case(&parts[1], &running);
        assert(parts@[0]@ == words(rest@)[0]);
        assert(parts@[1]@ == words(rest@)[1]);
        Some(WslDistro { name: string_from_chars(&parts[0]), is_default, is_running })
    } else {
        None
    }
}

/// Parses the rows of `wsl --list --verbose` after its header line.
pub fn parse_wsl_distro_list(stdout: &str) -> (r: Vec<WslDistro>)
    ensures
        distro_views(r@) == wsl_distro_list(stdout@),
{
    let s = chars_of(stdout);
    let ls = split_lines(&s);
    let ghost lv = lines(stdout@);
    let mut distros: Vec<WslDistro> = Vec::new();
    let mut i: usize = 1;
    assert(distro_views(distros@) =~= Seq::<WslDistroView>::empty());
    while i < ls.len()
        invariant
            1 <= i,
            pieces(ls@) == lv,
            wsl_rows_from(lv, 1) == distro_views(distros@) + wsl_rows_from(lv, i as int),
        decreases ls.len() - i,
    {
        assert(ls@[i as int]@ == lv[i as int]);
        let ghost before = distros@;
        match parse_wsl_row(&ls[i]) {
            Some(d) => {
                distros.push(d);
                assert(distro_views(distros@) =~= distro_views(before).push(d@));
                assert(distro_views(before) + (seq![d@] + wsl_rows_from(lv, i + 1)) =~= distro_views(
                    distros@,
                ) + wsl_rows_from(lv, i + 1));
            },
            None => {},
        }
        i += 1;
    }
    assert(wsl_rows_from(lv, i as int) =~= Seq::<WslDistroView>::empty());
    assert(distro_views(distros@) + Seq::<WslDistroView>::empty() =~= distro_views(distros@));
    distros
}

/// The message returned whenever WSL cannot be listed.
pub open spec fn wsl_unavailable_message() -> Seq<char> {
    "WSL is not available or no distributions installed"@
}

/// The result of `wsl.exe --list --verbose` given its exit status and output:
/// the distributions, or an error when the command failed or listed none.
pub fn wsl_list_result(success: bool, stdout: &[u8]) -> (r: Result<Vec<WslDistro>, String>)
    ensures
        !success ==> (r matches Err(m) && m@ == wsl_unavailable_message()),
        success ==> match r {
            Ok(v) => distro_views(v@) == wsl_distro_list(wsl_output_text(stdout@)) && v@.len() > 0,
            Err(m) => wsl_distro_list(wsl_output_text(stdout@)).len() == 0 && m@
                == wsl_unavailable_message(),
        },
{
    if !success {
        let m = chars_of("WSL is not available or no distributions installed");
        return Err(string_from_chars(&m));
    }
    let text = decode_wsl_output(stdout);
    let distros = parse_wsl_distro_list(text.as_str());
    if distros.len() == 0 {
        let m = chars_of("WSL is not available or no distributions installed");
        return Err(string_from_chars(&m));
    }
    Ok(distros)
}

/// The error returned where WSL does not exist.
pub fn wsl_only_on_windows() -> (r: String)
    ensures
        r@ == "WSL is only available on Windows"@,
{
    let m = chars_of("WSL is only available on Windows");
    string_from_chars(&m)
}

}

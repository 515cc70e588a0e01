//! Character-level text operations with exact specifications.
//!
//! Strings are handled as sequences of `char`. Each operation mirrors the
//! behaviour of the corresponding `str` method it stands in for, and its
//! `ensures` states that behaviour over `Seq<char>`.
use vstd::prelude::*;

verus! {

// ---------------------------------------------------------------------------
// Character classes
// ---------------------------------------------------------------------------

/// Unicode `White_Space`: the characters for which `char::is_whitespace` holds.
pub open spec fn is_ws(c: char) -> bool {
    ||| c == '\t' || c == '\n' || c == '\x0B' || c == '\x0C' || c == '\r' || c == ' '
    ||| c == '\u{85}' || c == '\u{A0}' || c == '\u{1680}'
    ||| (0x2000 <= (c as u32) && (c as u32) <= 0x200A)
    ||| c == '\u{2028}' || c == '\u{2029}' || c == '\u{202F}' || c == '\u{205F}' || c == '\u{3000}'
}

/// Whether `c` is Unicode whitespace.
pub fn is_whitespace(c: char) -> (b: bool)
    ensures
        b == is_ws(c),
{
    let u = c as u32;
    c == '\t' || c == '\n' || c == '\x0B' || c == '\x0C' || c == '\r' || c == ' ' || c == '\u{85}'
        || c == '\u{A0}' || c == '\u{1680}' || (0x2000 <= u && u <= 0x200A) || c == '\u{2028}'
        || c == '\u{2029}' || c == '\u{202F}' || c == '\u{205F}' || c == '\u{3000}'
}

/// ASCII lower-casing of one character; every other character is unchanged.
pub open spec fn ascii_lower(c: char) -> char {
    if 'A' <= c && c <= 'Z' {
        ((c as u32) + 32) as char
    } else {
        c
    }
}

/// ASCII upper-casing of one character; every other character is unchanged.
pub open spec fn ascii_upper(c: char) -> char {
    if 'a' <= c && c <= 'z' {
        ((c as u32) - 32) as char
    } else {
        c
    }
}

/// ASCII lower-casing of every character of a sequence.
pub open spec fn ascii_lower_seq(s: Seq<char>) -> Seq<char> {
    s.map_values(|c: char| ascii_lower(c))
}

/// Lower-cases one ASCII letter.
pub fn to_ascii_lower(c: char) -> (r: char)
    ensures
        r == ascii_lower(c),
{
    if 'A' <= c && c <= 'Z' {
        let u = c as u32 + 32;
        assert(0x61 <= u <= 0x7a);
        char_from_ascii(u)
    } else {
        c
    }
}

/// Converts an ASCII code point to its character.
fn char_from_ascii(u: u32) -> (c: char)
    requires
        u < 128,
    ensures
        c == u as char,
        c as u32 == u,
{
    let b = u as u8;
    b as char
}

/// The ASCII lower-cased copy of `s`, as `str::to_ascii_lowercase`.
pub fn to_ascii_lowercase(s: &[char]) -> (r: Vec<char>)
    ensures
        r@ == ascii_lower_seq(s@),
{
    let mut r: Vec<char> = Vec::new();
    let mut i: usize = 0;
    while i < s.len()
        invariant
            i <= s.len(),
            r@ == ascii_lower_seq(s@.take(i as int)),
        decreases s.len() - i,
    {
        let c = to_ascii_lower(s[i]);
        r.push(c);
        i += 1;
        assert(r@ =~= ascii_lower_seq(s@.take(i as int)));
    }
    assert(s@.take(s.len() as int) =~= s@);
    r
}

// ---------------------------------------------------------------------------
// Comparisons
// ---------------------------------------------------------------------------

/// Whether two character slices are equal.
pub fn chars_eq(a: &[char], b: &[char]) -> (r: bool)
    ensures
        r == (a@ == b@),
{
    if a.len() != b.len() {
        return false;
    }
    let mut i: usize = 0;
    while i < a.len()
        invariant
            a.len() == b.len(),
            i <= a.len(),
            a@.take(i as int) == b@.take(i as int),
        decreases a.len() - i,
    {
        if a[i] != b[i] {
            assert(a@[i as int] != b@[i as int]);
            return false;
        }
        assert(a@.take(i as int + 1) =~= a@.take(i as int).push(a@[i as int]));
        assert(b@.take(i as int + 1) =~= b@.take(i as int).push(b@[i as int]));
        i += 1;
    }
    assert(a@ =~= a@.take(a.len() as int));
    assert(b@ =~= b@.take(b.len() as int));
    true
}

/// `s` begins with `p`.
pub open spec fn has_prefix(s: Seq<char>, p: Seq<char>) -> bool {
    p.len() <= s.len() && s.take(p.len() as int) == p
}

/// `s` ends with `p`.
pub open spec fn has_suffix(s: Seq<char>, p: Seq<char>) -> bool {
    p.len() <= s.len() && s.skip(s.len() - p.len()) == p
}

/// `needle` occurs in `s` at position `i`.
pub open spec fn occurs_at(s: Seq<char>, needle: Seq<char>, i: int) -> bool {
    0 <= i && i + needle.len() <= s.len() && s.subrange(i, i + needle.len()) == needle
}

/// `needle` occurs somewhere in `s`.
pub open spec fn contains_seq(s: Seq<char>, needle: Seq<char>) -> bool {
    exists|i: int| occurs_at(s, needle, i)
}

/// Whether `needle` occurs in `s` at position `at`.
pub fn matches_at(s: &[char], needle: &[char], at: usize) -> (r: bool)
    ensures
        r == occurs_at(s@, needle@, at as int),
{
    if at > s.len() || needle.len() > s.len() - at {
        return false;
    }
    let mut j: usize = 0;
    while j < needle.len()
        invariant
            at + needle.len() <= s.len(),
            j <= needle.len(),
            forall|k: int| 0 <= k < j ==> s@[at + k] == needle@[k],
        decreases needle.len() - j,
    {
        if s[at + j] != needle[j] {
            assert(s@.subrange(at as int, at + needle.len())[j as int] != needle@[j as int]);
            return false;
        }
        j += 1;
    }
    assert(s@.subrange(at as int, at + needle.len()) =~= needle@);
    true
}

/// Whether `s` starts with `p`, as `str::starts_with`.
pub fn starts_with(s: &[char], p: &[char]) -> (r: bool)
    ensures
        r == has_prefix(s@, p@),
{
    let r = matches_at(s, p, 0);
    if r {
        assert(s@.subrange(0, p.len() as int) =~= s@.take(p.len() as int));
    } else if p.len() <= s.len() {
        assert(s@.subrange(0, p.len() as int) =~= s@.take(p.len() as int));
    }
    r
}

/// Whether `s` ends with `p`, as `str::ends_with`.
pub fn ends_with(s: &[char], p: &[char]) -> (r: bool)
    ensures
        r == has_suffix(s@, p@),
{
    if p.len() > s.len() {
        return false;
    }
    let at = s.len() - p.len();
    let r = matches_at(s, p, at);
    assert(s@.subrange(at as int, at + p.len()) =~= s@.skip(at as int));
    r
}

/// Whether `needle` occurs in `s`, as `str::contains`.
pub fn contains(s: &[char], needle: &[char]) -> (r: bool)
    ensures
        r == contains_seq(s@, needle@),
{
    if needle.len() == 0 {
        assert(s@.subrange(0, 0) =~= needle@);
        assert(occurs_at(s@, needle@, 0));
        return true;
    }
    if needle.len() > s.len() {
        return false;
    }
    let last = s.len() - needle.len();
    let mut i: usize = 0;
    while i <= last
        invariant
            last + needle.len() == s.len(),
            needle.len() > 0,
            i <= last + 1,
            forall|k: int| 0 <= k < i ==> !occurs_at(s@, needle@, k),
        decreases last + 1 - i,
    {
        if matches_at(s, needle, i) {
            return true;
        }
        i += 1;
    }
    assert forall|k: int| !occurs_at(s@, needle@, k) by {
        if 0 <= k && k < i {
        }
    }
    false
}

/// Whether character `c` occurs in `s`.
pub fn contains_char(s: &[char], c: char) -> (r: bool)
    ensures
        r == s@.contains(c),
{
    let mut i: usize = 0;
    while i < s.len()
        invariant
            i <= s.len(),
            forall|k: int| 0 <= k < i ==> s@[k] != c,
        decreases s.len() - i,
    {
        if s[i] == c {
            assert(s@[i as int] == c);
            return true;
        }
        i += 1;
    }
    false
}

/// Case-insensitive ASCII equality, as `str::eq_ignore_ascii_case`.
pub fn eq_ignore_ascii_case(a: &[char], b: &[char]) -> (r: bool)
    ensures
        r == (ascii_lower_seq(a@) == ascii_lower_seq(b@)),
{
    let la = to_ascii_lowercase(a);
    let lb = to_ascii_lowercase(b);
    chars_eq(&la, &lb)
}

// ---------------------------------------------------------------------------
// Trimming
// ---------------------------------------------------------------------------

/// A class of characters used as a trimming or splitting pattern.
#[derive(Clone, Copy)]
pub enum CharClass {
    /// Unicode whitespace.
    Whitespace,
    /// Exactly one character.
    Exactly(char),
    /// Either of two characters.
    Either(char, char),
}

/// Whether `c` belongs to the class `p`.
pub fn class_contains(p: CharClass, c: char) -> (r: bool)
    ensures
        r == in_class(p, c),
{
    match p {
        CharClass::Whitespace => is_whitespace(c),
        CharClass::Exactly(x) => c == x,
        CharClass::Either(x, y) => c == x || c == y,
    }
}

/// Whether `c` belongs to the class `p`.
pub open spec fn in_class(p: CharClass, c: char) -> bool {
    match p {
        CharClass::Whitespace => is_ws(c),
        CharClass::Exactly(x) => c == x,
        CharClass::Either(x, y) => c == x || c == y,
    }
}

/// Removes the leading characters of class `p`.
pub open spec fn trim_start_by(s: Seq<char>, p: CharClass) -> Seq<char>
    decreases s.len(),
{
    if s.len() > 0 && in_class(p, s[0]) {
        trim_start_by(s.drop_first(), p)
    } else {
        s
    }
}

/// Removes the trailing characters of class `p`.
pub open spec fn trim_end_by(s: Seq<char>, p: CharClass) -> Seq<char>
    decreases s.len(),
{
    if s.len() > 0 && in_class(p, s.last()) {
        trim_end_by(s.drop_last(), p)
    } else {
        s
    }
}

/// `str::trim`: leading and trailing whitespace removed.
pub open spec fn trim(s: Seq<char>) -> Seq<char> {
    trim_end_by(trim_start_by(s, CharClass::Whitespace), CharClass::Whitespace)
}

/// `str::trim_start_matches(c)` for one character.
pub open spec fn trim_start_char(s: Seq<char>, c: char) -> Seq<char> {
    trim_start_by(s, CharClass::Exactly(c))
}

/// `str::trim_end_matches(c)` for one character.
pub open spec fn trim_end_char(s: Seq<char>, c: char) -> Seq<char> {
    trim_end_by(s, CharClass::Exactly(c))
}

/// Trimming from the front removes a prefix of `p`-characters.
pub proof fn lemma_trim_start_skip(s: Seq<char>, p: CharClass, i: int)
    requires
        0 <= i <= s.len(),
        forall|k: int| 0 <= k < i ==> in_class(p, s[k]),
    ensures
        trim_start_by(s, p) == trim_start_by(s.skip(i), p),
    decreases i,
{
    if i > 0 {
        assert(s.drop_first().skip(i - 1) =~= s.skip(i));
        lemma_trim_start_skip(s.drop_first(), p, i - 1);
    } else {
        assert(s.skip(0) =~= s);
    }
}

/// Trimming from the back removes a suffix of `p`-characters.
pub proof fn lemma_trim_end_take(s: Seq<char>, p: CharClass, j: int)
    requires
        0 <= j <= s.len(),
        forall|k: int| j <= k < s.len() ==> in_class(p, s[k]),
    ensures
        trim_end_by(s, p) == trim_end_by(s.take(j), p),
    decreases s.len() - j,
{
    if j < s.len() {
        assert(s.drop_last().take(j) =~= s.take(j));
        lemma_trim_end_take(s.drop_last(), p, j);
    } else {
        assert(s.take(j) =~= s);
    }
}

/// Index of the first character of `s` that is not whitespace (or `s.len()`).
fn first_non_ws(s: &[char]) -> (i: usize)
    ensures
        i <= s.len(),
        forall|k: int| 0 <= k < i ==> is_ws(s@[k]),
        i < s.len() ==> !is_ws(s@[i as int]),
{
    let mut i: usize = 0;
    while i < s.len() && is_whitespace(s[i])
        invariant
            i <= s.len(),
            forall|k: int| 0 <= k < i ==> is_ws(s@[k]),
        decreases s.len() - i,
    {
        i += 1;
    }
    i
}

/// Copies `s[from..to]`.
pub fn copy_range(s: &[char], from: usize, to: usize) -> (r: Vec<char>)
    requires
        from <= to <= s.len(),
    ensures
        r@ == s@.subrange(from as int, to as int),
{
    let mut r: Vec<char> = Vec::new();
    let mut i = from;
    while i < to
        invariant
            from <= i <= to <= s.len(),
            r@ == s@.subrange(from as int, i as int),
        decreases to - i,
    {
        r.push(s[i]);
        i += 1;
        assert(r@ =~= s@.subrange(from as int, i as int));
    }
    r
}

/// `str::trim`.
pub fn trim_ws(s: &[char]) -> (r: Vec<char>)
    ensures
        r@ == trim(s@),
{
    let ghost ws = CharClass::Whitespace;
    let i = first_non_ws(s);
    proof {
        lemma_trim_start_skip(s@, ws, i as int);
        assert(trim_start_by(s@.skip(i as int), ws) == s@.skip(i as int));
    }
    let mut j = s.len();
    while j > i && is_whitespace(s[j - 1])
        invariant
            i <= j <= s.len(),
            forall|k: int| j <= k < s.len() ==> is_ws(s@[k]),
        decreases j,
    {
        j -= 1;
    }
    proof {
        let t = s@.skip(i as int);
        assert forall|k: int| j - i <= k < t.len() implies in_class(ws, t[k]) by {
            assert(t[k] == s@[k + i]);
        }
        lemma_trim_end_take(t, ws, j - i);
        assert(t.take(j - i) =~= s@.subrange(i as int, j as int));
        if j > i {
            assert(!in_class(ws, s@.subrange(i as int, j as int).last()));
        }
    }
    copy_range(s, i, j)
}

/// `str::trim_start_matches(c)`.
pub fn trim_start_matches(s: &[char], c: char) -> (r: Vec<char>)
    ensures
        r@ == trim_start_char(s@, c),
{
    let ghost p = CharClass::Exactly(c);
    let mut i: usize = 0;
    while i < s.len() && s[i] == c
        invariant
            i <= s.len(),
            forall|k: int| 0 <= k < i ==> s@[k] == c,
        decreases s.len() - i,
    {
        i += 1;
    }
    proof {
        lemma_trim_start_skip(s@, p, i as int);
        assert(s@.skip(i as int) =~= s@.subrange(i as int, s.len() as int));
    }
    copy_range(s, i, s.len())
}

/// `str::trim_end_matches(c)`.
pub fn trim_end_matches(s: &[char], c: char) -> (r: Vec<char>)
    ensures
        r@ == trim_end_char(s@, c),
{
    let ghost p = CharClass::Exactly(c);
    let mut j = s.len();
    while j > 0 && s[j - 1] == c
        invariant
            j <= s.len(),
            forall|k: int| j <= k < s.len() ==> s@[k] == c,
        decreases j,
    {
        j -= 1;
    }
    proof {
        lemma_trim_end_take(s@, p, j as int);
        assert(s@.take(j as int) =~= s@.subrange(0, j as int));
    }
    copy_range(s, 0, j)
}

// ---------------------------------------------------------------------------
// Splitting
// ---------------------------------------------------------------------------

/// Splits `s` at every character satisfying `p` (`str::split` with a character
/// pattern): the pieces between separators, in order, empty pieces included.
pub open spec fn split_by(s: Seq<char>, p: CharClass) -> Seq<Seq<char>>
    decreases s.len(),
{
    if s.len() == 0 {
        seq![Seq::<char>::empty()]
    } else {
        let rest = split_by(s.drop_last(), p);
        if in_class(p, s.last()) {
            rest.push(Seq::<char>::empty())
        } else {
            rest.drop_last().push(rest.last().push(s.last()))
        }
    }
}

/// `str::split(c)` for one separator character.
pub open spec fn split_char(s: Seq<char>, c: char) -> Seq<Seq<char>> {
    split_by(s, CharClass::Exactly(c))
}

/// The non-empty pieces of a sequence of pieces, in order.
pub open spec fn non_empty(parts: Seq<Seq<char>>) -> Seq<Seq<char>>
    decreases parts.len(),
{
    if parts.len() == 0 {
        parts
    } else {
        let rest = non_empty(parts.drop_last());
        if parts.last().len() == 0 {
            rest
        } else {
            rest.push(parts.last())
        }
    }
}

/// `str::split_whitespace`: the maximal runs of non-whitespace characters.
pub open spec fn words(s: Seq<char>) -> Seq<Seq<char>> {
    non_empty(split_by(s, CharClass::Whitespace))
}

/// A split always has at least one piece.
pub proof fn lemma_split_nonempty(s: Seq<char>, p: CharClass)
    ensures
        split_by(s, p).len() >= 1,
    decreases s.len(),
{
    if s.len() > 0 {
        lemma_split_nonempty(s.drop_last(), p);
    }
}

/// The deep view of a vector of character vectors.
pub open spec fn pieces(v: Seq<Vec<char>>) -> Seq<Seq<char>> {
    v.map_values(|w: Vec<char>| w@)
}

/// `str::split(c)` for one separator character.
pub fn split_on(s: &[char], c: char) -> (r: Vec<Vec<char>>)
    ensures
        pieces(r@) == split_char(s@, c),
{
    split_class(s, CharClass::Exactly(c))
}

/// `str::split` with a character-class pattern.
pub fn split_class(s: &[char], p: CharClass) -> (r: Vec<Vec<char>>)
    ensures
        pieces(r@) == split_by(s@, p),
{
    let mut done: Vec<Vec<char>> = Vec::new();
    let mut cur: Vec<char> = Vec::new();
    let mut i: usize = 0;
    while i < s.len()
        invariant
            i <= s.len(),
            split_by(s@.take(i as int), p) == pieces(done@).push(cur@),
        decreases s.len() - i,
    {
        let ghost before = s@.take(i as int);
        assert(s@.take(i as int + 1).drop_last() =~= before);
        if class_contains(p, s[i]) {
            let piece = cur;
            done.push(piece);
            cur = Vec::new();
            assert(pieces(done@) =~= pieces(done@.drop_last()).push(piece@));
        } else {
            cur.push(s[i]);
        }
        i += 1;
        assert(split_by(s@.take(i as int), p) =~= pieces(done@).push(cur@));
    }
    assert(s@.take(s.len() as int) =~= s@);
    let ghost d = done@;
    done.push(cur);
    assert(pieces(done@) =~= pieces(d).push(done@.last()@));
    done
}

/// The non-empty pieces, in order (`filter(|p| !p.is_empty())`).
pub fn keep_non_empty(parts: Vec<Vec<char>>) -> (r: Vec<Vec<char>>)
    ensures
        pieces(r@) == non_empty(pieces(parts@)),
        forall|k: int| 0 <= k < r@.len() ==> r@[k]@.len() > 0,
{
    let mut r: Vec<Vec<char>> = Vec::new();
    let mut i: usize = 0;
    assert(pieces(parts@).take(0) =~= Seq::<Seq<char>>::empty());
    while i < parts.len()
        invariant
            i <= parts@.len(),
            pieces(r@) == non_empty(pieces(parts@).take(i as int)),
            forall|k: int| 0 <= k < r@.len() ==> r@[k]@.len() > 0,
        decreases parts.len() - i,
    {
        let ghost t = pieces(parts@).take(i as int + 1);
        assert(t.drop_last() =~= pieces(parts@).take(i as int));
        assert(t.last() == parts@[i as int]@);
        if parts[i].len() > 0 {
            let ghost before = r@;
            r.push(copy_range(&parts[i], 0, parts[i].len()));
            assert(parts@[i as int]@.subrange(0, parts@[i as int]@.len() as int) =~= parts@[i as int]@);
            assert(pieces(r@) =~= pieces(before).push(parts@[i as int]@));
        }
        i += 1;
    }
    assert(pieces(parts@).take(parts@.len() as int) =~= pieces(parts@));
    r
}

/// `str::split_whitespace`.
pub fn split_whitespace(s: &[char]) -> (r: Vec<Vec<char>>)
    ensures
        pieces(r@) == words(s@),
        forall|k: int| 0 <= k < r@.len() ==> r@[k]@.len() > 0,
{
    let mut done: Vec<Vec<char>> = Vec::new();
    let mut cur: Vec<char> = Vec::new();
    let mut i: usize = 0;
    while i < s.len()
        invariant
            i <= s.len(),
            split_by(s@.take(i as int), CharClass::Whitespace).len() >= 1,
            split_by(s@.take(i as int), CharClass::Whitespace).last() == cur@,
            non_empty(split_by(s@.take(i as int), CharClass::Whitespace).drop_last()) == pieces(done@),
            forall|k: int| 0 <= k < done@.len() ==> done@[k]@.len() > 0,
        decreases s.len() - i,
    {
        let ghost before = s@.take(i as int);
        let ghost sp = split_by(before, CharClass::Whitespace);
        assert(s@.take(i as int + 1).drop_last() =~= before);
        assert(s@.take(i as int + 1).last() == s@[i as int]);
        if is_whitespace(s[i]) {
            if cur.len() > 0 {
                let piece = cur;
                done.push(piece);
                assert(pieces(done@) =~= pieces(done@.drop_last()).push(piece@));
            }
            cur = Vec::new();
            assert(split_by(s@.take(i as int + 1), CharClass::Whitespace) == sp.push(Seq::<char>::empty()));
            assert(sp.push(Seq::<char>::empty()).drop_last() =~= sp);
            assert(sp =~= sp.drop_last().push(sp.last()));
        } else {
            cur.push(s[i]);
            assert(split_by(s@.take(i as int + 1), CharClass::Whitespace) == sp.drop_last().push(
                sp.last().push(s@[i as int]),
            ));
            assert(sp.drop_last().push(sp.last().push(s@[i as int])).drop_last() =~= sp.drop_last());
        }
        i += 1;
    }
    assert(s@.take(s.len() as int) =~= s@);
    let ghost sp = split_by(s@, CharClass::Whitespace);
    assert(sp =~= sp.drop_last().push(sp.last()));
    if cur.len() > 0 {
        let ghost d = done@;
        done.push(cur);
        assert(pieces(done@) =~= pieces(d).push(done@.last()@));
    }
    done
}

// ---------------------------------------------------------------------------
// Lines
// ---------------------------------------------------------------------------

/// A piece that was followed by a line feed loses one trailing carriage return.
pub open spec fn strip_cr(s: Seq<char>) -> Seq<char> {
    if s.len() > 0 && s.last() == '\r' {
        s.drop_last()
    } else {
        s
    }
}

/// `str::lines`: the text split at `\n` (and `\r\n`), without a final empty line.
pub open spec fn lines(s: Seq<char>) -> Seq<Seq<char>> {
    let parts = split_char(s, '\n');
    let n = if parts.last().len() == 0 {
        parts.len() - 1
    } else {
        parts.len() as int
    };
    Seq::new(
        n as nat,
        |i: int|
            if i < parts.len() - 1 {
                strip_cr(parts[i])
            } else {
                parts[i]
            },
    )
}

/// `str::lines`.
pub fn split_lines(s: &[char]) -> (r: Vec<Vec<char>>)
    ensures
        pieces(r@) == lines(s@),
{
    let parts = split_on(s, '\n');
    let ghost sp = split_char(s@, '\n');
    proof {
        lemma_split_nonempty(s@, CharClass::Exactly('\n'));
    }
    assert(parts@.len() == sp.len());
    let n = if parts[parts.len() - 1].len() == 0 {
        parts.len() - 1
    } else {
        parts.len()
    };
    let mut r: Vec<Vec<char>> = Vec::new();
    let mut i: usize = 0;
    while i < n
        invariant
            n <= parts@.len(),
            parts@.len() == sp.len(),
            sp == split_char(s@, '\n'),
            pieces(parts@) == sp,
            i <= n,
            pieces(r@) == lines(s@).take(i as int),
            lines(s@).len() == n,
        decreases n - i,
    {
        assert(parts@[i as int]@ == sp[i as int]);
        let part = &parts[i];
        let piece = if i + 1 < parts.len() && part.len() > 0 && part[part.len() - 1] == '\r' {
            copy_range(part, 0, part.len() - 1)
        } else {
            copy_range(part, 0, part.len())
        };
        proof {
            assert(part@.subrange(0, part@.len() as int) =~= part@);
            if part@.len() > 0 {
                assert(part@.subrange(0, part@.len() - 1) =~= part@.drop_last());
            }
            assert(piece@ == lines(s@)[i as int]);
        }
        let ghost r0 = r@;
        r.push(piece);
        assert(pieces(r@) =~= pieces(r0).push(piece@));
        i += 1;
        assert(pieces(r@) =~= lines(s@).take(i as int));
    }
    assert(lines(s@).take(n as int) =~= lines(s@));
    r
}

// ---------------------------------------------------------------------------
// Replacement
// ---------------------------------------------------------------------------

/// `str::replace`: every non-overlapping occurrence of `from`, scanned left to
/// right, replaced by `to`.
pub open spec fn replace_all(s: Seq<char>, from: Seq<char>, to: Seq<char>) -> Seq<char>
    recommends
        from.len() > 0,
    decreases s.len(),
{
    if s.len() == 0 || from.len() == 0 {
        s
    } else if has_prefix(s, from) {
        to + replace_all(s.skip(from.len() as int), from, to)
    } else {
        seq![s[0]] + replace_all(s.drop_first(), from, to)
    }
}

/// `str::replace` for a non-empty pattern.
pub fn replace(s: &[char], from: &[char], to: &[char]) -> (r: Vec<char>)
    requires
        from@.len() > 0,
    ensures
        r@ == replace_all(s@, from@, to@),
{
    let mut r: Vec<char> = Vec::new();
    let mut i: usize = 0;
    assert(s@.skip(0) =~= s@);
    assert(r@ + replace_all(s@, from@, to@) =~= replace_all(s@, from@, to@));
    while i < s.len()
        invariant
            i <= s.len(),
            from@.len() > 0,
            replace_all(s@, from@, to@) == r@ + replace_all(s@.skip(i as int), from@, to@),
        decreases s.len() - i,
    {
        let ghost rest = s@.skip(i as int);
        if matches_at(s, from, i) {
            assert(rest.take(from@.len() as int) =~= s@.subrange(i as int, i + from@.len()));
            assert(rest.skip(from@.len() as int) =~= s@.skip(i + from@.len()));
            let ghost r0 = r@;
            let mut k: usize = 0;
            while k < to.len()
                invariant
                    k <= to.len(),
                    r@ == r0 + to@.take(k as int),
                decreases to.len() - k,
            {
                r.push(to[k]);
                k += 1;
                assert(r@ =~= r0 + to@.take(k as int));
            }
            assert(to@.take(to.len() as int) =~= to@);
            assert(r@ + replace_all(s@.skip(i + from@.len()), from@, to@) =~= r0 + (to@
                + replace_all(s@.skip(i + from@.len()), from@, to@)));
            i += from.len();
        } else {
            proof {
                if from@.len() <= rest.len() {
                    assert(rest.take(from@.len() as int) =~= s@.subrange(i as int, i + from@.len()));
                }
            }
            assert(rest.drop_first() =~= s@.skip(i + 1));
            let ghost r0 = r@;
            r.push(s[i]);
            assert(r@ + replace_all(s@.skip(i + 1), from@, to@) =~= r0 + (seq![s@[i as int]]
                + replace_all(s@.skip(i + 1), from@, to@)));
            i += 1;
        }
    }
    assert(s@.skip(s.len() as int) =~= Seq::<char>::empty());
    assert(r@ + Seq::<char>::empty() =~= r@);
    r
}


// ---------------------------------------------------------------------------
// String slices
// ---------------------------------------------------------------------------

/// Whether two string slices hold the same characters.
pub fn str_eq(a: &str, b: &str) -> (r: bool)
    ensures
        r == (a@ == b@),
{
    let ca = chars_of(a);
    let cb = chars_of(b);
    chars_eq(&ca, &cb)
}

/// The characters of a string slice, in order.
pub fn chars_of(s: &str) -> (v: Vec<char>)
    ensures
        v@ == s@,
{
    let mut v: Vec<char> = Vec::new();
    for c in it: s.chars()
        invariant
            v@ == it.seq().take(it.index() as int),
    {
        v.push(c);
    }
    v
}

/// Appends one character to a string.
#[verifier::external_body]
fn push_char(s: &mut String, c: char)
    ensures
        final(s)@ == old(s)@.push(c),
{
    s.push(c);
}

/// Builds a string from a sequence of characters.
pub fn string_from_chars(v: &[char]) -> (s: String)
    ensures
        s@ == v@,
{
    let mut s = String::new();
    let mut i: usize = 0;
    while i < v.len()
        invariant
            i <= v.len(),
            s@ == v@.take(i as int),
        decreases v.len() - i,
    {
        push_char(&mut s, v[i]);
        assert(v@.take(i as int + 1) == v@.take(i as int).push(v@[i as int]));
        i += 1;
    }
    assert(v@.take(v.len() as int) == v@);
    s
}

/// Appends the characters of `b` to `a`.
pub fn extend_chars(a: &mut Vec<char>, b: &[char])
    ensures
        final(a)@ == old(a)@ + b@,
{
    let mut i: usize = 0;
    while i < b.len()
        invariant
            i <= b.len(),
            a@ == old(a)@ + b@.take(i as int),
        decreases b.len() - i,
    {
        a.push(b[i]);
        i += 1;
        assert(a@ =~= old(a)@ + b@.take(i as int));
    }
    assert(b@.take(b.len() as int) =~= b@);
}

/// Appends the characters of a string slice to `a`.
pub fn extend_str(a: &mut Vec<char>, b: &str)
    ensures
        final(a)@ == old(a)@ + b@,
{
    let cb = chars_of(b);
    extend_chars(a, &cb);
}

// ---------------------------------------------------------------------------
// Numbers
// ---------------------------------------------------------------------------

/// The lower-case digit character for a value below sixteen.
pub open spec fn digit_char(d: nat) -> char {
    if d < 10 {
        ((d + 0x30) as u32) as char
    } else {
        ((d - 10 + 0x61) as u32) as char
    }
}

/// The digits of `n` in base `base` without leading zeros (`0` for zero),
/// as `Display` (base ten) and `{:o}` (base eight) print them.
pub open spec fn radix_digits(n: nat, base: nat) -> Seq<char>
    recommends
        2 <= base <= 16,
    decreases n,
{
    if base < 2 || n < base {
        seq![digit_char(n)]
    } else {
        proof {
            assert(n / base < n) by (nonlinear_arith)
                requires
                    base >= 2,
                    n >= base,
            ;
        }
        radix_digits(n / base, base).push(digit_char(n % base))
    }
}

/// Exactly `width` lower-case hexadecimal digits of `n`, zero padded.
pub open spec fn hex_fixed(n: nat, width: nat) -> Seq<char>
    decreases width,
{
    if width == 0 {
        Seq::<char>::empty()
    } else {
        hex_fixed(n / 16, (width - 1) as nat).push(digit_char(n % 16))
    }
}

/// The character of a digit value below sixteen.
fn digit_to_char(d: u64) -> (c: char)
    requires
        d < 16,
    ensures
        c == digit_char(d as nat),
{
    if d < 10 {
        char_from_ascii((d + 0x30) as u32)
    } else {
        char_from_ascii((d - 10 + 0x61) as u32)
    }
}

/// The digits of `n` in base `base`.
pub fn radix_string(n: u64, base: u64) -> (r: Vec<char>)
    requires
        2 <= base <= 16,
    ensures
        r@ == radix_digits(n as nat, base as nat),
    decreases n,
{
    if n < base {
        let mut r: Vec<char> = Vec::new();
        r.push(digit_to_char(n));
        assert(r@ =~= seq![digit_char(n as nat)]);
        r
    } else {
        assert(n / base < n) by (nonlinear_arith)
            requires
                base >= 2,
                n >= base,
        ;
        let mut r = radix_string(n / base, base);
        r.push(digit_to_char(n % base));
        r
    }
}

/// `width` hexadecimal digits of `n`.
pub fn hex_string(n: u64, width: u64) -> (r: Vec<char>)
    ensures
        r@ == hex_fixed(n as nat, width as nat),
    decreases width,
{
    if width == 0 {
        Vec::new()
    } else {
        let mut r = hex_string(n / 16, width - 1);
        r.push(digit_to_char(n % 16));
        r
    }
}

/// The value of a hexadecimal digit (`0-9`, `a-f`, `A-F`).
pub open spec fn hex_digit_value(c: char) -> Option<nat> {
    let u = c as u32;
    if 0x30 <= u && u <= 0x39 {
        Some((u - 0x30) as nat)
    } else if 0x61 <= u && u <= 0x66 {
        Some((u - 0x61 + 10) as nat)
    } else if 0x41 <= u && u <= 0x46 {
        Some((u - 0x41 + 10) as nat)
    } else {
        None
    }
}

/// The value of a sequence of hexadecimal digits; `None` if one is not a digit.
pub open spec fn hex_digits_value(s: Seq<char>) -> Option<nat>
    decreases s.len(),
{
    if s.len() == 0 {
        Some(0)
    } else {
        match (hex_digits_value(s.drop_last()), hex_digit_value(s.last())) {
            (Some(v), Some(d)) => Some(v * 16 + d),
            _ => None,
        }
    }
}

/// `u32::from_str_radix(s, 16)`: an optional leading `+` (not alone), then one
/// or more hexadecimal digits whose value fits in `u32`.
pub open spec fn parse_hex_u32(s: Seq<char>) -> Option<u32> {
    let digits = if s.len() > 0 && s[0] == '+' {
        s.drop_first()
    } else {
        s
    };
    if digits.len() == 0 {
        None
    } else {
        match hex_digits_value(digits) {
            Some(v) => if v <= u32::MAX {
                Some(v as u32)
            } else {
                None
            },
            None => None,
        }
    }
}

/// Sixteen to the power `n`.
pub open spec fn pow16(n: nat) -> nat
    decreases n,
{
    if n == 0 {
        1
    } else {
        16 * pow16((n - 1) as nat)
    }
}

/// The value of one hexadecimal digit character.
fn hex_digit(c: char) -> (r: Option<u64>)
    ensures
        match hex_digit_value(c) {
            Some(v) => r == Some(v as u64),
            None => r is None,
        },
{
    let u = c as u32;
    if 0x30 <= u && u <= 0x39 {
        Some((u - 0x30) as u64)
    } else if 0x61 <= u && u <= 0x66 {
        Some((u - 0x61 + 10) as u64)
    } else if 0x41 <= u && u <= 0x46 {
        Some((u - 0x41 + 10) as u64)
    } else {
        None
    }
}

/// `u32::from_str_radix(s, 16)`.
pub fn hex_to_u32(s: &[char]) -> (r: Option<u32>)
    ensures
        r == parse_hex_u32(s@),
{
    let start: usize = if s.len() > 0 && s[0] == '+' {
        1
    } else {
        0
    };
    let ghost digits = if s@.len() > 0 && s@[0] == '+' {
        s@.drop_first()
    } else {
        s@
    };
    assert(digits =~= s@.skip(start as int));
    if start == s.len() {
        return None;
    }
    let mut value: u64 = 0;
    let mut i: usize = start;
    assert(digits.take(0) =~= Seq::<char>::empty());
    while i < s.len()
        invariant
            start <= i <= s.len(),
            digits == s@.skip(start as int),
            digits == (if s@.len() > 0 && s@[0] == '+' {
                s@.drop_first()
            } else {
                s@
            }),
            hex_digits_value(digits.take(i - start)) == Some(value as nat),
            value <= u32::MAX,
        decreases s.len() - i,
    {
        let ghost t = digits.take(i - start + 1);
        assert(t.drop_last() =~= digits.take(i - start));
        assert(t.last() == s@[i as int]);
        match hex_digit(s[i]) {
            Some(d) => {
                value = value * 16 + d;
                if value > 0xffff_ffff {
                    proof {
                        lemma_hex_prefix_le(digits, i - start + 1);
                    }
                    return None;
                }
            },
            None => {
                proof {
                    assert(hex_digit_value(t.last()) is None);
                    assert(hex_digits_value(t) is None);
                    lemma_hex_invalid_prefix(digits, i - start + 1);
                }
                return None;
            },
        }
        i += 1;
    }
    assert(digits.take(s.len() - start) =~= digits);
    Some(value as u32)
}

/// A digit sequence that continues a valid prefix is either invalid or at
/// least as large as the prefix.
proof fn lemma_hex_prefix_le(s: Seq<char>, k: int)
    requires
        0 <= k <= s.len(),
        hex_digits_value(s.take(k)) is Some,
    ensures
        hex_digits_value(s) is Some ==> hex_digits_value(s.take(k))->0 <= hex_digits_value(s)->0,
    decreases s.len() - k,
{
    if k < s.len() {
        let t = s.take(k + 1);
        assert(t.drop_last() =~= s.take(k));
        if hex_digits_value(t) is Some {
            lemma_hex_prefix_le(s, k + 1);
        } else {
            lemma_hex_invalid_prefix(s, k + 1);
        }
    } else {
        assert(s.take(k) =~= s);
    }
}

/// A digit sequence of length `n` is worth less than sixteen to the `n`.
pub proof fn lemma_hex_digits_bound(s: Seq<char>)
    requires
        hex_digits_value(s) is Some,
    ensures
        hex_digits_value(s)->0 < pow16(s.len()),
    decreases s.len(),
{
    if s.len() > 0 {
        lemma_hex_digits_bound(s.drop_last());
    }
}

/// Powers of sixteen grow with the exponent.
pub proof fn lemma_pow16_mono(a: nat, b: nat)
    requires
        a <= b,
    ensures
        pow16(a) <= pow16(b),
    decreases b,
{
    if a < b {
        lemma_pow16_mono(a, (b - 1) as nat);
    }
}

/// A non-digit in a prefix makes the whole digit sequence invalid.
pub proof fn lemma_hex_invalid_prefix(s: Seq<char>, k: int)
    requires
        0 < k <= s.len(),
        hex_digits_value(s.take(k)) is None,
    ensures
        hex_digits_value(s) is None,
    decreases s.len() - k,
{
    if k < s.len() {
        let t = s.take(k + 1);
        assert(t.drop_last() =~= s.take(k));
        lemma_hex_invalid_prefix(s, k + 1);
    } else {
        assert(s.take(k) =~= s);
    }
}


/// The value of a decimal digit.
pub open spec fn dec_digit_value(c: char) -> Option<nat> {
    let u = c as u32;
    if 0x30 <= u && u <= 0x39 {
        Some((u - 0x30) as nat)
    } else {
        None
    }
}

/// The value of a sequence of decimal digits; `None` if one is not a digit.
pub open spec fn dec_digits_value(s: Seq<char>) -> Option<nat>
    decreases s.len(),
{
    if s.len() == 0 {
        Some(0)
    } else {
        match (dec_digits_value(s.drop_last()), dec_digit_value(s.last())) {
            (Some(v), Some(d)) => Some(v * 10 + d),
            _ => None,
        }
    }
}

/// `u64::from_str`: an optional leading `+` (not alone), then one or more
/// decimal digits whose value fits in `u64`.
pub open spec fn parse_dec_u64(s: Seq<char>) -> Option<u64> {
    let digits = if s.len() > 0 && s[0] == '+' {
        s.drop_first()
    } else {
        s
    };
    if digits.len() == 0 {
        None
    } else {
        match dec_digits_value(digits) {
            Some(v) => if v <= u64::MAX {
                Some(v as u64)
            } else {
                None
            },
            None => None,
        }
    }
}

/// A valid digit sequence is at least as large as the value of any prefix.
proof fn lemma_dec_prefix_le(s: Seq<char>, k: int)
    requires
        0 <= k <= s.len(),
        dec_digits_value(s) is Some,
    ensures
        dec_digits_value(s.take(k)) is Some,
        dec_digits_value(s.take(k))->0 <= dec_digits_value(s)->0,
    decreases s.len() - k,
{
    if k == s.len() {
        assert(s.take(k) =~= s);
    } else {
        lemma_dec_prefix_le(s.drop_last(), k);
        assert(s.drop_last().take(k) =~= s.take(k));
    }
}

/// A non-digit in a prefix makes the whole sequence invalid.
proof fn lemma_dec_invalid_prefix(s: Seq<char>, k: int)
    requires
        0 < k <= s.len(),
        dec_digits_value(s.take(k)) is None,
    ensures
        dec_digits_value(s) is None,
    decreases s.len() - k,
{
    if k < s.len() {
        let t = s.take(k + 1);
        assert(t.drop_last() =~= s.take(k));
        lemma_dec_invalid_prefix(s, k + 1);
    } else {
        assert(s.take(k) =~= s);
    }
}

/// `u64::from_str` on a character sequence.
pub fn dec_to_u64(s: &[char]) -> (r: Option<u64>)
    ensures
        r == parse_dec_u64(s@),
{
    let start: usize = if s.len() > 0 && s[0] == '+' {
        1
    } else {
        0
    };
    let ghost digits = if s@.len() > 0 && s@[0] == '+' {
        s@.drop_first()
    } else {
        s@
    };
    assert(digits =~= s@.skip(start as int));
    if start == s.len() {
        return None;
    }
    let mut value: u64 = 0;
    let mut i: usize = start;
    assert(digits.take(0) =~= Seq::<char>::empty());
    while i < s.len()
        invariant
            start <= i <= s.len(),
            digits == s@.skip(start as int),
            digits == (if s@.len() > 0 && s@[0] == '+' {
                s@.drop_first()
            } else {
                s@
            }),
            dec_digits_value(digits.take(i - start)) == Some(value as nat),
        decreases s.len() - i,
    {
        let ghost t = digits.take(i - start + 1);
        assert(t.drop_last() =~= digits.take(i - start));
        assert(t.last() == s@[i as int]);
        let c = s[i];
        let u = c as u32;
        if u < 0x30 || u > 0x39 {
            proof {
                assert(dec_digits_value(t) is None);
                lemma_dec_invalid_prefix(digits, i - start + 1);
            }
            return None;
        }
        let d = (u - 0x30) as u64;
        if value > (u64::MAX - d) / 10 {
            proof {
                assert(value * 10 + d > u64::MAX) by (nonlinear_arith)
                    requires
                        value > (u64::MAX - d) / 10,
                        d <= 9,
                ;
                if dec_digits_value(digits) is Some {
                    lemma_dec_prefix_le(digits, i - start + 1);
                }
            }
            return None;
        }
        assert(value * 10 + d <= u64::MAX) by (nonlinear_arith)
            requires
                value <= (u64::MAX - d) / 10,
                d <= 9,
        ;
        value = value * 10 + d;
        i += 1;
    }
    assert(digits.take(s.len() - start) =~= digits);
    Some(value)
}

// ---------------------------------------------------------------------------
// UTF-8 byte lengths
// ---------------------------------------------------------------------------

/// The number of bytes `c` takes in UTF-8.
pub open spec fn utf8_width(c: char) -> nat {
    let u = c as u32;
    if u < 0x80 {
        1
    } else if u < 0x800 {
        2
    } else if u < 0x10000 {
        3
    } else {
        4
    }
}

/// The UTF-8 byte length of a character sequence (`str::len`).
pub open spec fn byte_len(s: Seq<char>) -> nat
    decreases s.len(),
{
    if s.len() == 0 {
        0
    } else {
        byte_len(s.drop_last()) + utf8_width(s.last())
    }
}

/// The number of bytes one character takes in UTF-8.
pub fn char_utf8_width(c: char) -> (w: usize)
    ensures
        w == utf8_width(c),
{
    let u = c as u32;
    if u < 0x80 {
        1
    } else if u < 0x800 {
        2
    } else if u < 0x10000 {
        3
    } else {
        4
    }
}

/// Byte lengths of prefixes grow with the prefix.
pub proof fn lemma_byte_len_prefix_mono(s: Seq<char>, a: int, b: int)
    requires
        0 <= a <= b <= s.len(),
    ensures
        byte_len(s.take(a)) + (b - a) <= byte_len(s.take(b)),
    decreases b - a,
{
    if a < b {
        lemma_byte_len_prefix_mono(s, a, b - 1);
        assert(s.take(b).drop_last() =~= s.take(b - 1));
    }
}

/// The byte length of the first `k` characters, capped: returns the exact
/// length when it is at most `cap`, and some value above `cap` otherwise.
pub fn prefix_byte_len(s: &[char], k: usize, cap: usize) -> (r: usize)
    requires
        k <= s.len(),
        cap < usize::MAX - 4,
    ensures
        r <= cap ==> r == byte_len(s@.take(k as int)),
        r > cap ==> byte_len(s@.take(k as int)) > cap,
{
    let mut total: usize = 0;
    let mut i: usize = 0;
    assert(s@.take(0) =~= Seq::<char>::empty());
    while i < k
        invariant
            i <= k <= s.len(),
            cap < usize::MAX - 4,
            total <= cap,
            total == byte_len(s@.take(i as int)),
        decreases k - i,
    {
        assert(s@.take(i as int + 1).drop_last() =~= s@.take(i as int));
        total = total + char_utf8_width(s[i]);
        i += 1;
        if total > cap {
            proof {
                lemma_byte_len_prefix_mono(s@, i as int, k as int);
            }
            return total;
        }
    }
    total
}

/// The character index at which byte offset `b` falls on a character boundary.
pub open spec fn boundary_index(s: Seq<char>, b: nat) -> Option<int> {
    if exists|k: int| 0 <= k <= s.len() && byte_len(s.take(k)) == b {
        Some(choose|k: int| 0 <= k <= s.len() && byte_len(s.take(k)) == b)
    } else {
        None
    }
}

/// Prefix byte lengths are strictly increasing, so a boundary has one index.
pub proof fn lemma_boundary_unique(s: Seq<char>, a: int, b: int)
    requires
        0 <= a <= s.len(),
        0 <= b <= s.len(),
        byte_len(s.take(a)) == byte_len(s.take(b)),
    ensures
        a == b,
{
    if a < b {
        lemma_byte_len_prefix_mono(s, a, b);
    } else if b < a {
        lemma_byte_len_prefix_mono(s, b, a);
    }
}

/// The character index of byte offset `b`, when `b` is a character boundary.
pub fn char_index_at_byte(s: &[char], b: usize) -> (r: Option<usize>)
    requires
        b < usize::MAX - 4,
    ensures
        match r {
            Some(k) => k <= s@.len() && byte_len(s@.take(k as int)) == b && boundary_index(s@, b as nat)
                == Some(k as int),
            None => boundary_index(s@, b as nat) is None,
        },
{
    let mut total: usize = 0;
    let mut i: usize = 0;
    assert(s@.take(0) =~= Seq::<char>::empty());
    while i < s.len() && total < b
        invariant
            i <= s.len(),
            b < usize::MAX - 4,
            total <= b,
            total == byte_len(s@.take(i as int)),
            forall|k: int| 0 <= k < i ==> byte_len(s@.take(k)) < b,
        decreases s.len() - i,
    {
        assert(s@.take(i as int + 1).drop_last() =~= s@.take(i as int));
        proof {
            lemma_byte_len_prefix_mono(s@, i as int, i as int);
        }
        let w = char_utf8_width(s[i]);
        if total + w > b {
            proof {
                assert forall|k: int| 0 <= k <= s@.len() implies byte_len(s@.take(k)) != b by {
                    if k > i {
                        lemma_byte_len_prefix_mono(s@, i as int + 1, k);
                    }
                }
            }
            return None;
        }
        total = total + w;
        i += 1;
    }
    if total == b {
        proof {
            assert forall|k: int| 0 <= k <= s@.len() && byte_len(s@.take(k)) == b implies k == i by {
                lemma_boundary_unique(s@, k, i as int);
            }
        }
        Some(i)
    } else {
        proof {
            assert forall|k: int| 0 <= k <= s@.len() implies byte_len(s@.take(k)) != b by {
                if k < i {
                } else {
                    assert(s@.take(i as int) =~= s@);
                    assert(k == s@.len());
                    assert(s@.take(k) =~= s@);
                }
            }
        }
        None
    }
}


// ---------------------------------------------------------------------------
// Joining and searching
// ---------------------------------------------------------------------------

/// The pieces joined with `sep` between neighbours (`[..].join(sep)`).
pub open spec fn joined(parts: Seq<Seq<char>>, sep: Seq<char>) -> Seq<char>
    decreases parts.len(),
{
    if parts.len() == 0 {
        Seq::<char>::empty()
    } else if parts.len() == 1 {
        parts[0]
    } else {
        joined(parts.drop_last(), sep) + sep + parts.last()
    }
}

/// Joins pieces `parts[from..]` with `sep`.
pub fn join_pieces(parts: &[Vec<char>], from: usize, sep: &[char]) -> (r: Vec<char>)
    requires
        from <= parts@.len(),
    ensures
        r@ == joined(pieces(parts@).skip(from as int), sep@),
{
    let ghost all = pieces(parts@).skip(from as int);
    let mut r: Vec<char> = Vec::new();
    let mut i: usize = from;
    assert(all.take(0) =~= Seq::<Seq<char>>::empty());
    while i < parts.len()
        invariant
            from <= i <= parts@.len(),
            all == pieces(parts@).skip(from as int),
            r@ == joined(all.take(i - from), sep@),
        decreases parts.len() - i,
    {
        let ghost t = all.take(i - from + 1);
        assert(t.drop_last() =~= all.take(i - from));
        assert(t.last() == parts@[i as int]@);
        if i > from {
            extend_chars(&mut r, sep);
        } else {
            assert(t =~= seq![parts@[i as int]@]);
        }
        extend_chars(&mut r, &parts[i]);
        i += 1;
    }
    assert(all.take(parts@.len() - from) =~= all);
    r
}

/// The first position at which `needle` occurs in `s`.
#[verifier::opaque]
pub open spec fn first_occurrence(s: Seq<char>, needle: Seq<char>) -> Option<int> {
    if contains_seq(s, needle) {
        Some(
            choose|i: int|
                occurs_at(s, needle, i) && forall|j: int| 0 <= j < i ==> !occurs_at(s, needle, j),
        )
    } else {
        None
    }
}

/// The first position at which `needle` occurs in `s`, as `str::find`.
pub fn find_seq(s: &[char], needle: &[char]) -> (r: Option<usize>)
    ensures
        match r {
            Some(i) => first_occurrence(s@, needle@) == Some(i as int) && occurs_at(
                s@,
                needle@,
                i as int,
            ),
            None => first_occurrence(s@, needle@) is None,
        },
{
    let mut i: usize = 0;
    while i < s.len()
        invariant
            i <= s.len(),
            forall|k: int| 0 <= k < i ==> !occurs_at(s@, needle@, k),
        decreases s.len() - i,
    {
        if matches_at(s, needle, i) {
            proof {
                lemma_first_occurrence_at(s@, needle@, i as int);
            }
            return Some(i);
        }
        i += 1;
    }
    if matches_at(s, needle, i) {
        proof {
            lemma_first_occurrence_at(s@, needle@, i as int);
        }
        return Some(i);
    }
    assert forall|k: int| !occurs_at(s@, needle@, k) by {
        if 0 <= k && k < i {
        }
    }
    proof {
        reveal(first_occurrence);
    }
    None
}

/// An occurrence with none before it is the first occurrence.
proof fn lemma_first_occurrence_at(s: Seq<char>, needle: Seq<char>, i: int)
    requires
        occurs_at(s, needle, i),
        forall|k: int| 0 <= k < i ==> !occurs_at(s, needle, k),
    ensures
        first_occurrence(s, needle) == Some(i),
{
    reveal(first_occurrence);
    let w = choose|k: int|
        occurs_at(s, needle, k) && forall|j: int| 0 <= j < k ==> !occurs_at(s, needle, j);
    assert(occurs_at(s, needle, w));
    if w < i {
    } else if w > i {
        assert(!occurs_at(s, needle, i));
    }
}


/// An occurrence has a first occurrence at or before it.
proof fn lemma_earliest_occurrence(s: Seq<char>, needle: Seq<char>, k: int)
    requires
        occurs_at(s, needle, k),
    ensures
        exists|i: int| occurs_at(s, needle, i) && forall|j: int| 0 <= j < i ==> !occurs_at(s, needle, j),
    decreases k,
{
    if exists|j: int| 0 <= j < k && occurs_at(s, needle, j) {
        let j = choose|j: int| 0 <= j < k && occurs_at(s, needle, j);
        lemma_earliest_occurrence(s, needle, j);
    } else {
        assert(occurs_at(s, needle, k) && forall|j: int| 0 <= j < k ==> !occurs_at(s, needle, j));
    }
}

/// The first occurrence, when there is one, is an occurrence.
pub proof fn lemma_first_occurrence_occurs(s: Seq<char>, needle: Seq<char>)
    ensures
        first_occurrence(s, needle) matches Some(i) ==> occurs_at(s, needle, i),
{
    reveal(first_occurrence);
    if contains_seq(s, needle) {
        let k = choose|k: int| occurs_at(s, needle, k);
        lemma_earliest_occurrence(s, needle, k);
    }
}

/// The last position of `c` in `s`.
#[verifier::opaque]
pub open spec fn last_index_of(s: Seq<char>, c: char) -> Option<int> {
    if s.contains(c) {
        Some(choose|i: int| 0 <= i < s.len() && s[i] == c && forall|j: int| i < j < s.len() ==> s[j] != c)
    } else {
        None
    }
}

/// The last position of `c` in `s`, as `str::rfind`.
pub fn rfind_char(s: &[char], c: char) -> (r: Option<usize>)
    ensures
        match r {
            Some(i) => i < s@.len() && s@[i as int] == c && last_index_of(s@, c) == Some(i as int),
            None => last_index_of(s@, c) is None && !s@.contains(c),
        },
{
    let mut j = s.len();
    while j > 0
        invariant
            j <= s.len(),
            forall|k: int| j <= k < s.len() ==> s@[k] != c,
        decreases j,
    {
        if s[j - 1] == c {
            let i = j - 1;
            proof {
                reveal(last_index_of);
                assert(s@.contains(c));
                let w = choose|k: int|
                    0 <= k < s@.len() && s@[k] == c && forall|m: int| k < m < s@.len() ==> s@[m] != c;
                assert(0 <= w < s@.len() && s@[w] == c);
                if w < i {
                } else if w > i {
                }
            }
            return Some(i);
        }
        j -= 1;
    }
    proof {
        reveal(last_index_of);
        assert(!s@.contains(c));
    }
    None
}

/// The first position of `c` in `s`.
pub fn find_char(s: &[char], c: char) -> (r: Option<usize>)
    ensures
        match r {
            Some(i) => i < s@.len() && s@[i as int] == c && forall|j: int| 0 <= j < i ==> s@[j] != c,
            None => !s@.contains(c),
        },
{
    let mut i: usize = 0;
    while i < s.len()
        invariant
            i <= s.len(),
            forall|k: int| 0 <= k < i ==> s@[k] != c,
        decreases s.len() - i,
    {
        if s[i] == c {
            return Some(i);
        }
        i += 1;
    }
    None
}

}

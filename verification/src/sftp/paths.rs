//! Remote path handling and POSIX shell quoting.
use vstd::prelude::*;

use crate::text::{
    chars_eq, chars_of, contains_char, copy_range, extend_chars, has_prefix, pieces, replace,
    replace_all, split_char, split_on, string_from_chars,
};

verus! {

/// The body of a single-quoted shell word: every `'` becomes `'\''`.
pub open spec fn quote_body(s: Seq<char>) -> Seq<char> {
    replace_all(s, seq!['\''], seq!['\'', '\\', '\'', '\''])
}

/// `s` as one single-quoted POSIX shell word.
pub open spec fn shell_quoted(s: Seq<char>) -> Seq<char> {
    seq!['\''] + quote_body(s) + seq!['\'']
}

/// The value a POSIX shell gives to a word made only of single-quoted runs and
/// backslash-escaped characters; `None` when any character would stand
/// unquoted (and could be interpreted by the shell) or a quote is left open.
pub open spec fn shell_word_value(w: Seq<char>, in_quote: bool, escaped: bool) -> Option<Seq<char>>
    decreases w.len(),
{
    if w.len() == 0 {
        if !in_quote && !escaped {
            Some(Seq::<char>::empty())
        } else {
            None
        }
    } else {
        let c = w[0];
        let rest = w.drop_first();
        if escaped {
            match shell_word_value(rest, false, false) {
                Some(v) => Some(seq![c] + v),
                None => None,
            }
        } else if in_quote {
            if c == '\'' {
                shell_word_value(rest, false, false)
            } else {
                match shell_word_value(rest, true, false) {
                    Some(v) => Some(seq![c] + v),
                    None => None,
                }
            }
        } else if c == '\'' {
            shell_word_value(rest, true, false)
        } else if c == '\\' {
            shell_word_value(rest, false, true)
        } else {
            None
        }
    }
}

/// Inside an open quote, the quoted body of `s` followed by the closing quote
/// reads back as `s`.
proof fn lemma_quote_body_value(s: Seq<char>)
    ensures
        shell_word_value(quote_body(s) + seq!['\''], true, false) == Some(s),
    decreases s.len(),
{
    let q = seq!['\''];
    let esc = seq!['\'', '\\', '\'', '\''];
    if s.len() == 0 {
        assert(quote_body(s) == s);
        let w = quote_body(s) + q;
        assert(w =~= q);
        assert(w.drop_first() =~= Seq::<char>::empty());
        assert(w[0] == '\'');
        assert(shell_word_value(Seq::<char>::empty(), false, false) == Some(s));
    } else if s[0] == '\'' {
        assert(s.take(1) =~= q);
        assert(has_prefix(s, q));
        let rest = s.skip(1);
        lemma_quote_body_value(rest);
        assert(quote_body(s) == esc + quote_body(rest));
        let w = quote_body(s) + q;
        let tail = quote_body(rest) + q;
        assert(w =~= esc + tail);
        assert(w.drop_first() =~= seq!['\\', '\'', '\''] + tail);
        assert(w.drop_first().drop_first() =~= seq!['\'', '\''] + tail);
        assert(w.drop_first().drop_first().drop_first() =~= seq!['\''] + tail);
        assert((seq!['\''] + tail).drop_first() =~= tail);
        assert(shell_word_value(seq!['\''] + tail, false, false) == Some(rest));
        assert(shell_word_value(seq!['\'', '\''] + tail, false, true) == Some(seq!['\''] + rest));
        assert(seq!['\''] + rest =~= s);
        assert(w[0] == '\'');
        assert(shell_word_value(w.drop_first(), false, false) == Some(s));
    } else {
        assert(!has_prefix(s, q)) by {
            assert(s.take(1)[0] == s[0]);
        }
        let rest = s.drop_first();
        lemma_quote_body_value(rest);
        assert(quote_body(s) == seq![s[0]] + quote_body(rest));
        let w = quote_body(s) + q;
        assert(w =~= seq![s[0]] + (quote_body(rest) + q));
        assert(w.drop_first() =~= quote_body(rest) + q);
        assert(seq![s[0]] + rest =~= s);
        assert(w[0] == s[0]);
    }
}

/// Quoting is exact: the shell reads a quoted word back as the quoted text,
/// with no character left to shell interpretation.
pub proof fn lemma_shell_quote_roundtrip(s: Seq<char>)
    ensures
        shell_word_value(shell_quoted(s), false, false) == Some(s),
{
    lemma_quote_body_value(s);
    let w = shell_quoted(s);
    assert(w =~= seq!['\''] + (quote_body(s) + seq!['\'']));
    assert(w.drop_first() =~= quote_body(s) + seq!['\'']);
}

/// Quotes `s` as one POSIX shell word.
pub fn shell_quote_chars(s: &[char]) -> (r: Vec<char>)
    ensures
        r@ == shell_quoted(s@),
{
    let quote: [char; 1] = ['\''];
    let escaped: [char; 4] = ['\'', '\\', '\'', '\''];
    let mut r: Vec<char> = Vec::new();
    r.push('\'');
    let body = replace(s, &quote, &escaped);
    assert(quote@ =~= seq!['\'']);
    assert(escaped@ =~= seq!['\'', '\\', '\'', '\'']);
    extend_chars(&mut r, &body);
    r.push('\'');
    assert(r@ =~= shell_quoted(s@));
    r
}

/// Quotes `s` as one POSIX shell word: `'` + `s` with `'` as `'\''` + `'`.
pub fn shell_quote(s: &str) -> (r: String)
    ensures
        r@ == shell_quoted(s@),
{
    let cs = chars_of(s);
    let q = shell_quote_chars(&cs);
    string_from_chars(&q)
}

/// `cwd/name`, without doubling a trailing separator of `cwd`.
pub open spec fn joined_remote_path(cwd: Seq<char>, name: Seq<char>) -> Seq<char> {
    if cwd.len() > 0 && cwd.last() == '/' {
        cwd + name
    } else {
        cwd + seq!['/'] + name
    }
}

/// Joins a remote directory and an entry name.
pub fn join_remote_path_chars(cwd: &[char], name: &[char]) -> (r: Vec<char>)
    ensures
        r@ == joined_remote_path(cwd@, name@),
{
    let mut r = copy_range(cwd, 0, cwd.len());
    assert(cwd@.subrange(0, cwd@.len() as int) =~= cwd@);
    if !(cwd.len() > 0 && cwd[cwd.len() - 1] == '/') {
        r.push('/');
    }
    extend_chars(&mut r, name);
    r
}

/// Joins a remote directory and an entry name.
pub fn join_remote_path(cwd: &str, name: &str) -> (r: String)
    ensures
        r@ == joined_remote_path(cwd@, name@),
{
    let c = chars_of(cwd);
    let n = chars_of(name);
    let j = join_remote_path_chars(&c, &n);
    string_from_chars(&j)
}

/// A remote path is absolute when it starts with `/`.
pub open spec fn is_absolute_remote(path: Seq<char>) -> bool {
    path.len() > 0 && path[0] == '/'
}

/// Whether a remote path is absolute.
pub fn is_absolute_remote_path(path: &str) -> (r: bool)
    ensures
        r == is_absolute_remote(path@),
{
    let c = chars_of(path);
    c.len() > 0 && c[0] == '/'
}

/// The segments of a path after dropping empty and `.` segments and letting
/// each `..` remove the segment before it (never going above the root).
pub open spec fn resolved_segments(parts: Seq<Seq<char>>) -> Seq<Seq<char>>
    decreases parts.len(),
{
    if parts.len() == 0 {
        parts
    } else {
        let done = resolved_segments(parts.drop_last());
        let p = parts.last();
        if p.len() == 0 || p == seq!['.'] {
            done
        } else if p == seq!['.', '.'] {
            if done.len() > 0 {
                done.drop_last()
            } else {
                done
            }
        } else {
            done.push(p)
        }
    }
}

/// Each segment, preceded by `/`.
pub open spec fn slash_joined(segments: Seq<Seq<char>>) -> Seq<char>
    decreases segments.len(),
{
    if segments.len() == 0 {
        Seq::<char>::empty()
    } else {
        slash_joined(segments.drop_last()) + seq!['/'] + segments.last()
    }
}

/// The normal form of a remote path: absolute, with single separators, no
/// `.` or `..` segments and no trailing separator (the root is `/`).
pub open spec fn normalized_remote_path(path: Seq<char>) -> Seq<char> {
    let segments = resolved_segments(split_char(path, '/'));
    if segments.len() == 0 {
        seq!['/']
    } else {
        slash_joined(segments)
    }
}

/// Normalizes a remote path (see `normalized_remote_path`).
pub fn normalize_remote_path_chars(path: &[char]) -> (r: Vec<char>)
    ensures
        r@ == normalized_remote_path(path@),
{
    let parts = split_on(path, '/');
    let ghost sp = split_char(path@, '/');
    let mut segs: Vec<Vec<char>> = Vec::new();
    let mut i: usize = 0;
    while i < parts.len()
        invariant
            i <= parts@.len(),
            pieces(parts@) == sp,
            pieces(segs@) == resolved_segments(sp.take(i as int)),
        decreases parts.len() - i,
    {
        let ghost t = sp.take(i as int + 1);
        assert(t.drop_last() =~= sp.take(i as int));
        assert(t.last() == parts@[i as int]@);
        let p = &parts[i];
        let dot: [char; 1] = ['.'];
        let dotdot: [char; 2] = ['.', '.'];
        assert(dot@ =~= seq!['.']);
        assert(dotdot@ =~= seq!['.', '.']);
        if p.len() == 0 || chars_eq(p, &dot) {
        } else if chars_eq(p, &dotdot) {
            if segs.len() > 0 {
                let ghost before = segs@;
                segs.pop();
                assert(pieces(segs@) =~= pieces(before).drop_last());
            }
        } else {
            let ghost before = segs@;
            segs.push(copy_range(p, 0, p.len()));
            assert(p@.subrange(0, p@.len() as int) =~= p@);
            assert(pieces(segs@) =~= pieces(before).push(p@));
        }
        i += 1;
    }
    assert(sp.take(parts@.len() as int) =~= sp);
    let mut r: Vec<char> = Vec::new();
    if segs.len() == 0 {
        r.push('/');
        assert(r@ =~= seq!['/']);
        return r;
    }
    let mut k: usize = 0;
    assert(pieces(segs@).take(0) =~= Seq::<Seq<char>>::empty());
    while k < segs.len()
        invariant
            k <= segs@.len(),
            r@ == slash_joined(pieces(segs@).take(k as int)),
        decreases segs.len() - k,
    {
        r.push('/');
        extend_chars(&mut r, &segs[k]);
        k += 1;
        let ghost t = pieces(segs@).take(k as int);
        assert(t.drop_last() =~= pieces(segs@).take(k - 1));
    }
    assert(pieces(segs@).take(segs@.len() as int) =~= pieces(segs@));
    r
}

/// Normalizes a remote path (see `normalized_remote_path`).
pub fn normalize_remote_path(path: &str) -> (r: String)
    ensures
        r@ == normalized_remote_path(path@),
{
    let c = chars_of(path);
    let n = normalize_remote_path_chars(&c);
    string_from_chars(&n)
}

/// An entry name that may become part of a transfer path: not empty, not a
/// dot entry, and free of separators (`/`, `\`) and NUL.
pub open spec fn valid_remote_entry_name(name: Seq<char>) -> bool {
    &&& name.len() > 0
    &&& name != seq!['.']
    &&& name != seq!['.', '.']
    &&& !name.contains('/')
    &&& !name.contains('\\')
    &&& !name.contains('\0')
}

/// Why an entry name cannot be used in a remote path.
#[derive(Clone, Copy, Debug, PartialEq, Eq)]
pub enum InvalidEntryName {
    /// The name is empty.
    Empty,
    /// The name is `.` or `..`.
    DotEntry,
    /// The name holds a separator or NUL.
    ForbiddenCharacter,
}

/// Checks that a remote entry name can be joined under a directory.
pub fn validate_remote_entry_name(name: &str) -> (r: Result<(), InvalidEntryName>)
    ensures
        r is Ok <==> valid_remote_entry_name(name@),
{
    let c = chars_of(name);
    let dot: [char; 1] = ['.'];
    let dotdot: [char; 2] = ['.', '.'];
    assert(dot@ =~= seq!['.']);
    assert(dotdot@ =~= seq!['.', '.']);
    if c.len() == 0 {
        Err(InvalidEntryName::Empty)
    } else if chars_eq(&c, &dot) || chars_eq(&c, &dotdot) {
        Err(InvalidEntryName::DotEntry)
    } else if contains_char(&c, '/') || contains_char(&c, '\\') || contains_char(&c, '\0') {
        Err(InvalidEntryName::ForbiddenCharacter)
    } else {
        Ok(())
    }
}

}

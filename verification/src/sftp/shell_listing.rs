//! Directory listing for SSH servers without SFTP: the remote command, the
//! classification of SFTP start-up failures, and the parser of `ls -l` output.
use vstd::prelude::*;

use crate::sftp::paths::{join_remote_path_chars, joined_remote_path, shell_quote_chars, shell_quoted};
use crate::sftp::types::{FileInfo, FileInfoView, FileType, SftpError};
use crate::text::{
    ascii_lower_seq, boundary_index, byte_len, char_index_at_byte, chars_eq, chars_of, contains,
    contains_seq, copy_range, dec_to_u64, extend_chars, extend_str, find_seq, first_occurrence,
    has_prefix, join_pieces, joined, lines, occurs_at, parse_dec_u64, pieces, prefix_byte_len,
    radix_digits, radix_string, split_lines, split_whitespace, starts_with, string_from_chars,
    to_ascii_lowercase, trim, trim_ws, words,
};

verus! {

/// At most this many entries are kept from one listing.
pub const SHELL_LIST_MAX_ENTRIES: usize = 4_000;

/// At most this many bytes of listing output are kept.
pub const SHELL_LIST_MAX_OUTPUT_BYTES: usize = 512 * 1024;

/// The phrases that identify a remote without a usable SFTP protocol.
pub open spec fn sftp_unavailable_needles() -> Seq<Seq<char>> {
    seq![
        "sftp subsystem not available"@,
        "failed to request sftp subsystem"@,
        "failed to start remote sftp-server"@,
        "server disabled subsystem"@,
        "subsystem not available"@,
    ]
}

/// The error text names one of the SFTP-unavailable phrases (ASCII case-insensitive).
pub open spec fn sftp_protocol_unavailable(error: Seq<char>) -> bool {
    exists|i: int|
        0 <= i < sftp_unavailable_needles().len() && contains_seq(
            ascii_lower_seq(error),
            sftp_unavailable_needles()[i],
        )
}

/// Returns whether the error means the remote has no usable SFTP protocol.
pub fn error_is_sftp_protocol_unavailable(error: &str) -> (r: bool)
    ensures
        r == sftp_protocol_unavailable(error@),
{
    let e = chars_of(error);
    let lower = to_ascii_lowercase(&e);
    let needles: [&str; 5] = [
        "sftp subsystem not available",
        "failed to request sftp subsystem",
        "failed to start remote sftp-server",
        "server disabled subsystem",
        "subsystem not available",
    ];
    assert(needles@.map_values(|n: &str| n@) =~= sftp_unavailable_needles());
    let mut i: usize = 0;
    while i < 5
        invariant
            i <= 5,
            lower@ == ascii_lower_seq(error@),
            needles@.map_values(|n: &str| n@) == sftp_unavailable_needles(),
            needles@.len() == 5,
            forall|k: int|
                0 <= k < i ==> !contains_seq(ascii_lower_seq(error@), sftp_unavailable_needles()[k]),
        decreases 5 - i,
    {
        let n = chars_of(needles[i]);
        assert(n@ == sftp_unavailable_needles()[i as int]);
        if contains(&lower, &n) {
            return true;
        }
        i += 1;
    }
    false
}

/// The script run by `/bin/sh`: enter the requested directory (the home
/// directory when none is given), print it, then list it.
pub open spec fn shell_listing_script(path: Seq<char>) -> Seq<char> {
    if trim(path).len() == 0 {
        "cd \"${HOME:-.}\" 2>/dev/null || cd / || exit 2; pwd; ls -A -l 2>/dev/null || ls -a -l"@
    } else {
        "cd -- "@ + shell_quoted(trim(path)) + " || exit 2; pwd; ls -A -l 2>/dev/null || ls -a -l"@
    }
}

/// The exec command for listing one remote directory.
pub open spec fn shell_listing_command_text(path: Seq<char>) -> Seq<char> {
    "/bin/sh -c "@ + shell_quoted(shell_listing_script(path))
}

/// The exec command for listing one remote directory.
pub fn shell_listing_command(path: &str) -> (r: String)
    ensures
        r@ == shell_listing_command_text(path@),
{
    let p = chars_of(path);
    let trimmed = trim_ws(&p);
    let mut inner: Vec<char> = Vec::new();
    if trimmed.len() == 0 {
        extend_str(
            &mut inner,
            "cd \"${HOME:-.}\" 2>/dev/null || cd / || exit 2; pwd; ls -A -l 2>/dev/null || ls -a -l",
        );
    } else {
        extend_str(&mut inner, "cd -- ");
        let q = shell_quote_chars(&trimmed);
        extend_chars(&mut inner, &q);
        extend_str(&mut inner, " || exit 2; pwd; ls -A -l 2>/dev/null || ls -a -l");
    }
    let mut command: Vec<char> = Vec::new();
    extend_str(&mut command, "/bin/sh -c ");
    let q = shell_quote_chars(&inner);
    extend_chars(&mut command, &q);
    string_from_chars(&command)
}

/// Two to the power `n`.
pub open spec fn pow2(n: nat) -> nat
    decreases n,
{
    if n == 0 {
        1
    } else {
        2 * pow2((n - 1) as nat)
    }
}

/// The permission bits of the nine `rwx` flag characters: the flag at position
/// `i` sets bit `8 - i` unless it is `-`.
pub open spec fn perm_bits(flags: Seq<char>) -> nat
    decreases flags.len(),
{
    if flags.len() == 0 {
        0
    } else {
        perm_bits(flags.drop_last()) + if flags.last() != '-' {
            pow2((8 - (flags.len() - 1)) as nat)
        } else {
            0
        }
    }
}

/// The permission text of an `ls -l` mode column: `000` for a short column,
/// otherwise the octal value of the flags in bytes 1 to 9.
pub open spec fn ls_mode_text(perms: Seq<char>) -> Seq<char> {
    if byte_len(perms) < 10 {
        "000"@
    } else {
        match boundary_index(perms, 10) {
            Some(k) => radix_digits(perm_bits(perms.subrange(1, k)), 8),
            None => "000"@,
        }
    }
}

/// The mode column can be sliced at bytes 1 and 10 when it is long enough.
pub open spec fn ls_mode_sliceable(perms: Seq<char>) -> bool {
    byte_len(perms) < 10 || (boundary_index(perms, 1) is Some && boundary_index(perms, 10) is Some)
}

/// The bit for flag position `i` (below nine).
fn flag_bit(i: usize) -> (b: u32)
    requires
        i < 9,
    ensures
        b == pow2((8 - i) as nat),
        b <= 256,
{
    proof {
        reveal_with_fuel(pow2, 9);
    }
    match i {
        0 => 256,
        1 => 128,
        2 => 64,
        3 => 32,
        4 => 16,
        5 => 8,
        6 => 4,
        7 => 2,
        _ => 1,
    }
}

/// The octal permission text of an `ls -l` mode column.
pub fn unix_mode_from_ls_perms(perms: &str) -> (r: String)
    requires
        ls_mode_sliceable(perms@),
    ensures
        r@ == ls_mode_text(perms@),
{
    let p = chars_of(perms);
    let mode = unix_mode_chars(&p);
    string_from_chars(&mode)
}

/// The octal permission text of an `ls -l` mode column.
fn unix_mode_chars(p: &[char]) -> (r: Vec<char>)
    requires
        ls_mode_sliceable(p@),
    ensures
        r@ == ls_mode_text(p@),
{
    let len = prefix_byte_len(p, p.len(), 10);
    assert(p@.take(p@.len() as int) =~= p@);
    if len < 10 {
        let r = chars_of("000");
        return r;
    }
    let start = match char_index_at_byte(p, 1) {
        Some(k) => k,
        None => {
            assert(false);
            0
        },
    };
    let end = match char_index_at_byte(p, 10) {
        Some(k) => k,
        None => {
            assert(false);
            0
        },
    };
    proof {
        crate::text::lemma_byte_len_prefix_mono(p@, 0, start as int);
        assert(p@.take(0) =~= Seq::<char>::empty());
        if start > 1 {
            crate::text::lemma_byte_len_prefix_mono(p@, 1, start as int);
            assert(p@.take(1).drop_last() =~= Seq::<char>::empty());
        }
        assert(start == 1);
        if end < start {
            crate::text::lemma_byte_len_prefix_mono(p@, end as int, start as int);
        }
        crate::text::lemma_byte_len_prefix_mono(p@, 1, end as int);
    }
    let flags = copy_range(p, start, end);
    let mut mode: u32 = 0;
    let mut i: usize = 0;
    assert(flags@.take(0) =~= Seq::<char>::empty());
    proof {
        reveal_with_fuel(pow2, 10);
    }
    while i < flags.len()
        invariant
            i <= flags@.len(),
            flags@.len() <= 9,
            mode == perm_bits(flags@.take(i as int)),
            mode <= 512 - pow2((9 - i) as nat),
        decreases flags.len() - i,
    {
        let ghost t = flags@.take(i as int + 1);
        assert(t.drop_last() =~= flags@.take(i as int));
        let b = flag_bit(i);
        proof {
            reveal_with_fuel(pow2, 10);
            assert(pow2((9 - i) as nat) == 2 * pow2((8 - i) as nat));
        }
        if flags[i] != '-' {
            mode = mode + b;
        }
        i += 1;
    }
    assert(flags@.take(flags@.len() as int) =~= flags@);
    radix_string(mode as u64, 8)
}

/// The entry kind named by the first character of an `ls -l` mode column.
pub open spec fn ls_kind(c: char) -> Option<FileType> {
    if c == 'd' {
        Some(FileType::Directory)
    } else if c == 'l' {
        Some(FileType::Symlink)
    } else if c == '-' || c == 'b' || c == 'c' || c == 'p' || c == 's' {
        Some(FileType::File)
    } else {
        None
    }
}

/// The name and link target of the text after the date columns.
pub open spec fn ls_name_and_target(kind: FileType, rest: Seq<char>) -> (Seq<char>, Option<Seq<char>>) {
    if kind == FileType::Symlink {
        match first_occurrence(rest, " -> "@) {
            Some(i) => (rest.take(i), Some(rest.skip(i + 4))),
            None => (rest, None),
        }
    } else {
        (rest, None)
    }
}

/// The columns of an `ls -l` line that describes a listable entry: its kind,
/// its words, its name and link target.
pub open spec fn ls_line_fields(line: Seq<char>) -> Option<(FileType, Seq<Seq<char>>, Seq<char>, Option<Seq<char>>)> {
    let t = trim(line);
    if t.len() == 0 || has_prefix(t, "total "@) {
        None
    } else {
        let ws = words(t);
        if ws.len() == 0 || byte_len(ws[0]) < 10 {
            None
        } else {
            match ls_kind(ws[0][0]) {
                None => None,
                Some(kind) => if ws.len() < 9 {
                    None
                } else {
                    let (name, target) = ls_name_and_target(kind, joined(ws.skip(8), " "@));
                    if name == "."@ || name == ".."@ {
                        None
                    } else {
                        Some((kind, ws, name, target))
                    }
                },
            }
        }
    }
}

/// Reading the line's mode column would cut a character in two.
pub open spec fn ls_line_panics(line: Seq<char>) -> bool {
    match ls_line_fields(line) {
        Some((kind, ws, name, target)) => !ls_mode_sliceable(ws[0]),
        None => false,
    }
}

/// The entry an `ls -l` line describes in directory `cwd`, if any.
pub open spec fn ls_line_entry(line: Seq<char>, cwd: Seq<char>) -> Option<FileInfoView> {
    match ls_line_fields(line) {
        Some((kind, ws, name, target)) => Some(
            FileInfoView {
                name: name,
                path: joined_remote_path(cwd, name),
                file_type: kind,
                size: match parse_dec_u64(ws[4]) {
                    Some(v) => v,
                    None => 0,
                },
                modified: 0,
                permissions: ls_mode_text(ws[0]),
                owner: Some(ws[2]),
                group: Some(ws[3]),
                is_symlink: kind == FileType::Symlink,
                symlink_target: target,
            },
        ),
        None => None,
    }
}

/// The mode column of a line that describes a listable entry, if it does.
#[verifier::rlimit(50)]
fn entry_mode_column(l: &[char]) -> (r: Option<Vec<char>>)
    ensures
        match r {
            Some(p) => ls_line_fields(l@) matches Some((kind, ws, name, target)) && p@ == ws[0],
            None => ls_line_fields(l@) is None,
        },
{
    let t = trim_ws(l);
    let total = chars_of("total ");
    if t.len() == 0 || starts_with(&t, &total) {
        return None;
    }
    let ws = split_whitespace(&t);
    if ws.len() == 0 {
        return None;
    }
    let perms = &ws[0];
    assert(perms@ == words(t@)[0]);
    let perms_len = prefix_byte_len(perms, perms.len(), 10);
    assert(perms@.take(perms@.len() as int) =~= perms@);
    if perms_len < 10 {
        return None;
    }
    let kind = if perms[0] == 'd' {
        FileType::Directory
    } else if perms[0] == 'l' {
        FileType::Symlink
    } else if perms[0] == '-' || perms[0] == 'b' || perms[0] == 'c' || perms[0] == 'p' || perms[0]
        == 's' {
        FileType::File
    } else {
        return None;
    };
    if ws.len() < 9 {
        return None;
    }
    let space = chars_of(" ");
    let rest = join_pieces(&ws, 8, &space);
    let (name, target) = ls_name_target_chars(kind, &rest);
    let dot = chars_of(".");
    let dotdot = chars_of("..");
    if chars_eq(&name, &dot) || chars_eq(&name, &dotdot) {
        return None;
    }
    let ghost fields = (kind, pieces(ws@), name@, crate::sftp::types::opt_chars_view(target));
    assert(ls_line_fields(l@) == Some(fields));
    Some(copy_range(perms, 0, perms.len()))
}

/// Whether reading a line's mode column would cut a character in two (see
/// `ls_line_panics`).
pub fn ls_line_cuts_mode_column(line: &str) -> (r: bool)
    ensures
        r == ls_line_panics(line@),
{
    let l = chars_of(line);
    match entry_mode_column(&l) {
        None => false,
        Some(p) => {
            assert(p@.subrange(0, p@.len() as int) =~= p@);
            let n = prefix_byte_len(&p, p.len(), 10);
            assert(p@.take(p@.len() as int) =~= p@);
            if n < 10 {
                false
            } else {
                !(char_index_at_byte(&p, 1).is_some() && char_index_at_byte(&p, 10).is_some())
            }
        },
    }
}

/// Whether a shell listing's output can be read (see `listing_parses`):
/// no line read before the entry limit would cut a character in two.
pub fn shell_listing_parses(output: &str, requested_path: &str) -> (r: bool)
    ensures
        r == listing_parses(output@, requested_path@),
{
    let o = chars_of(output);
    let ls = split_lines(&o);
    let ghost lv = lines(output@);
    let ghost cwd = listing_cwd(lv, requested_path@);
    assert(pieces(ls@) == lv);
    let mut count: usize = 0;
    let mut i: usize = 1;
    while i < ls.len()
        invariant
            1 <= i,
            pieces(ls@) == lv,
            lv == lines(output@),
            cwd == listing_cwd(lv, requested_path@),
            count <= SHELL_LIST_MAX_ENTRIES,
            listing_panics_from(lv, cwd, 1, 0) == listing_panics_from(lv, cwd, i as int, count as nat),
        decreases ls.len() - i,
    {
        assert(lv.len() == ls@.len());
        if count >= SHELL_LIST_MAX_ENTRIES {
            assert(!listing_panics_from(lv, cwd, i as int, count as nat));
            return true;
        }
        assert(ls@[i as int]@ == lv[i as int]);
        let line = string_from_chars(&ls[i]);
        if ls_line_cuts_mode_column(line.as_str()) {
            assert(ls_line_panics(lv[i as int]));
            assert(listing_panics_from(lv, cwd, i as int, count as nat));
            return false;
        }
        if entry_mode_column(&ls[i]).is_some() {
            count += 1;
        }
        i += 1;
    }
    true
}

/// Parses one BusyBox or GNU `ls -l` line.
pub fn parse_busybox_ls_long_line(line: &str, cwd: &str) -> (r: Option<FileInfo>)
    requires
        !ls_line_panics(line@),
    ensures
        match r {
            Some(info) => ls_line_entry(line@, cwd@) == Some(info@),
            None => ls_line_entry(line@, cwd@) is None,
        },
{
    let l = chars_of(line);
    let c = chars_of(cwd);
    parse_ls_line_chars(&l, &c)
}

/// Parses one `ls -l` line given as characters.
#[verifier::rlimit(50)]
fn parse_ls_line_chars(l: &[char], cwd: &[char]) -> (r: Option<FileInfo>)
    requires
        !ls_line_panics(l@),
    ensures
        match r {
            Some(info) => ls_line_entry(l@, cwd@) == Some(info@),
            None => ls_line_entry(l@, cwd@) is None,
        },
{
    let t = trim_ws(l);
    let total = chars_of("total ");
    if t.len() == 0 || starts_with(&t, &total) {
        return None;
    }
    let ws = split_whitespace(&t);
    if ws.len() == 0 {
        return None;
    }
    let perms = &ws[0];
    assert(perms@ == words(t@)[0]);
    let perms_len = prefix_byte_len(perms, perms.len(), 10);
    assert(perms@.take(perms@.len() as int) =~= perms@);
    if perms_len < 10 {
        return None;
    }
    let kind = if perms[0] == 'd' {
        FileType::Directory
    } else if perms[0] == 'l' {
        FileType::Symlink
    } else if perms[0] == '-' || perms[0] == 'b' || perms[0] == 'c' || perms[0] == 'p' || perms[0]
        == 's' {
        FileType::File
    } else {
        return None;
    };
    if ws.len() < 9 {
        return None;
    }
    let space = chars_of(" ");
    let rest = join_pieces(&ws, 8, &space);
    let (name, target) = ls_name_target_chars(kind, &rest);
    let ghost fields = (kind, pieces(ws@), name@, crate::sftp::types::opt_chars_view(target));
    let dot = chars_of(".");
    let dotdot = chars_of("..");
    if chars_eq(&name, &dot) || chars_eq(&name, &dotdot) {
        return None;
    }
    let size = match dec_to_u64(&ws[4]) {
        Some(v) => v,
        None => 0,
    };
    let path = join_remote_path_chars(cwd, &name);
    let mode = unix_mode_chars(perms);
    let info = FileInfo {
        name: string_from_chars(&name),
        path: string_from_chars(&path),
        file_type: kind,
        size: size,
        modified: 0,
        permissions: string_from_chars(&mode),
        owner: Some(string_from_chars(&ws[2])),
        group: Some(string_from_chars(&ws[3])),
        is_symlink: kind == FileType::Symlink,
        symlink_target: match target {
            Some(t) => Some(string_from_chars(&t)),
            None => None,
        },
    };
    assert(ls_line_fields(l@) == Some(fields));
    assert(info@ == ls_line_entry(l@, cwd@)->0);
    Some(info)
}

/// The name and link target of the text after the date columns.
fn ls_name_target_chars(kind: FileType, rest: &[char]) -> (r: (Vec<char>, Option<Vec<char>>))
    ensures
        ls_name_and_target(kind, rest@) == (r.0@, crate::sftp::types::opt_chars_view(r.1)),
{
    let arrow = chars_of(" -> ");
    proof {
        reveal_strlit(" -> ");
    }
    assert(rest@.subrange(0, rest@.len() as int) =~= rest@);
    if kind == FileType::Symlink {
        match find_seq(rest, &arrow) {
            Some(i) => {
                assert(i + 4 <= rest@.len());
                assert(rest@.len() == rest.len());
                let name = copy_range(rest, 0, i);
                let target = copy_range(rest, i + 4, rest.len());
                assert(rest@.subrange(0, i as int) =~= rest@.take(i as int));
                assert(rest@.subrange(i + 4, rest@.len() as int) =~= rest@.skip(i + 4));
                (name, Some(target))
            },
            None => (copy_range(rest, 0, rest.len()), None),
        }
    } else {
        (copy_range(rest, 0, rest.len()), None)
    }
}


/// The directory a listing reports: its first line (trimmed) unless that is
/// empty or a `total` line, otherwise the requested path (or `/`).
pub open spec fn listing_cwd(ls: Seq<Seq<char>>, requested: Seq<char>) -> Seq<char> {
    if ls.len() > 0 && trim(ls[0]).len() > 0 && !has_prefix(trim(ls[0]), "total "@) {
        trim(ls[0])
    } else if trim(requested).len() == 0 {
        "/"@
    } else {
        trim(requested)
    }
}

/// The entries of lines `i..`, given `count` entries so far, stopping once
/// `SHELL_LIST_MAX_ENTRIES` entries are collected.
pub open spec fn listing_entries_from(ls: Seq<Seq<char>>, cwd: Seq<char>, i: int, count: nat) -> Seq<FileInfoView>
    decreases ls.len() - i,
{
    if i < 0 || i >= ls.len() || count >= SHELL_LIST_MAX_ENTRIES {
        Seq::<FileInfoView>::empty()
    } else {
        match ls_line_entry(ls[i], cwd) {
            Some(e) => seq![e] + listing_entries_from(ls, cwd, i + 1, count + 1),
            None => listing_entries_from(ls, cwd, i + 1, count),
        }
    }
}

/// Entries are collected only up to the limit.
proof fn lemma_listing_entries_bounded(ls: Seq<Seq<char>>, cwd: Seq<char>, i: int, count: nat)
    requires
        count <= SHELL_LIST_MAX_ENTRIES,
    ensures
        listing_entries_from(ls, cwd, i, count).len() + count <= SHELL_LIST_MAX_ENTRIES,
    decreases ls.len() - i,
{
    if !(i < 0 || i >= ls.len() || count >= SHELL_LIST_MAX_ENTRIES) {
        match ls_line_entry(ls[i], cwd) {
            Some(e) => lemma_listing_entries_bounded(ls, cwd, i + 1, count + 1),
            None => lemma_listing_entries_bounded(ls, cwd, i + 1, count),
        }
    }
}

/// A shell listing is bounded: it reports at most `SHELL_LIST_MAX_ENTRIES`
/// entries, whatever the remote printed.
pub proof fn lemma_shell_listing_is_bounded(output: Seq<char>, requested: Seq<char>)
    ensures
        listing_entries_from(lines(output), listing_cwd(lines(output), requested), 1, 0).len()
            <= SHELL_LIST_MAX_ENTRIES,
{
    lemma_listing_entries_bounded(lines(output), listing_cwd(lines(output), requested), 1, 0);
}

/// Some line read before the entry limit is reached would cut a character.
pub open spec fn listing_panics_from(ls: Seq<Seq<char>>, cwd: Seq<char>, i: int, count: nat) -> bool
    decreases ls.len() - i,
{
    if i < 0 || i >= ls.len() || count >= SHELL_LIST_MAX_ENTRIES {
        false
    } else if ls_line_panics(ls[i]) {
        true
    } else {
        match ls_line_entry(ls[i], cwd) {
            Some(e) => listing_panics_from(ls, cwd, i + 1, count + 1),
            None => listing_panics_from(ls, cwd, i + 1, count),
        }
    }
}

/// The views of a vector of entries.
pub open spec fn entry_views(v: Seq<FileInfo>) -> Seq<FileInfoView> {
    v.map_values(|e: FileInfo| e@)
}

/// The output of the listing script parses without cutting a character.
pub open spec fn listing_parses(output: Seq<char>, requested: Seq<char>) -> bool {
    let ls = lines(output);
    !listing_panics_from(ls, listing_cwd(ls, requested), 1, 0)
}

/// Reads the `pwd` line and then the entries of the listing script's output.
pub fn parse_shell_listing(output: &str, requested_path: &str) -> (r: Result<(String, Vec<FileInfo>), SftpError>)
    requires
        listing_parses(output@, requested_path@),
    ensures
        r is Ok,
        r matches Ok((cwd, entries)) ==> {
            let ls = lines(output@);
            &&& cwd@ == listing_cwd(ls, requested_path@)
            &&& entry_views(entries@) == listing_entries_from(ls, cwd@, 1, 0)
        },
{
    let o = chars_of(output);
    let ls = split_lines(&o);
    let ghost lv = lines(output@);
    assert(pieces(ls@) == lv);
    let total = chars_of("total ");
    let cwd: Vec<char> = if ls.len() > 0 {
        let first = trim_ws(&ls[0]);
        if first.len() > 0 && !starts_with(&first, &total) {
            first
        } else {
            let req = chars_of(requested_path);
            let rt = trim_ws(&req);
            if rt.len() == 0 {
                chars_of("/")
            } else {
                rt
            }
        }
    } else {
        let req = chars_of(requested_path);
        let rt = trim_ws(&req);
        if rt.len() == 0 {
            chars_of("/")
        } else {
            rt
        }
    };
    assert(cwd@ == listing_cwd(lv, requested_path@));
    let mut entries: Vec<FileInfo> = Vec::new();
    let mut i: usize = 1;
    assert(entry_views(entries@) =~= Seq::<FileInfoView>::empty());
    while i < ls.len() && entries.len() < SHELL_LIST_MAX_ENTRIES
        invariant
            1 <= i,
            i <= ls@.len() || ls@.len() == 0,
            pieces(ls@) == lv,
            !listing_panics_from(lv, cwd@, i as int, entries@.len()),
            listing_entries_from(lv, cwd@, 1, 0) == entry_views(entries@) + listing_entries_from(
                lv,
                cwd@,
                i as int,
                entries@.len(),
            ),
        decreases ls.len() - i,
    {
        assert(ls@[i as int]@ == lv[i as int]);
        let ghost before = entries@;
        match parse_ls_line_chars(&ls[i], &cwd) {
            Some(entry) => {
                entries.push(entry);
                assert(entry_views(entries@) =~= entry_views(before).push(entry@));
                assert(entry_views(before) + (seq![entry@] + listing_entries_from(
                    lv,
                    cwd@,
                    i + 1,
                    entries@.len(),
                )) =~= entry_views(entries@) + listing_entries_from(
                    lv,
                    cwd@,
                    i + 1,
                    entries@.len(),
                ));
            },
            None => {},
        }
        i += 1;
    }
    proof {
        if entries@.len() < SHELL_LIST_MAX_ENTRIES {
            assert(listing_entries_from(lv, cwd@, i as int, entries@.len()) =~= Seq::<FileInfoView>::empty());
        }
        assert(entry_views(entries@) + Seq::<FileInfoView>::empty() =~= entry_views(entries@));
    }
    Ok((string_from_chars(&cwd), entries))
}


/// An `ls -l` line lists an entry only when it has at least nine columns and
/// a mode column of at least ten bytes; the entry takes the owner from the
/// third column and the group from the fourth, the size from the fifth (0
/// when it is not a number), its kind from the mode's first character (`d`
/// a directory, `l` a symbolic link, `-`, `b`, `c`, `p`, `s` a file), its
/// name from the rest of the line after the date (never `.` or `..`), and
/// its path from the name inside `cwd`.
pub proof fn lemma_ls_entry_columns(line: Seq<char>, cwd: Seq<char>)
    ensures
        ls_line_entry(line, cwd) matches Some(e) ==> {
            let ws = words(trim(line));
            &&& ws.len() >= 9
            &&& byte_len(ws[0]) >= 10
            &&& e.owner == Some(ws[2])
            &&& e.group == Some(ws[3])
            &&& e.size == match parse_dec_u64(ws[4]) {
                Some(v) => v,
                None => 0u64,
            }
            &&& (e.file_type == FileType::Directory <==> ws[0][0] == 'd')
            &&& (e.file_type == FileType::Symlink <==> ws[0][0] == 'l')
            &&& (e.file_type == FileType::File <==> (ws[0][0] == '-' || ws[0][0] == 'b' || ws[0][0] == 'c'
                || ws[0][0] == 'p' || ws[0][0] == 's'))
            &&& e.is_symlink == (ws[0][0] == 'l')
            &&& e.name != "."@ && e.name != ".."@
            &&& e.path == joined_remote_path(cwd, e.name)
            &&& e.modified == 0
            &&& e.file_type != FileType::Unknown
            &&& e.file_type != FileType::Symlink ==> e.name == joined(ws.skip(8), " "@) && e.symlink_target is None
            &&& e.symlink_target matches Some(t) ==> joined(ws.skip(8), " "@) == e.name + " -> "@ + t
            &&& e.file_type == FileType::Symlink && e.symlink_target is None ==> e.name == joined(ws.skip(8), " "@)
        },
        ls_line_entry(line, cwd) is Some <==> ls_line_fields(line) is Some,
        trim(line).len() == 0 || has_prefix(trim(line), "total "@) ==> ls_line_entry(line, cwd) is None,
{
    if let Some((kind, ws, name, target)) = ls_line_fields(line) {
        lemma_name_and_target(kind, joined(ws.skip(8), " "@));
    }
}

/// The name and link target split the text after the date at its first ` -> `.
proof fn lemma_name_and_target(kind: FileType, rest: Seq<char>)
    ensures
        ({
            let (name, target) = ls_name_and_target(kind, rest);
            &&& kind != FileType::Symlink ==> name == rest && target is None
            &&& target is None ==> name == rest
            &&& target matches Some(t) ==> rest == name + " -> "@ + t
        }),
{
    crate::text::lemma_first_occurrence_occurs(rest, " -> "@);
    if kind == FileType::Symlink {
        if let Some(i) = first_occurrence(rest, " -> "@) {
            reveal_strlit(" -> ");
            assert(rest.subrange(i, i + 4) == " -> "@);
            assert(rest =~= rest.take(i) + " -> "@ + rest.skip(i + 4));
        }
    }
}


/// Whether a permission flag is set (anything but `-`).
pub open spec fn flag_set(c: char) -> nat {
    if c != '-' {
        1
    } else {
        0
    }
}

/// Appending a flag adds its bit below the earlier ones.
proof fn lemma_perm_bits_push(flags: Seq<char>, c: char)
    ensures
        perm_bits(flags.push(c)) == perm_bits(flags) + if c != '-' {
            pow2((8 - flags.len()) as nat)
        } else {
            0
        },
{
    assert(flags.push(c).drop_last() =~= flags);
}

/// A mode column whose first ten characters are ASCII (`drwxr-xr-x`) has
/// the octal permission text of its nine flags read as `rwxrwxrwx`, owner
/// bits highest: a flag other than `-` sets its bit.
pub proof fn lemma_ls_mode_bits(perms: Seq<char>)
    requires
        perms.len() >= 10,
        forall|i: int| 0 <= i < 10 ==> (#[trigger] perms[i] as u32) < 0x80,
    ensures
        ls_mode_text(perms) == radix_digits(
            256 * flag_set(perms[1]) + 128 * flag_set(perms[2]) + 64 * flag_set(perms[3]) + 32 * flag_set(perms[4])
                + 16 * flag_set(perms[5]) + 8 * flag_set(perms[6]) + 4 * flag_set(perms[7]) + 2 * flag_set(perms[8])
                + flag_set(perms[9]),
            8,
        ),
{
    lemma_ascii_mode_boundary(perms);
    let f = perms.subrange(1, 10);
    lemma_nine_flags(f);
    assert(f[0] == perms[1] && f[1] == perms[2] && f[2] == perms[3] && f[3] == perms[4] && f[4] == perms[5]);
    assert(f[5] == perms[6] && f[6] == perms[7] && f[7] == perms[8] && f[8] == perms[9]);
}

/// Ten ASCII characters put byte ten on a character boundary, at index ten.
proof fn lemma_ascii_mode_boundary(perms: Seq<char>)
    requires
        perms.len() >= 10,
        forall|i: int| 0 <= i < 10 ==> (#[trigger] perms[i] as u32) < 0x80,
    ensures
        byte_len(perms) >= 10,
        boundary_index(perms, 10) == Some(10int),
{
    lemma_ascii_prefix_len(perms, 10);
    crate::text::lemma_byte_len_prefix_mono(perms, 10, perms.len() as int);
    assert(perms.take(perms.len() as int) =~= perms);
    let k = choose|k: int| 0 <= k <= perms.len() && byte_len(perms.take(k)) == 10;
    crate::text::lemma_boundary_unique(perms, k, 10);
}

/// The bits of nine flags, owner read first.
proof fn lemma_nine_flags(f: Seq<char>)
    requires
        f.len() == 9,
    ensures
        perm_bits(f) == 256 * flag_set(f[0]) + 128 * flag_set(f[1]) + 64 * flag_set(f[2]) + 32 * flag_set(f[3])
            + 16 * flag_set(f[4]) + 8 * flag_set(f[5]) + 4 * flag_set(f[6]) + 2 * flag_set(f[7]) + flag_set(f[8]),
{
    assert(pow2(0) == 1 && pow2(1) == 2 && pow2(2) == 4 && pow2(3) == 8 && pow2(4) == 16) by {
        reveal_with_fuel(pow2, 5);
    }
    assert(pow2(5) == 32 && pow2(6) == 64 && pow2(7) == 128 && pow2(8) == 256) by {
        reveal_with_fuel(pow2, 9);
    }
    let e = Seq::<char>::empty();
    assert(f.take(0) =~= e);
    lemma_perm_bits_push(f.take(0), f[0]);
    assert(f.take(1) =~= f.take(0).push(f[0]));
    lemma_perm_bits_push(f.take(1), f[1]);
    assert(f.take(2) =~= f.take(1).push(f[1]));
    lemma_perm_bits_push(f.take(2), f[2]);
    assert(f.take(3) =~= f.take(2).push(f[2]));
    lemma_perm_bits_push(f.take(3), f[3]);
    assert(f.take(4) =~= f.take(3).push(f[3]));
    lemma_perm_bits_push(f.take(4), f[4]);
    assert(f.take(5) =~= f.take(4).push(f[4]));
    lemma_perm_bits_push(f.take(5), f[5]);
    assert(f.take(6) =~= f.take(5).push(f[5]));
    lemma_perm_bits_push(f.take(6), f[6]);
    assert(f.take(7) =~= f.take(6).push(f[6]));
    lemma_perm_bits_push(f.take(7), f[7]);
    assert(f.take(8) =~= f.take(7).push(f[7]));
    lemma_perm_bits_push(f.take(8), f[8]);
    assert(f.take(9) =~= f.take(8).push(f[8]));
    assert(f.take(9) =~= f);
}

/// An ASCII prefix takes one byte per character.
proof fn lemma_ascii_prefix_len(s: Seq<char>, k: int)
    requires
        0 <= k <= 10,
        s.len() >= 10,
        forall|i: int| 0 <= i < 10 ==> (#[trigger] s[i] as u32) < 0x80,
    ensures
        byte_len(s.take(k)) == k,
    decreases k,
{
    if k > 0 {
        lemma_ascii_prefix_len(s, k - 1);
        assert(s.take(k).drop_last() =~= s.take(k - 1));
        assert(s.take(k).last() == s[k - 1]);
    }
}

}

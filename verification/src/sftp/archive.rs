//! Archive formats and the remote command that creates an archive.
use vstd::prelude::*;

use crate::sftp::paths::{shell_quote_chars, shell_quoted};
use crate::text::{
    ascii_lower_seq, chars_eq, chars_of, contains_char, contains_seq, occurs_at, ends_with, extend_chars, extend_str,
    has_prefix, has_suffix, pieces, split_char, split_on, starts_with, string_from_chars,
    to_ascii_lowercase, trim_end_char, trim_end_matches,
};

verus! {

/// An archive format recognised by its file name.
#[derive(Clone, Copy, Debug, PartialEq, Eq, Structural)]
pub enum ArchiveKind {
    Zip,
    SevenZip,
    Rar,
    Tar,
    TarGzip,
    TarBzip2,
    TarXz,
    TarZstd,
}

/// The archive format named by a file name's extension (ASCII case-insensitive).
pub open spec fn archive_kind_of(name: Seq<char>) -> Option<ArchiveKind> {
    let n = ascii_lower_seq(name);
    if has_suffix(n, ".tar.gz"@) || has_suffix(n, ".tgz"@) {
        Some(ArchiveKind::TarGzip)
    } else if has_suffix(n, ".tar.bz2"@) || has_suffix(n, ".tbz2"@) || has_suffix(n, ".tbz"@) {
        Some(ArchiveKind::TarBzip2)
    } else if has_suffix(n, ".tar.xz"@) || has_suffix(n, ".txz"@) {
        Some(ArchiveKind::TarXz)
    } else if has_suffix(n, ".tar.zst"@) || has_suffix(n, ".tzst"@) {
        Some(ArchiveKind::TarZstd)
    } else if has_suffix(n, ".tar"@) {
        Some(ArchiveKind::Tar)
    } else if has_suffix(n, ".zip"@) {
        Some(ArchiveKind::Zip)
    } else if has_suffix(n, ".7z"@) {
        Some(ArchiveKind::SevenZip)
    } else if has_suffix(n, ".rar"@) {
        Some(ArchiveKind::Rar)
    } else {
        None
    }
}

/// Whether `name` ends with the literal `suffix`.
fn ends_with_str(name: &[char], suffix: &str) -> (r: bool)
    ensures
        r == has_suffix(name@, suffix@),
{
    let s = chars_of(suffix);
    ends_with(name, &s)
}

/// The archive format of a file name, by extension.
pub fn archive_kind(name: &str) -> (r: Option<ArchiveKind>)
    ensures
        r == archive_kind_of(name@),
{
    let c = chars_of(name);
    let n = to_ascii_lowercase(&c);
    if ends_with_str(&n, ".tar.gz") || ends_with_str(&n, ".tgz") {
        Some(ArchiveKind::TarGzip)
    } else if ends_with_str(&n, ".tar.bz2") || ends_with_str(&n, ".tbz2") || ends_with_str(
        &n,
        ".tbz",
    ) {
        Some(ArchiveKind::TarBzip2)
    } else if ends_with_str(&n, ".tar.xz") || ends_with_str(&n, ".txz") {
        Some(ArchiveKind::TarXz)
    } else if ends_with_str(&n, ".tar.zst") || ends_with_str(&n, ".tzst") {
        Some(ArchiveKind::TarZstd)
    } else if ends_with_str(&n, ".tar") {
        Some(ArchiveKind::Tar)
    } else if ends_with_str(&n, ".zip") {
        Some(ArchiveKind::Zip)
    } else if ends_with_str(&n, ".7z") {
        Some(ArchiveKind::SevenZip)
    } else if ends_with_str(&n, ".rar") {
        Some(ArchiveKind::Rar)
    } else {
        None
    }
}

/// The programs a format needs, fixed by format and direction.
pub open spec fn archive_tools_of(kind: ArchiveKind, extract: bool) -> Seq<&'static str> {
    match kind {
        ArchiveKind::Zip => if extract {
            seq!["unzip"]
        } else {
            seq!["zip"]
        },
        ArchiveKind::SevenZip => seq!["7z"],
        ArchiveKind::Rar => seq!["unrar"],
        ArchiveKind::Tar => seq!["tar"],
        ArchiveKind::TarGzip => seq!["tar", "gzip"],
        ArchiveKind::TarBzip2 => seq!["tar", "bzip2"],
        ArchiveKind::TarXz => seq!["tar", "xz"],
        ArchiveKind::TarZstd => seq!["tar", "zstd"],
    }
}

/// Programs are fixed by format; never derive executable names from user input.
pub fn archive_tools(kind: ArchiveKind, extract: bool) -> (r: &'static [&'static str])
    ensures
        r@ == archive_tools_of(kind, extract),
{
    let r: &'static [&'static str] = match kind {
        ArchiveKind::Zip => if extract {
            &["unzip"]
        } else {
            &["zip"]
        },
        ArchiveKind::SevenZip => &["7z"],
        ArchiveKind::Rar => &["unrar"],
        ArchiveKind::Tar => &["tar"],
        ArchiveKind::TarGzip => &["tar", "gzip"],
        ArchiveKind::TarBzip2 => &["tar", "bzip2"],
        ArchiveKind::TarXz => &["tar", "xz"],
        ArchiveKind::TarZstd => &["tar", "zstd"],
    };
    assert(r@ =~= archive_tools_of(kind, extract));
    r
}

/// A `.` or `..` component occurs in a `/`-separated path.
pub open spec fn has_dot_component(path: Seq<char>) -> bool {
    exists|i: int|
        0 <= i < split_char(path, '/').len() && (split_char(path, '/')[i] == "."@
            || split_char(path, '/')[i] == ".."@)
}

/// The directory, destination or selection cannot be planned at all.
pub open spec fn archive_paths_invalid(directory: Seq<char>, names: Seq<Seq<char>>, destination: Seq<char>) -> bool {
    ||| !has_prefix(directory, "/"@)
    ||| !has_prefix(destination, "/"@)
    ||| names.len() == 0
    ||| directory.contains('\0')
    ||| destination.contains('\0')
    ||| has_dot_component(destination)
}

/// The full path of a selected entry under the directory.
pub open spec fn archive_source_path(directory: Seq<char>, name: Seq<char>) -> Seq<char> {
    trim_end_char(directory, '/') + "/"@ + name
}

/// Why one selected name cannot be archived, if it cannot.
pub open spec fn archive_name_error(directory: Seq<char>, destination: Seq<char>, name: Seq<char>) -> Option<&'static str> {
    if name.len() == 0 || name == "."@ || name == ".."@ || name.contains('/') || name.contains('\0') {
        Some("invalid archive source")
    } else {
        let source = archive_source_path(directory, name);
        if destination == source || has_prefix(destination, source + "/"@) {
            Some("archive output is inside its source")
        } else {
            None
        }
    }
}

/// The error of the first selected name, from position `i` on, that cannot be archived.
pub open spec fn first_archive_name_error(
    directory: Seq<char>,
    destination: Seq<char>,
    names: Seq<Seq<char>>,
    i: int,
) -> Option<&'static str>
    decreases names.len() - i,
{
    if i < 0 || i >= names.len() {
        None
    } else {
        match archive_name_error(directory, destination, names[i]) {
            Some(e) => Some(e),
            None => first_archive_name_error(directory, destination, names, i + 1),
        }
    }
}

/// The selected names as `./name` shell words separated by single spaces.
pub open spec fn quoted_archive_sources(names: Seq<Seq<char>>) -> Seq<char>
    decreases names.len(),
{
    if names.len() == 0 {
        Seq::<char>::empty()
    } else if names.len() == 1 {
        shell_quoted("./"@ + names[0])
    } else {
        quoted_archive_sources(names.drop_last()) + " "@ + shell_quoted("./"@ + names.last())
    }
}

/// The archiver invocation for a format, given the quoted destination and sources.
pub open spec fn archiver_command(kind: ArchiveKind, destination: Seq<char>, sources: Seq<char>) -> Option<Seq<char>> {
    match kind {
        ArchiveKind::Tar => Some("tar -cf "@ + destination + " -- "@ + sources),
        ArchiveKind::TarGzip => Some("tar -czf "@ + destination + " -- "@ + sources),
        ArchiveKind::TarBzip2 => Some("tar -cjf "@ + destination + " -- "@ + sources),
        ArchiveKind::TarXz => Some("tar -cJf "@ + destination + " -- "@ + sources),
        ArchiveKind::TarZstd => Some("tar --zstd -cf "@ + destination + " -- "@ + sources),
        ArchiveKind::Zip => Some("zip -r "@ + destination + " "@ + sources),
        ArchiveKind::SevenZip => Some("7z a -t7z "@ + destination + " -- "@ + sources + " < /dev/null"@),
        ArchiveKind::Rar => None,
    }
}

/// The remote script: enter the directory, refuse an existing output (file or
/// link), then run the archiver.
pub open spec fn archive_creation_script(directory: Seq<char>, destination: Seq<char>, command: Seq<char>) -> Seq<char> {
    "cd "@ + shell_quoted(directory) + " || exit 74; if [ -e "@ + destination + " ] || [ -L "@
        + destination + " ]; then exit 73; fi; "@ + command
}

/// The plan for archiving the selected names of a directory into a destination.
pub open spec fn planned_archive_creation(directory: Seq<char>, names: Seq<Seq<char>>, destination: Seq<char>) -> Result<(ArchiveKind, Seq<char>), &'static str> {
    if archive_paths_invalid(directory, names, destination) {
        Err("invalid archive paths")
    } else {
        match first_archive_name_error(directory, destination, names, 0) {
            Some(e) => Err(e),
            None => match archive_kind_of(destination) {
                None => Err("unsupported archive format"),
                Some(kind) => {
                    let quoted_destination = shell_quoted(destination);
                    match archiver_command(kind, quoted_destination, quoted_archive_sources(names)) {
                        None => Err("RAR creation is not supported"),
                        Some(command) => Ok(
                            (kind, archive_creation_script(directory, quoted_destination, command)),
                        ),
                    }
                },
            },
        }
    }
}

/// With no name error from position `i` on, every later name is a valid
/// single entry whose path neither is the destination nor contains it.
proof fn lemma_no_name_error_from(directory: Seq<char>, destination: Seq<char>, names: Seq<Seq<char>>, i: int, k: int)
    requires
        0 <= i <= k < names.len(),
        first_archive_name_error(directory, destination, names, i) is None,
    ensures
        archive_name_error(directory, destination, names[k]) is None,
    decreases k - i,
{
    if i < k {
        lemma_no_name_error_from(directory, destination, names, i + 1, k);
    }
}

/// A planned archive never writes into one of its own sources: every
/// selected name is a plain entry of the directory, and the destination is
/// neither that entry nor inside it.
pub proof fn lemma_archive_output_outside_sources(directory: Seq<char>, names: Seq<Seq<char>>, destination: Seq<char>, k: int)
    requires
        planned_archive_creation(directory, names, destination) is Ok,
        0 <= k < names.len(),
    ensures
        names[k].len() > 0,
        !names[k].contains('/'),
        names[k] != "."@ && names[k] != ".."@,
        destination != archive_source_path(directory, names[k]),
        !has_prefix(destination, archive_source_path(directory, names[k]) + "/"@),
{
    lemma_no_name_error_from(directory, destination, names, 0, k);
}

/// The views of a slice of strings.
pub open spec fn string_views(v: Seq<String>) -> Seq<Seq<char>> {
    v.map_values(|s: String| s@)
}

/// Whether a `/`-separated path has a `.` or `..` component.
fn path_has_dot_component(path: &[char]) -> (r: bool)
    ensures
        r == has_dot_component(path@),
{
    let parts = split_on(path, '/');
    let dot = chars_of(".");
    let dotdot = chars_of("..");
    let mut i: usize = 0;
    while i < parts.len()
        invariant
            i <= parts@.len(),
            pieces(parts@) == split_char(path@, '/'),
            dot@ == "."@,
            dotdot@ == ".."@,
            forall|k: int|
                0 <= k < i ==> !(split_char(path@, '/')[k] == "."@ || split_char(path@, '/')[k]
                    == ".."@),
        decreases parts.len() - i,
    {
        assert(parts@[i as int]@ == split_char(path@, '/')[i as int]);
        if chars_eq(&parts[i], &dot) || chars_eq(&parts[i], &dotdot) {
            return true;
        }
        i += 1;
    }
    false
}

/// The error for one selected name, if any.
fn check_archive_name(directory: &[char], destination: &[char], name: &[char]) -> (r: Option<&'static str>)
    ensures
        r == archive_name_error(directory@, destination@, name@),
{
    let dot = chars_of(".");
    let dotdot = chars_of("..");
    if name.len() == 0 || chars_eq(name, &dot) || chars_eq(name, &dotdot) || contains_char(name, '/')
        || contains_char(name, '\0') {
        return Some("invalid archive source");
    }
    let mut source = trim_end_matches(directory, '/');
    source.push('/');
    extend_chars(&mut source, name);
    proof {
        reveal_strlit("/");
    }
    assert(source@ =~= archive_source_path(directory@, name@));
    let mut source_dir = source.clone();
    source_dir.push('/');
    assert(source_dir@ =~= archive_source_path(directory@, name@) + "/"@) by {
        reveal_strlit("/");
    }
    if chars_eq(destination, &source) || starts_with(destination, &source_dir) {
        Some("archive output is inside its source")
    } else {
        None
    }
}

/// Appends `' '` between sources and the quoted `./name` word.
fn push_quoted_source(out: &mut Vec<char>, name: &[char])
    ensures
        final(out)@ == old(out)@ + shell_quoted("./"@ + name@),
{
    let mut relative = chars_of("./");
    extend_chars(&mut relative, name);
    let q = shell_quote_chars(&relative);
    extend_chars(out, &q);
}

/// Selected paths are single siblings. Relative `./` prefixes prevent option injection.
pub fn plan_archive_creation(directory: &str, names: &[String], destination: &str) -> (r: Result<
    (ArchiveKind, String),
    &'static str,
>)
    ensures
        match r {
            Ok((kind, command)) => planned_archive_creation(
                directory@,
                string_views(names@),
                destination@,
            ) == Ok::<(ArchiveKind, Seq<char>), &'static str>((kind, command@)),
            Err(e) => planned_archive_creation(directory@, string_views(names@), destination@)
                == Err::<(ArchiveKind, Seq<char>), &'static str>(e),
        },
{
    let ghost names_v = string_views(names@);
    let dir = chars_of(directory);
    let dest = chars_of(destination);
    let slash = chars_of("/");
    if !starts_with(&dir, &slash) || !starts_with(&dest, &slash) || names.len() == 0
        || contains_char(&dir, '\0') || contains_char(&dest, '\0') || path_has_dot_component(&dest) {
        return Err("invalid archive paths");
    }
    let mut i: usize = 0;
    while i < names.len()
        invariant
            i <= names@.len(),
            names_v == string_views(names@),
            dir@ == directory@,
            dest@ == destination@,
            !archive_paths_invalid(directory@, names_v, destination@),
            first_archive_name_error(directory@, destination@, names_v, 0)
                == first_archive_name_error(directory@, destination@, names_v, i as int),
        decreases names.len() - i,
    {
        let name = chars_of(names[i].as_str());
        assert(names_v[i as int] == names@[i as int]@);
        match check_archive_name(&dir, &dest, &name) {
            Some(e) => {
                assert(first_archive_name_error(directory@, destination@, names_v, i as int) == Some(e));
                assert(!archive_paths_invalid(directory@, names_v, destination@));
                return Err(e);
            },
            None => {},
        }
        i += 1;
    }
    let kind = match archive_kind(destination) {
        Some(k) => k,
        None => {
            return Err("unsupported archive format");
        },
    };
    let quoted_destination = shell_quote_chars(&dest);
    let mut sources: Vec<char> = Vec::new();
    let mut k: usize = 0;
    while k < names.len()
        invariant
            k <= names@.len(),
            names_v == string_views(names@),
            k > 0 ==> sources@ == quoted_archive_sources(names_v.take(k as int)),
            k == 0 ==> sources@.len() == 0,
        decreases names.len() - k,
    {
        let name = chars_of(names[k].as_str());
        let ghost before = sources@;
        if k > 0 {
            sources.push(' ');
        }
        push_quoted_source(&mut sources, &name);
        proof {
            reveal_strlit(" ");
            let t = names_v.take(k as int + 1);
            assert(t.drop_last() =~= names_v.take(k as int));
            assert(t.last() == name@);
            if k == 0 {
                assert(sources@ =~= shell_quoted("./"@ + t[0]));
            } else {
                assert(sources@ =~= before + " "@ + shell_quoted("./"@ + t.last()));
            }
        }
        k += 1;
    }
    assert(names_v.take(names@.len() as int) =~= names_v);
    let mut command: Vec<char> = Vec::new();
    match kind {
        ArchiveKind::Tar => {
            extend_str(&mut command, "tar -cf ");
            extend_chars(&mut command, &quoted_destination);
            extend_str(&mut command, " -- ");
            extend_chars(&mut command, &sources);
        },
        ArchiveKind::TarGzip => {
            extend_str(&mut command, "tar -czf ");
            extend_chars(&mut command, &quoted_destination);
            extend_str(&mut command, " -- ");
            extend_chars(&mut command, &sources);
        },
        ArchiveKind::TarBzip2 => {
            extend_str(&mut command, "tar -cjf ");
            extend_chars(&mut command, &quoted_destination);
            extend_str(&mut command, " -- ");
            extend_chars(&mut command, &sources);
        },
        ArchiveKind::TarXz => {
            extend_str(&mut command, "tar -cJf ");
            extend_chars(&mut command, &quoted_destination);
            extend_str(&mut command, " -- ");
            extend_chars(&mut command, &sources);
        },
        ArchiveKind::TarZstd => {
            extend_str(&mut command, "tar --zstd -cf ");
            extend_chars(&mut command, &quoted_destination);
            extend_str(&mut command, " -- ");
            extend_chars(&mut command, &sources);
        },
        ArchiveKind::Zip => {
            extend_str(&mut command, "zip -r ");
            extend_chars(&mut command, &quoted_destination);
            extend_str(&mut command, " ");
            extend_chars(&mut command, &sources);
        },
        ArchiveKind::SevenZip => {
            extend_str(&mut command, "7z a -t7z ");
            extend_chars(&mut command, &quoted_destination);
            extend_str(&mut command, " -- ");
            extend_chars(&mut command, &sources);
            extend_str(&mut command, " < /dev/null");
        },
        ArchiveKind::Rar => {
            return Err("RAR creation is not supported");
        },
    }
    assert(archiver_command(kind, quoted_destination@, sources@) == Some(command@));
    let mut script: Vec<char> = Vec::new();
    extend_str(&mut script, "cd ");
    let quoted_directory = shell_quote_chars(&dir);
    extend_chars(&mut script, &quoted_directory);
    extend_str(&mut script, " || exit 74; if [ -e ");
    extend_chars(&mut script, &quoted_destination);
    extend_str(&mut script, " ] || [ -L ");
    extend_chars(&mut script, &quoted_destination);
    extend_str(&mut script, " ]; then exit 73; fi; ");
    extend_chars(&mut script, &command);
    assert(script@ =~= archive_creation_script(directory@, quoted_destination@, command@));
    Ok((kind, string_from_chars(&script)))
}


/// A needle found inside `s` is found inside any text around `s`.
proof fn lemma_occurs_in_middle(a: Seq<char>, s: Seq<char>, b: Seq<char>, needle: Seq<char>, i: int)
    requires
        occurs_at(s, needle, i),
    ensures
        occurs_at(a + s + b, needle, a.len() + i),
{
    assert((a + s + b).subrange(a.len() + i, a.len() + i + needle.len()) =~= s.subrange(i, i + needle.len()));
}

/// Every selected name occurs as its quoted `./name` word among the sources.
proof fn lemma_sources_contain_each(names: Seq<Seq<char>>, k: int)
    requires
        0 <= k < names.len(),
    ensures
        contains_seq(quoted_archive_sources(names), shell_quoted("./"@ + names[k])),
    decreases names.len(),
{
    let w = shell_quoted("./"@ + names[k]);
    let q = quoted_archive_sources(names);
    if names.len() == 1 {
        assert(q.subrange(0, w.len() as int) =~= w);
        assert(occurs_at(q, w, 0));
    } else if k == names.len() - 1 {
        let head = quoted_archive_sources(names.drop_last()) + " "@;
        assert(q =~= head + w);
        assert(q.subrange(head.len() as int, (head.len() + w.len()) as int) =~= w);
        assert(occurs_at(q, w, head.len() as int));
    } else {
        let init = names.drop_last();
        assert(init[k] == names[k]);
        lemma_sources_contain_each(init, k);
        let p = quoted_archive_sources(init);
        let i = choose|i: int| occurs_at(p, w, i);
        let tail = " "@ + shell_quoted("./"@ + names.last());
        lemma_occurs_in_middle(Seq::empty(), p, tail, w, i);
        assert(Seq::<char>::empty() + p + tail =~= q);
        assert(occurs_at(q, w, i));
    }
}

/// The archiver command contains its sources.
proof fn lemma_command_contains_sources(kind: ArchiveKind, destination: Seq<char>, sources: Seq<char>, needle: Seq<char>)
    requires
        archiver_command(kind, destination, sources) is Some,
        contains_seq(sources, needle),
    ensures
        contains_seq(archiver_command(kind, destination, sources)->0, needle),
{
    let i = choose|i: int| occurs_at(sources, needle, i);
    let c = archiver_command(kind, destination, sources)->0;
    let e = Seq::<char>::empty();
    let (a, b) = match kind {
        ArchiveKind::Tar => ("tar -cf "@ + destination + " -- "@, e),
        ArchiveKind::TarGzip => ("tar -czf "@ + destination + " -- "@, e),
        ArchiveKind::TarBzip2 => ("tar -cjf "@ + destination + " -- "@, e),
        ArchiveKind::TarXz => ("tar -cJf "@ + destination + " -- "@, e),
        ArchiveKind::TarZstd => ("tar --zstd -cf "@ + destination + " -- "@, e),
        ArchiveKind::Zip => ("zip -r "@ + destination + " "@, e),
        ArchiveKind::SevenZip => ("7z a -t7z "@ + destination + " -- "@, " < /dev/null"@),
        ArchiveKind::Rar => (e, e),
    };
    assert(c =~= a + sources + b);
    lemma_occurs_in_middle(a, sources, b, needle, i);
}

/// A planned archive takes its format from the destination's name and is
/// never RAR; its command enters the directory, refuses an existing output
/// (file or link) before anything else, and names every selected entry as
/// a quoted `./name` word.
pub proof fn lemma_archive_command_structure(
    directory: Seq<char>,
    names: Seq<Seq<char>>,
    destination: Seq<char>,
    kind: ArchiveKind,
    command: Seq<char>,
)
    requires
        planned_archive_creation(directory, names, destination) == Ok::<(ArchiveKind, Seq<char>), &'static str>(
            (kind, command),
        ),
    ensures
        archive_kind_of(destination) == Some(kind),
        kind != ArchiveKind::Rar,
        has_prefix(
            command,
            "cd "@ + shell_quoted(directory) + " || exit 74; if [ -e "@ + shell_quoted(destination)
                + " ] || [ -L "@ + shell_quoted(destination) + " ]; then exit 73; fi; "@,
        ),
        forall|k: int| 0 <= k < names.len() ==> contains_seq(command, #[trigger] shell_quoted("./"@ + names[k])),
{
    let qd = shell_quoted(destination);
    let sources = quoted_archive_sources(names);
    let archiver = archiver_command(kind, qd, sources)->0;
    let guard = "cd "@ + shell_quoted(directory) + " || exit 74; if [ -e "@ + qd + " ] || [ -L "@ + qd
        + " ]; then exit 73; fi; "@;
    assert(command =~= guard + archiver);
    assert(command.take(guard.len() as int) =~= guard);
    assert forall|k: int| 0 <= k < names.len() implies contains_seq(command, #[trigger] shell_quoted("./"@ + names[k])) by {
        lemma_sources_contain_each(names, k);
        lemma_command_contains_sources(kind, qd, sources, shell_quoted("./"@ + names[k]));
        let i = choose|i: int| occurs_at(archiver, shell_quoted("./"@ + names[k]), i);
        lemma_occurs_in_middle(guard, archiver, Seq::empty(), shell_quoted("./"@ + names[k]), i);
        assert(guard + archiver + Seq::<char>::empty() =~= command);
    }
}


/// The archiver invocation that creates each format, up to the quoted
/// destination: tar with no compression, gzip (`-z`), bzip2 (`-j`), xz
/// (`-J`) or zstd, `zip -r`, and `7z a -t7z`.
pub open spec fn creation_invocation(kind: ArchiveKind, quoted_destination: Seq<char>) -> Seq<char> {
    match kind {
        ArchiveKind::Tar => "tar -cf "@ + quoted_destination,
        ArchiveKind::TarGzip => "tar -czf "@ + quoted_destination,
        ArchiveKind::TarBzip2 => "tar -cjf "@ + quoted_destination,
        ArchiveKind::TarXz => "tar -cJf "@ + quoted_destination,
        ArchiveKind::TarZstd => "tar --zstd -cf "@ + quoted_destination,
        ArchiveKind::Zip => "zip -r "@ + quoted_destination,
        ArchiveKind::SevenZip => "7z a -t7z "@ + quoted_destination,
        ArchiveKind::Rar => Seq::empty(),
    }
}

/// A planned archive is written by the archiver of its format: right after
/// the guard, the command runs that format's invocation on the quoted
/// destination (a `.tar.gz` destination is compressed with gzip, a `.zip`
/// one with `zip -r`, and so on), and ends with the quoted sources (for 7z,
/// followed by closed input).
pub proof fn lemma_archive_uses_its_format_compressor(
    directory: Seq<char>,
    names: Seq<Seq<char>>,
    destination: Seq<char>,
    kind: ArchiveKind,
    command: Seq<char>,
)
    requires
        planned_archive_creation(directory, names, destination) == Ok::<(ArchiveKind, Seq<char>), &'static str>(
            (kind, command),
        ),
    ensures
        ({
            let qd = shell_quoted(destination);
            let guard = "cd "@ + shell_quoted(directory) + " || exit 74; if [ -e "@ + qd + " ] || [ -L "@ + qd
                + " ]; then exit 73; fi; "@;
            &&& command == guard + creation_invocation(kind, qd) + (if kind == ArchiveKind::Zip {
                " "@
            } else {
                " -- "@
            }) + quoted_archive_sources(names) + (if kind == ArchiveKind::SevenZip {
                " < /dev/null"@
            } else {
                Seq::empty()
            })
            &&& has_prefix(command, guard + creation_invocation(kind, qd))
            &&& if kind == ArchiveKind::SevenZip {
                has_suffix(command, quoted_archive_sources(names) + " < /dev/null"@)
            } else {
                has_suffix(command, quoted_archive_sources(names))
            }
        }),
        kind == ArchiveKind::TarGzip ==> contains_seq(command, "tar -czf "@ + shell_quoted(destination) + " -- "@),
{
    let qd = shell_quoted(destination);
    let sources = quoted_archive_sources(names);
    let guard = "cd "@ + shell_quoted(directory) + " || exit 74; if [ -e "@ + qd + " ] || [ -L "@ + qd
        + " ]; then exit 73; fi; "@;
    let inv = creation_invocation(kind, qd);
    let e = Seq::<char>::empty();
    let (mid, tail) = match kind {
        ArchiveKind::Zip => (" "@, e),
        ArchiveKind::SevenZip => (" -- "@, " < /dev/null"@),
        _ => (" -- "@, e),
    };
    assert(command =~= guard + inv + mid + sources + tail);
    let pre = guard + inv;
    assert(command.take(pre.len() as int) =~= pre);
    let suf = sources + tail;
    assert(command.skip(command.len() - suf.len()) =~= suf);
    if kind == ArchiveKind::TarGzip {
        let needle = "tar -czf "@ + qd + " -- "@;
        assert(command.subrange(guard.len() as int, (guard.len() + needle.len()) as int) =~= needle);
        assert(occurs_at(command, needle, guard.len() as int));
    }
}


/// A suffix fixes the last three characters.
proof fn lemma_suffix_last3(n: Seq<char>, p: Seq<char>)
    requires
        has_suffix(n, p),
        p.len() >= 3,
    ensures
        n[n.len() - 1] == p[p.len() - 1],
        n[n.len() - 2] == p[p.len() - 2],
        n[n.len() - 3] == p[p.len() - 3],
{
    let t = n.skip(n.len() - p.len());
    assert(t[p.len() - 1] == n[n.len() - 1]);
    assert(t[p.len() - 2] == n[n.len() - 2]);
    assert(t[p.len() - 3] == n[n.len() - 3]);
}

/// The format of an archive is named by its extension, in any letter case:
/// `.tar.gz` and `.tgz` are gzip-compressed tar, `.tar.bz2`, `.tbz2` and
/// `.tbz` bzip2, `.tar.xz` and `.txz` xz, `.tar.zst` and `.tzst` zstd, `.tar`
/// plain tar, and `.zip`, `.7z`, `.rar` their own formats; a name with none
/// of these extensions has no format.
pub proof fn lemma_archive_kind_by_extension(name: Seq<char>)
    ensures
        has_suffix(ascii_lower_seq(name), ".tar.gz"@) ==> archive_kind_of(name) == Some(ArchiveKind::TarGzip),
        has_suffix(ascii_lower_seq(name), ".tgz"@) ==> archive_kind_of(name) == Some(ArchiveKind::TarGzip),
        has_suffix(ascii_lower_seq(name), ".tar.bz2"@) ==> archive_kind_of(name) == Some(ArchiveKind::TarBzip2),
        has_suffix(ascii_lower_seq(name), ".tbz2"@) ==> archive_kind_of(name) == Some(ArchiveKind::TarBzip2),
        has_suffix(ascii_lower_seq(name), ".tbz"@) ==> archive_kind_of(name) == Some(ArchiveKind::TarBzip2),
        has_suffix(ascii_lower_seq(name), ".tar.xz"@) ==> archive_kind_of(name) == Some(ArchiveKind::TarXz),
        has_suffix(ascii_lower_seq(name), ".txz"@) ==> archive_kind_of(name) == Some(ArchiveKind::TarXz),
        has_suffix(ascii_lower_seq(name), ".tar.zst"@) ==> archive_kind_of(name) == Some(ArchiveKind::TarZstd),
        has_suffix(ascii_lower_seq(name), ".tzst"@) ==> archive_kind_of(name) == Some(ArchiveKind::TarZstd),
        has_suffix(ascii_lower_seq(name), ".tar"@) ==> archive_kind_of(name) == Some(ArchiveKind::Tar),
        has_suffix(ascii_lower_seq(name), ".zip"@) ==> archive_kind_of(name) == Some(ArchiveKind::Zip),
        has_suffix(ascii_lower_seq(name), ".7z"@) ==> archive_kind_of(name) == Some(ArchiveKind::SevenZip),
        has_suffix(ascii_lower_seq(name), ".rar"@) ==> archive_kind_of(name) == Some(ArchiveKind::Rar),
        !has_suffix(ascii_lower_seq(name), ".tar.gz"@) && !has_suffix(ascii_lower_seq(name), ".tgz"@) && !has_suffix(ascii_lower_seq(name), ".tar.bz2"@) && !has_suffix(ascii_lower_seq(name), ".tbz2"@) && !has_suffix(ascii_lower_seq(name), ".tbz"@) && !has_suffix(ascii_lower_seq(name), ".tar.xz"@) && !has_suffix(ascii_lower_seq(name), ".txz"@) && !has_suffix(ascii_lower_seq(name), ".tar.zst"@) && !has_suffix(ascii_lower_seq(name), ".tzst"@) && !has_suffix(ascii_lower_seq(name), ".tar"@) && !has_suffix(ascii_lower_seq(name), ".zip"@) && !has_suffix(ascii_lower_seq(name), ".7z"@) && !has_suffix(ascii_lower_seq(name), ".rar"@) ==> archive_kind_of(name) is None,
{
    let n = ascii_lower_seq(name);
    reveal_strlit(".tar.gz");
    reveal_strlit(".tgz");
    reveal_strlit(".tar.bz2");
    reveal_strlit(".tbz2");
    reveal_strlit(".tbz");
    reveal_strlit(".tar.xz");
    reveal_strlit(".txz");
    reveal_strlit(".tar.zst");
    reveal_strlit(".tzst");
    reveal_strlit(".tar");
    reveal_strlit(".zip");
    reveal_strlit(".7z");
    reveal_strlit(".rar");
    if has_suffix(n, ".tar.gz"@) {
        lemma_suffix_last3(n, ".tar.gz"@);
    }
    if has_suffix(n, ".tgz"@) {
        lemma_suffix_last3(n, ".tgz"@);
    }
    if has_suffix(n, ".tar.bz2"@) {
        lemma_suffix_last3(n, ".tar.bz2"@);
    }
    if has_suffix(n, ".tbz2"@) {
        lemma_suffix_last3(n, ".tbz2"@);
    }
    if has_suffix(n, ".tbz"@) {
        lemma_suffix_last3(n, ".tbz"@);
    }
    if has_suffix(n, ".tar.xz"@) {
        lemma_suffix_last3(n, ".tar.xz"@);
    }
    if has_suffix(n, ".txz"@) {
        lemma_suffix_last3(n, ".txz"@);
    }
    if has_suffix(n, ".tar.zst"@) {
        lemma_suffix_last3(n, ".tar.zst"@);
    }
    if has_suffix(n, ".tzst"@) {
        lemma_suffix_last3(n, ".tzst"@);
    }
    if has_suffix(n, ".tar"@) {
        lemma_suffix_last3(n, ".tar"@);
    }
    if has_suffix(n, ".zip"@) {
        lemma_suffix_last3(n, ".zip"@);
    }
    if has_suffix(n, ".7z"@) {
        lemma_suffix_last3(n, ".7z"@);
    }
    if has_suffix(n, ".rar"@) {
        lemma_suffix_last3(n, ".rar"@);
    }
}


/// An archive is planned exactly when the directory and destination are
/// absolute paths without NUL, the destination has no `.` or `..`
/// component, at least one name is selected, every name is a plain entry
/// (not empty, `.` or `..`, without `/` or NUL) that neither is the
/// destination nor contains it, and the destination names a format other
/// than RAR; a RAR destination is refused as such, and an unknown extension
/// as unsupported.
pub proof fn lemma_archive_planned_exactly_when_valid(directory: Seq<char>, names: Seq<Seq<char>>, destination: Seq<char>)
    ensures
        planned_archive_creation(directory, names, destination) is Ok <==> {
            &&& has_prefix(directory, "/"@) && has_prefix(destination, "/"@)
            &&& !directory.contains('\0') && !destination.contains('\0')
            &&& !has_dot_component(destination)
            &&& names.len() > 0
            &&& forall|k: int| 0 <= k < names.len() ==> #[trigger] archive_name_error(directory, destination, names[k]) is None
            &&& archive_kind_of(destination) is Some
            &&& archive_kind_of(destination) != Some(ArchiveKind::Rar)
        },
        !archive_paths_invalid(directory, names, destination) && (forall|k: int|
            0 <= k < names.len() ==> #[trigger] archive_name_error(directory, destination, names[k]) is None)
            ==> (archive_kind_of(destination) is None ==> planned_archive_creation(directory, names, destination)
            == Err::<(ArchiveKind, Seq<char>), &'static str>("unsupported archive format")) && (archive_kind_of(
            destination,
        ) == Some(ArchiveKind::Rar) ==> planned_archive_creation(directory, names, destination) == Err::<
            (ArchiveKind, Seq<char>),
            &'static str,
        >("RAR creation is not supported")),
{
    if forall|k: int| 0 <= k < names.len() ==> #[trigger] archive_name_error(directory, destination, names[k]) is None {
        lemma_no_error_when_all_valid(directory, destination, names, 0);
    } else {
        let k = choose|k: int| 0 <= k < names.len() && !(#[trigger] archive_name_error(directory, destination, names[k]) is None);
        lemma_first_error_found(directory, destination, names, 0, k);
    }
    if planned_archive_creation(directory, names, destination) is Ok {
        assert forall|k: int| 0 <= k < names.len() implies #[trigger] archive_name_error(directory, destination, names[k]) is None by {
            lemma_no_name_error_from(directory, destination, names, 0, k);
        }
    }
}

/// Without an invalid name from `i` on, no error is found from `i` on.
proof fn lemma_no_error_when_all_valid(directory: Seq<char>, destination: Seq<char>, names: Seq<Seq<char>>, i: int)
    requires
        0 <= i,
        forall|k: int| 0 <= k < names.len() ==> #[trigger] archive_name_error(directory, destination, names[k]) is None,
    ensures
        first_archive_name_error(directory, destination, names, i) is None,
    decreases names.len() - i,
{
    if i < names.len() {
        lemma_no_error_when_all_valid(directory, destination, names, i + 1);
    }
}

/// An invalid name at or after `i` makes some error found from `i` on.
proof fn lemma_first_error_found(directory: Seq<char>, destination: Seq<char>, names: Seq<Seq<char>>, i: int, k: int)
    requires
        0 <= i <= k < names.len(),
        archive_name_error(directory, destination, names[k]) is Some,
    ensures
        first_archive_name_error(directory, destination, names, i) is Some,
    decreases k - i,
{
    if i < k && archive_name_error(directory, destination, names[i]) is None {
        lemma_first_error_found(directory, destination, names, i + 1, k);
    }
}

}

//! SFTP session state that the file browser reads, the filter for listed
//! entries, and the decisions taken while opening a session or capturing a
//! shell listing.
use vstd::prelude::*;
use vstd::utf8::{decode_utf8, valid_utf8};

use crate::sftp::paths::{
    is_absolute_remote, is_absolute_remote_path, valid_remote_entry_name, validate_remote_entry_name,
};
use crate::sftp::types::SftpError;
use crate::text::{
    chars_of, contains, contains_seq, extend_chars, extend_str, radix_digits, radix_string, string_from_chars, trim,
    trim_ws,
};

verus! {

/// The working directories of an open SFTP session.
pub struct SftpSession {
    session_id: String,
    home: String,
    cwd: String,
}

impl SftpSession {
    /// The session's identifier.
    pub closed spec fn spec_session_id(&self) -> Seq<char> {
        self.session_id@
    }

    /// The server's initial directory.
    pub closed spec fn spec_home(&self) -> Seq<char> {
        self.home@
    }

    /// The file manager's current directory.
    pub closed spec fn spec_cwd(&self) -> Seq<char> {
        self.cwd@
    }

    /// A session whose current and home directory are the directory the
    /// server resolved when the session opened.
    pub fn from_initial_cwd(session_id: String, cwd: String) -> (r: Self)
        ensures
            r.spec_session_id() == session_id@,
            r.spec_home() == cwd@,
            r.spec_cwd() == cwd@,
    {
        let home = cwd.clone();
        SftpSession { session_id, home, cwd }
    }

    /// The session's identifier.
    pub fn session_id(&self) -> (r: &str)
        ensures
            r@ == self.spec_session_id(),
    {
        self.session_id.as_str()
    }

    /// The current directory.
    pub fn cwd(&self) -> (r: &str)
        ensures
            r@ == self.spec_cwd(),
    {
        self.cwd.as_str()
    }

    /// Returns the SFTP server's initial directory even after the file manager changes cwd.
    pub fn home(&self) -> (r: &str)
        ensures
            r@ == self.spec_home(),
    {
        self.home.as_str()
    }

    /// Changes the current directory; the home directory and identity stay.
    pub fn set_cwd(&mut self, path: String)
        ensures
            final(self).spec_cwd() == path@,
            final(self).spec_home() == old(self).spec_home(),
            final(self).spec_session_id() == old(self).spec_session_id(),
            set_cwd_step(*old(self), *final(self), path@),
    {
        self.cwd = path;
    }
}

/// `after` is `before` once `set_cwd(path)` has run.
pub open spec fn set_cwd_step(before: SftpSession, after: SftpSession, path: Seq<char>) -> bool {
    &&& after.spec_cwd() == path
    &&& after.spec_home() == before.spec_home()
    &&& after.spec_session_id() == before.spec_session_id()
}

/// Over a session's life (opened on `initial`, then any number of
/// `set_cwd` calls) the home directory stays the initial directory, the
/// identity stays, and the current directory is the last path set, or the
/// initial directory before any.
pub proof fn lemma_home_fixed_over_session(
    states: Seq<SftpSession>,
    paths: Seq<Seq<char>>,
    initial: Seq<char>,
)
    requires
        states.len() == paths.len() + 1,
        states[0].spec_home() == initial,
        states[0].spec_cwd() == initial,
        forall|i: int| 0 <= i < paths.len() ==> set_cwd_step(#[trigger] states[i], states[i + 1], paths[i]),
    ensures
        forall|i: int| 0 <= i < states.len() ==> (#[trigger] states[i]).spec_home() == initial
            && states[i].spec_session_id() == states[0].spec_session_id(),
        states.last().spec_cwd() == if paths.len() == 0 {
            initial
        } else {
            paths.last()
        },
    decreases paths.len(),
{
    if paths.len() > 0 {
        let n = paths.len() as int;
        let init_states = states.take(n);
        let init_paths = paths.take(n - 1);
        assert forall|i: int| 0 <= i < init_paths.len() implies set_cwd_step(
            #[trigger] init_states[i],
            init_states[i + 1],
            init_paths[i],
        ) by {
            assert(set_cwd_step(states[i], states[i + 1], paths[i]));
        }
        lemma_home_fixed_over_session(init_states, init_paths, initial);
        assert forall|i: int| 0 <= i < states.len() implies (#[trigger] states[i]).spec_home() == initial
            && states[i].spec_session_id() == states[0].spec_session_id() by {
            if i < n {
                assert(init_states[i] == states[i]);
            } else {
                assert(init_states[n - 1] == states[n - 1]);
                assert(set_cwd_step(states[n - 1], states[n], paths[n - 1]));
            }
        }
        assert(set_cwd_step(states[n - 1], states[n], paths[n - 1]));
    }
}

impl SftpSession {

    /// The directory listed when the server cannot canonicalize `path`: the
    /// current directory for an empty path, an absolute path as given, and
    /// none (the resolution error stands) for a relative path.
    pub fn listing_path_after_resolve_failure(&self, path: &str) -> (r: Option<String>)
        ensures
            match r {
                Some(p) => (path@.len() == 0 && p@ == self.spec_cwd()) || (path@.len() > 0
                    && is_absolute_remote(path@) && p@ == path@),
                None => path@.len() > 0 && !is_absolute_remote(path@),
            },
    {
        if path.is_empty() {
            Some(self.cwd.clone())
        } else if is_absolute_remote_path(path) {
            Some(string_from_chars(&chars_of(path)))
        } else {
            None
        }
    }
}

/// The octal permission text of a remote entry: the permission bits in
/// octal, or `000` when the server sent none.
pub open spec fn permission_text(permissions: Option<u32>) -> Seq<char> {
    match permissions {
        Some(p) => radix_digits((p % 512) as nat, 8),
        None => "000"@,
    }
}

/// The octal permission text of a remote entry (see `permission_text`).
pub fn permissions_text(permissions: Option<u32>) -> (r: String)
    ensures
        r@ == permission_text(permissions),
{
    match permissions {
        Some(p) => {
            let bits = p & 0o777;
            assert(p & 0o777 == p % 512) by (bit_vector);
            string_from_chars(&radix_string(bits as u64, 8))
        },
        None => string_from_chars(&chars_of("000")),
    }
}

/// How many bytes a range read takes: what remains after `offset`, at most
/// `maximum_bytes`; an offset beyond the end of the file is refused.
pub fn read_range_limit(canonical_path: &str, total_size: u64, offset: u64, maximum_bytes: usize) -> (r: Result<u64, SftpError>)
    ensures
        match r {
            Ok(n) => offset <= total_size && n == if total_size - offset <= maximum_bytes {
                total_size - offset
            } else {
                maximum_bytes as int
            },
            Err(SftpError::InvalidPath(m)) => offset > total_size && m@ == "offset exceeds remote file size: "@
                + canonical_path@,
            Err(_) => false,
        },
{
    if offset > total_size {
        let mut m = chars_of("offset exceeds remote file size: ");
        extend_str(&mut m, canonical_path);
        return Err(SftpError::InvalidPath(string_from_chars(&m)));
    }
    let remaining = total_size - offset;
    let cap = maximum_bytes as u64;
    if remaining <= cap {
        Ok(remaining)
    } else {
        Ok(cap)
    }
}

/// The message an SFTP error carries.
pub open spec fn sftp_error_message(e: SftpError) -> Seq<char> {
    match e {
        SftpError::ChannelError(m) => m@,
        SftpError::DirectoryNotFound(m) => m@,
        SftpError::ProtocolError(m) => m@,
        SftpError::SubsystemNotAvailable(m) => m@,
        SftpError::InvalidPath(m) => m@,
        SftpError::PermissionDenied(m) => m@,
        SftpError::WriteError(m) => m@,
        SftpError::AlreadyExists(m) => m@,
    }
}

/// An atomic write that failed this way may fall back to overwriting the
/// file directly: permission problems, and failures of the swap file or of
/// the final rename.
pub open spec fn write_failure_recoverable(e: SftpError) -> bool {
    e is PermissionDenied || contains_seq(sftp_error_message(e), ".oxswp"@) || contains_seq(
        sftp_error_message(e),
        "Atomic rename failed"@,
    )
}

/// Whether a failed atomic write falls back to a direct overwrite.
pub fn write_failure_is_recoverable(error: &SftpError) -> (r: bool)
    ensures
        r == write_failure_recoverable(*error),
{
    let message = match error {
        SftpError::ChannelError(m) => m,
        SftpError::DirectoryNotFound(m) => m,
        SftpError::ProtocolError(m) => m,
        SftpError::SubsystemNotAvailable(m) => m,
        SftpError::InvalidPath(m) => m,
        SftpError::PermissionDenied(m) => m,
        SftpError::WriteError(m) => m,
        SftpError::AlreadyExists(m) => m,
    };
    let text = chars_of(message.as_str());
    let swap = chars_of(".oxswp");
    let rename = chars_of("Atomic rename failed");
    matches!(error, SftpError::PermissionDenied(_)) || contains(&text, &swap) || contains(&text, &rename)
}

/// The temporary and backup paths used while replacing a configuration
/// file, named after it and a unique suffix.
pub fn config_replacement_paths(canonical_path: &str, suffix: &str) -> (r: (String, String))
    ensures
        r.0@ == canonical_path@ + ".oxideterm-"@ + suffix@ + ".tmp"@,
        r.1@ == canonical_path@ + ".oxideterm-"@ + suffix@ + ".bak"@,
{
    let mut stem = chars_of(canonical_path);
    extend_str(&mut stem, ".oxideterm-");
    extend_str(&mut stem, suffix);
    let mut swap = stem.clone();
    extend_str(&mut swap, ".tmp");
    let mut backup = stem;
    extend_str(&mut backup, ".bak");
    (string_from_chars(&swap), string_from_chars(&backup))
}

/// The error of a failed final rename while replacing a configuration file;
/// when restoring the backup failed too, it says where the backup remains.
pub fn config_replace_failure(canonical_path: &str, error: &str, rollback_error: Option<&str>, backup_path: &str) -> (r: SftpError)
    ensures
        r matches SftpError::WriteError(m) && m@ == match rollback_error {
            Some(rb) => "Failed to replace "@ + canonical_path@ + ": "@ + error@ + "; rollback failed: "@
                + rb@ + ". The original file remains at "@ + backup_path@,
            None => "Failed to replace "@ + canonical_path@ + ": "@ + error@,
        },
{
    let mut m = chars_of("Failed to replace ");
    extend_str(&mut m, canonical_path);
    extend_str(&mut m, ": ");
    extend_str(&mut m, error);
    if let Some(rb) = rollback_error {
        extend_str(&mut m, "; rollback failed: ");
        extend_str(&mut m, rb);
        extend_str(&mut m, ". The original file remains at ");
        extend_str(&mut m, backup_path);
    }
    SftpError::WriteError(string_from_chars(&m))
}

/// Decides whether one SFTP directory entry participates in the visible list.
#[derive(Clone, Copy, Debug, PartialEq, Eq, Structural)]
pub enum ListEntryAction {
    Keep,
    /// Dot entries are never shown.
    SkipDot,
    /// Hidden entries are skipped only while hidden files are not requested.
    SkipHidden,
    /// Entries that could escape the selected destination on transfer.
    SkipInvalid,
}

/// What the listing does with an entry name.
pub open spec fn list_entry_action_of(name: Seq<char>, show_hidden: bool) -> ListEntryAction {
    if name == "."@ || name == ".."@ {
        ListEntryAction::SkipDot
    } else if !valid_remote_entry_name(name) {
        ListEntryAction::SkipInvalid
    } else if !show_hidden && name.len() > 0 && name[0] == '.' {
        ListEntryAction::SkipHidden
    } else {
        ListEntryAction::Keep
    }
}

/// Decides whether one SFTP directory entry participates in the visible list.
pub fn list_entry_action(name: &str, show_hidden: bool) -> (r: ListEntryAction)
    ensures
        r == list_entry_action_of(name@, show_hidden),
{
    let c = chars_of(name);
    let dot = chars_of(".");
    let dotdot = chars_of("..");
    if crate::text::chars_eq(&c, &dot) || crate::text::chars_eq(&c, &dotdot) {
        return ListEntryAction::SkipDot;
    }
    if validate_remote_entry_name(name).is_err() {
        return ListEntryAction::SkipInvalid;
    }
    if !show_hidden && c.len() > 0 && c[0] == '.' {
        return ListEntryAction::SkipHidden;
    }
    ListEntryAction::Keep
}

/// Dot entries are never listed, whatever the hidden-file filter says;
/// hidden entries are skipped only while hidden files are not requested, so
/// asking for them only adds entries.
pub proof fn lemma_list_entry_filter(name: Seq<char>, show_hidden: bool)
    ensures
        list_entry_action_of("."@, show_hidden) == ListEntryAction::SkipDot,
        list_entry_action_of(".."@, show_hidden) == ListEntryAction::SkipDot,
        list_entry_action_of(name, true) != ListEntryAction::SkipHidden,
        list_entry_action_of(name, false) == ListEntryAction::Keep ==> list_entry_action_of(name, true)
            == ListEntryAction::Keep,
        list_entry_action_of(name, true) != list_entry_action_of(name, false) ==> list_entry_action_of(
            name,
            false,
        ) == ListEntryAction::SkipHidden,
{
}

/// Only names that start with `.` are hidden: an entry is skipped as hidden
/// only while hidden files are off and its name starts with `.`, and a
/// valid name other than `.` and `..` is listed whenever it does not start
/// with `.` or hidden files are on.
pub proof fn lemma_only_dot_names_are_hidden(name: Seq<char>, show_hidden: bool)
    ensures
        list_entry_action_of(name, show_hidden) == ListEntryAction::SkipHidden ==> !show_hidden && name.len() > 0
            && name[0] == '.',
        valid_remote_entry_name(name) && name != "."@ && name != ".."@ && (show_hidden || name.len() == 0
            || name[0] != '.') ==> list_entry_action_of(name, show_hidden) == ListEntryAction::Keep,
        list_entry_action_of(name, show_hidden) == ListEntryAction::SkipDot <==> (name == "."@ || name
            == ".."@),
        list_entry_action_of(name, show_hidden) == ListEntryAction::SkipInvalid ==> !valid_remote_entry_name(name),
{
}

/// The `sftp-server` programs tried, in order, when the `sftp` subsystem is refused.
pub open spec fn sftp_server_fallback_commands_spec() -> Seq<&'static str> {
    seq![
        "/usr/libexec/sftp-server",
        "/usr/libexec/openssh/sftp-server",
        "/usr/lib/sftp-server",
        "/usr/lib/openssh/sftp-server",
        "sftp-server",
    ]
}

/// The `sftp-server` programs tried, in order, when the `sftp` subsystem is refused.
pub fn sftp_server_fallback_commands() -> (r: &'static [&'static str])
    ensures
        r@ == sftp_server_fallback_commands_spec(),
{
    let r: &'static [&'static str] = &[
        "/usr/libexec/sftp-server",
        "/usr/libexec/openssh/sftp-server",
        "/usr/lib/sftp-server",
        "/usr/lib/openssh/sftp-server",
        "sftp-server",
    ];
    assert(r@ =~= sftp_server_fallback_commands_spec());
    r
}

/// Every fallback program is one fixed word: no spaces and no `;`, so the
/// exec request cannot run anything but that program.
pub proof fn lemma_fallback_commands_are_single_words()
    ensures
        forall|i: int|
            #![trigger sftp_server_fallback_commands_spec()[i]]
            0 <= i < sftp_server_fallback_commands_spec().len() ==> !sftp_server_fallback_commands_spec()[i]@.contains(' ')
                && !sftp_server_fallback_commands_spec()[i]@.contains(';'),
{
    reveal_strlit("/usr/libexec/sftp-server");
    reveal_strlit("/usr/libexec/openssh/sftp-server");
    reveal_strlit("/usr/lib/sftp-server");
    reveal_strlit("/usr/lib/openssh/sftp-server");
    reveal_strlit("sftp-server");
    assert forall|i: int|
        #![trigger sftp_server_fallback_commands_spec()[i]]
        0 <= i < sftp_server_fallback_commands_spec().len() implies !sftp_server_fallback_commands_spec()[i]@.contains(' ')
            && !sftp_server_fallback_commands_spec()[i]@.contains(';') by {
        let s = sftp_server_fallback_commands_spec()[i]@;
        assert forall|k: int| 0 <= k < s.len() implies s[k] != ' ' && s[k] != ';' by {
            if i == 0 {
            } else if i == 1 {
            } else if i == 2 {
            } else if i == 3 {
            } else {
            }
        }
    }
}

/// The paths asked of the server, in order, for the initial directory.
pub open spec fn initial_cwd_candidates_spec() -> Seq<&'static str> {
    seq![".", "", "/"]
}

/// The paths asked of the server, in order, for the initial directory.
pub fn initial_cwd_candidates() -> (r: &'static [&'static str])
    ensures
        r@ == initial_cwd_candidates_spec(),
{
    let r: &'static [&'static str] = &[".", "", "/"];
    assert(r@ =~= initial_cwd_candidates_spec());
    r
}

/// A canonical path the server returned is accepted when it is not blank;
/// the accepted directory is the trimmed path.
pub fn accept_initial_cwd(canonical: &str) -> (r: Option<String>)
    ensures
        match r {
            Some(p) => trim(canonical@).len() > 0 && p@ == trim(canonical@),
            None => trim(canonical@).len() == 0,
        },
{
    let c = chars_of(canonical);
    let t = trim_ws(&c);
    if t.len() == 0 {
        None
    } else {
        Some(string_from_chars(&t))
    }
}

/// The directory used when the server resolves none of the candidates.
pub fn initial_cwd_fallback() -> (r: String)
    ensures
        r@ == "/"@,
{
    let c = chars_of("/");
    string_from_chars(&c)
}

/// The listing output after one more chunk: data beyond the byte limit is dropped.
pub open spec fn appended_listing_output(output: Seq<u8>, data: Seq<u8>) -> Seq<u8> {
    let remaining = if output.len() >= crate::sftp::shell_listing::SHELL_LIST_MAX_OUTPUT_BYTES {
        0
    } else {
        crate::sftp::shell_listing::SHELL_LIST_MAX_OUTPUT_BYTES - output.len()
    };
    let n = if data.len() < remaining {
        data.len() as int
    } else {
        remaining as int
    };
    output + data.take(n)
}

/// Captured listing output never grows past the byte limit and keeps what
/// was read before.
pub proof fn lemma_listing_output_capped(output: Seq<u8>, data: Seq<u8>)
    requires
        output.len() <= crate::sftp::shell_listing::SHELL_LIST_MAX_OUTPUT_BYTES,
    ensures
        appended_listing_output(output, data).len() <= crate::sftp::shell_listing::SHELL_LIST_MAX_OUTPUT_BYTES,
        appended_listing_output(output, data).take(output.len() as int) == output,
{
    assert(appended_listing_output(output, data).take(output.len() as int) =~= output);
}

/// Appends one chunk of listing output within the byte limit; returns whether
/// the limit is reached and reading should stop.
pub fn append_listing_output(output: &mut Vec<u8>, data: &[u8]) -> (stop: bool)
    ensures
        final(output)@ == appended_listing_output(old(output)@, data@),
        stop == (final(output)@.len() >= crate::sftp::shell_listing::SHELL_LIST_MAX_OUTPUT_BYTES),
{
    let max = crate::sftp::shell_listing::SHELL_LIST_MAX_OUTPUT_BYTES;
    let remaining = max.saturating_sub(output.len());
    let n = if data.len() < remaining {
        data.len()
    } else {
        remaining
    };
    let mut i: usize = 0;
    while i < n
        invariant
            i <= n <= data@.len(),
            output@ == old(output)@ + data@.take(i as int),
        decreases n - i,
    {
        output.push(data[i]);
        i += 1;
        assert(output@ =~= old(output)@ + data@.take(i as int));
    }
    output.len() >= max
}

/// `String::from_utf8`: the text when the bytes are valid UTF-8.
#[verifier::external_body]
fn utf8_to_string(bytes: Vec<u8>) -> (r: Option<String>)
    ensures
        match r {
            Some(s) => valid_utf8(bytes@) && s@ == decode_utf8(bytes@),
            None => !valid_utf8(bytes@),
        },
{
    String::from_utf8(bytes).ok()
}

/// How a finished listing command ended.
pub ghost enum ListingOutcome {
    /// The output, decoded.
    Output(Seq<char>),
    /// The listing took too long.
    TimedOut,
    /// The directory could not be entered.
    NotFound,
    /// The script exited with another non-zero status.
    Failed(u32),
    /// The output is not UTF-8.
    NotUtf8,
}

/// How a listing ended, given whether it timed out, its exit status and its output.
pub open spec fn listing_outcome(timed_out: bool, exit_status: Option<u32>, output: Seq<u8>) -> ListingOutcome {
    if timed_out {
        ListingOutcome::TimedOut
    } else if exit_status == Some(2u32) {
        ListingOutcome::NotFound
    } else if exit_status is Some && exit_status->0 != 0 {
        ListingOutcome::Failed(exit_status->0)
    } else if valid_utf8(output) {
        ListingOutcome::Output(decode_utf8(output))
    } else {
        ListingOutcome::NotUtf8
    }
}

/// The result a finished listing command gives, and its error message.
pub open spec fn listing_result_matches(r: Result<String, SftpError>, outcome: ListingOutcome) -> bool {
    match outcome {
        ListingOutcome::Output(text) => r matches Ok(s) && s@ == text,
        ListingOutcome::TimedOut => r matches Err(SftpError::ChannelError(m))
            && m@ == "Remote directory listing timed out"@,
        ListingOutcome::NotFound => r matches Err(SftpError::DirectoryNotFound(m))
            && m@ == "Remote directory could not be opened"@,
        ListingOutcome::Failed(status) => r matches Err(SftpError::ChannelError(m))
            && m@ == "Remote directory listing exited with status "@ + radix_digits(status as nat, 10),
        ListingOutcome::NotUtf8 => r matches Err(SftpError::ProtocolError(m))
            && m@ == "Remote directory listing was not valid UTF-8"@,
    }
}

/// Turns a finished listing command into its text or an error.
pub fn listing_output_result(timed_out: bool, exit_status: Option<u32>, output: Vec<u8>) -> (r: Result<String, SftpError>)
    ensures
        listing_result_matches(r, listing_outcome(timed_out, exit_status, output@)),
{
    if timed_out {
        let m = chars_of("Remote directory listing timed out");
        return Err(SftpError::ChannelError(string_from_chars(&m)));
    }
    if exit_status == Some(2u32) {
        let m = chars_of("Remote directory could not be opened");
        return Err(SftpError::DirectoryNotFound(string_from_chars(&m)));
    }
    if let Some(status) = exit_status {
        if status != 0 {
            let mut m = chars_of("Remote directory listing exited with status ");
            let digits = radix_string(status as u64, 10);
            extend_chars(&mut m, &digits);
            return Err(SftpError::ChannelError(string_from_chars(&m)));
        }
    }
    let ghost bytes = output@;
    match utf8_to_string(output) {
        Some(s) => Ok(s),
        None => {
            let m = chars_of("Remote directory listing was not valid UTF-8");
            Err(SftpError::ProtocolError(string_from_chars(&m)))
        },
    }
}

/// A message of the exec channel running a shell listing.
pub enum ListingEvent {
    /// Standard output bytes.
    Data(Vec<u8>),
    /// The script's exit status.
    ExitStatus(u32),
    /// End of output.
    Eof,
    /// The channel closed.
    Close,
    /// Any other channel message.
    Other,
}

/// The output and exit status of a shell listing captured so far.
pub struct ListingCapture {
    pub output: Vec<u8>,
    pub exit_status: Option<u32>,
}

impl ListingCapture {
    /// Nothing captured yet.
    pub fn new() -> (r: Self)
        ensures
            r.output@.len() == 0,
            r.exit_status is None,
    {
        ListingCapture { output: Vec::new(), exit_status: None }
    }

    /// Takes one channel message; returns whether reading stops: when the
    /// output limit is reached or the channel closed.
    pub fn on_event(&mut self, event: ListingEvent) -> (stop: bool)
        ensures
            match event {
                ListingEvent::Data(data) => {
                    &&& final(self).output@ == appended_listing_output(old(self).output@, data@)
                    &&& final(self).exit_status == old(self).exit_status
                    &&& stop == (final(self).output@.len()
                        >= crate::sftp::shell_listing::SHELL_LIST_MAX_OUTPUT_BYTES)
                },
                ListingEvent::ExitStatus(status) => {
                    &&& final(self).output@ == old(self).output@
                    &&& final(self).exit_status == Some(status)
                    &&& !stop
                },
                ListingEvent::Close => {
                    &&& final(self).output@ == old(self).output@
                    &&& final(self).exit_status == old(self).exit_status
                    &&& stop
                },
                _ => {
                    &&& final(self).output@ == old(self).output@
                    &&& final(self).exit_status == old(self).exit_status
                    &&& !stop
                },
            },
    {
        match event {
            ListingEvent::Data(data) => append_listing_output(&mut self.output, &data),
            ListingEvent::ExitStatus(status) => {
                self.exit_status = Some(status);
                false
            },
            ListingEvent::Close => true,
            ListingEvent::Eof | ListingEvent::Other => false,
        }
    }

    /// The listing text, or why there is none (see `listing_output_result`).
    pub fn finish(self, timed_out: bool) -> (r: Result<String, SftpError>)
        ensures
            listing_result_matches(r, listing_outcome(timed_out, self.exit_status, self.output@)),
    {
        listing_output_result(timed_out, self.exit_status, self.output)
    }
}

}

//! Remote-side copy planned as one quoted `cp` command.
use vstd::prelude::*;

use crate::sftp::paths::{normalize_remote_path_chars, normalized_remote_path, shell_quote_chars, shell_quoted};
use crate::text::{chars_eq, extend_chars, extend_str, has_prefix, starts_with, string_from_chars, trim_end_char, trim_end_matches};

verus! {

/// Why a remote copy cannot be planned.
#[derive(Clone, Copy, Debug, PartialEq, Eq, Structural)]
pub enum RemoteCopyPlanError {
    /// Source and destination are the same path.
    SamePath,
    /// A directory cannot be copied into itself.
    DirectoryIntoItself,
}

impl RemoteCopyPlanError {
    /// The message shown for this error.
    pub fn message(&self) -> (r: &'static str)
        ensures
            r == (match self {
                RemoteCopyPlanError::SamePath => "source and destination are the same path",
                RemoteCopyPlanError::DirectoryIntoItself => "a directory cannot be copied into itself",
            }),
    {
        match self {
            RemoteCopyPlanError::SamePath => "source and destination are the same path",
            RemoteCopyPlanError::DirectoryIntoItself => "a directory cannot be copied into itself",
        }
    }
}

/// The copy command for two remote paths, or why there is none.
pub open spec fn planned_remote_copy(source: Seq<char>, destination: Seq<char>, source_is_directory: bool) -> Result<Seq<char>, RemoteCopyPlanError> {
    let s = normalized_remote_path(source);
    let d = normalized_remote_path(destination);
    if s == d {
        Err(RemoteCopyPlanError::SamePath)
    } else if source_is_directory && has_prefix(d, trim_end_char(s, '/') + "/"@) {
        Err(RemoteCopyPlanError::DirectoryIntoItself)
    } else {
        Ok("cp -a -- "@ + shell_quoted(s) + " "@ + shell_quoted(d))
    }
}

/// Builds the explicit remote-side copy command used by the SFTP file browser.
///
/// SFTP itself has no portable recursive-copy request, so the connected SSH
/// transport executes one safely quoted `cp` command without staging data on
/// the local machine.
pub fn plan_remote_copy_command(
    source_path: &str,
    destination_path: &str,
    source_is_directory: bool,
) -> (r: Result<String, RemoteCopyPlanError>)
    ensures
        match r {
            Ok(command) => planned_remote_copy(source_path@, destination_path@, source_is_directory)
                == Ok::<Seq<char>, RemoteCopyPlanError>(command@),
            Err(e) => planned_remote_copy(source_path@, destination_path@, source_is_directory)
                == Err::<Seq<char>, RemoteCopyPlanError>(e),
        },
{
    let sc = crate::text::chars_of(source_path);
    let dc = crate::text::chars_of(destination_path);
    let source = normalize_remote_path_chars(&sc);
    let destination = normalize_remote_path_chars(&dc);
    if chars_eq(&source, &destination) {
        return Err(RemoteCopyPlanError::SamePath);
    }
    if source_is_directory {
        let mut prefix = trim_end_matches(&source, '/');
        prefix.push('/');
        proof {
            reveal_strlit("/");
        }
        assert(prefix@ =~= trim_end_char(source@, '/') + "/"@);
        if starts_with(&destination, &prefix) {
            return Err(RemoteCopyPlanError::DirectoryIntoItself);
        }
    }
    let mut command: Vec<char> = Vec::new();
    extend_str(&mut command, "cp -a -- ");
    let qs = shell_quote_chars(&source);
    extend_chars(&mut command, &qs);
    extend_str(&mut command, " ");
    let qd = shell_quote_chars(&destination);
    extend_chars(&mut command, &qd);
    Ok(string_from_chars(&command))
}

/// A planned copy never targets its own source, and never a path inside a
/// copied directory.
pub proof fn lemma_remote_copy_never_into_source(source: Seq<char>, destination: Seq<char>, source_is_directory: bool)
    requires
        planned_remote_copy(source, destination, source_is_directory) is Ok,
    ensures
        normalized_remote_path(source) != normalized_remote_path(destination),
        source_is_directory ==> !has_prefix(
            normalized_remote_path(destination),
            trim_end_char(normalized_remote_path(source), '/') + "/"@,
        ),
{
}

}

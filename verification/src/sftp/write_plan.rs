//! The order of remote file writes: saving content atomically with a direct
//! overwrite as fallback, and replacing a configuration file through a
//! verified temporary copy, a backup and a rollback. A driver performs each
//! step on the remote host and hands back its outcome.
use vstd::prelude::*;

use crate::sftp::session::{config_replace_failure, config_replacement_paths, write_failure_is_recoverable, write_failure_recoverable};
use crate::sftp::types::SftpError;
use crate::text::{chars_of, extend_str, string_from_chars};

verus! {

/// The next step of saving content.
pub enum ContentWriteStep {
    /// Write the content to `swap`, then rename it over `target`.
    WriteAtomic { target: String, swap: String },
    /// Overwrite `target` in place.
    WriteDirect { target: String },
    /// Saved; `true` when the atomic write succeeded.
    Saved(bool),
    /// The write failed with this error.
    Failed(SftpError),
}

/// Saving starts with the atomic write through the swap file.
pub fn content_write_start(target: String, swap: String) -> (r: ContentWriteStep)
    ensures
        r == (ContentWriteStep::WriteAtomic { target, swap }),
{
    ContentWriteStep::WriteAtomic { target, swap }
}

/// After the atomic write: done when it succeeded; otherwise a direct
/// overwrite of `target` when the failure allows one (see
/// `write_failure_recoverable`), else the failure stands.
pub fn content_write_after_atomic(target: String, outcome: Result<(), SftpError>) -> (r: ContentWriteStep)
    ensures
        r == match outcome {
            Ok(()) => ContentWriteStep::Saved(true),
            Err(e) => if write_failure_recoverable(e) {
                ContentWriteStep::WriteDirect { target }
            } else {
                ContentWriteStep::Failed(e)
            },
        },
{
    match outcome {
        Ok(()) => ContentWriteStep::Saved(true),
        Err(e) => if write_failure_is_recoverable(&e) {
            ContentWriteStep::WriteDirect { target }
        } else {
            ContentWriteStep::Failed(e)
        },
    }
}

/// After the direct overwrite: saved without atomicity, or its failure.
pub fn content_write_after_direct(outcome: Result<(), SftpError>) -> (r: ContentWriteStep)
    ensures
        r == match outcome {
            Ok(()) => ContentWriteStep::Saved(false),
            Err(e) => ContentWriteStep::Failed(e),
        },
{
    match outcome {
        Ok(()) => ContentWriteStep::Saved(false),
        Err(e) => ContentWriteStep::Failed(e),
    }
}

/// The next remote action while replacing a configuration file.
pub enum ConfigAction {
    /// Write the content to `path`, overwriting it.
    WriteFile { path: String },
    /// Read `path` back (at most the content's length) to compare it.
    ReadBack { path: String },
    /// Give `path` the original file's owner, group and permissions.
    CopyMetadata { path: String },
    /// Rename `from` to `to`.
    Rename { from: String, to: String },
    /// Remove `path`, ignoring a failure, then fail with `error`.
    RemoveThenFail { path: String, error: SftpError },
    /// Remove `path`, ignoring a failure, then report success.
    RemoveThenSucceed { path: String },
    /// Fail with this error.
    Fail(SftpError),
    /// The file was replaced.
    Succeed,
}

/// Where a configuration replacement stands.
#[derive(Clone, Copy, Debug, PartialEq, Eq, Structural)]
pub enum ConfigPhase {
    WritingTemporary,
    Verifying,
    CopyingMetadata,
    BackingUp,
    Replacing,
    RestoringBackup,
    Finished,
}

/// A configuration file replacement. When the file existed (its metadata
/// could be read), the new content gets its owner, group and permissions and
/// the original is kept as a backup until the replacement succeeded.
pub struct ConfigReplace {
    target: String,
    temporary: String,
    backup: String,
    existed: bool,
    replace_error: String,
    phase: ConfigPhase,
}

impl ConfigReplace {
    /// The file being replaced.
    pub closed spec fn spec_target(&self) -> Seq<char> {
        self.target@
    }

    /// The temporary copy of the new content.
    pub closed spec fn spec_temporary(&self) -> Seq<char> {
        self.temporary@
    }

    /// Where the original is kept meanwhile.
    pub closed spec fn spec_backup(&self) -> Seq<char> {
        self.backup@
    }

    /// Whether the file existed.
    pub closed spec fn spec_existed(&self) -> bool {
        self.existed
    }

    /// Why the final rename failed, once it has.
    pub closed spec fn spec_replace_error(&self) -> Seq<char> {
        self.replace_error@
    }

    /// Where the replacement stands.
    pub closed spec fn spec_phase(&self) -> ConfigPhase {
        self.phase
    }

    /// The paths do not change once chosen.
    pub open spec fn same_paths(&self, other: &Self) -> bool {
        &&& self.spec_target() == other.spec_target()
        &&& self.spec_temporary() == other.spec_temporary()
        &&& self.spec_backup() == other.spec_backup()
        &&& self.spec_existed() == other.spec_existed()
    }

    /// Starts replacing `target`; the temporary and backup paths are named
    /// after it and `suffix` (see `config_replacement_paths`). The first
    /// action writes the content to the temporary path.
    pub fn start(target: &str, suffix: &str, existed: bool) -> (r: (Self, ConfigAction))
        ensures
            r.0.spec_target() == target@,
            r.0.spec_temporary() == target@ + ".oxideterm-"@ + suffix@ + ".tmp"@,
            r.0.spec_backup() == target@ + ".oxideterm-"@ + suffix@ + ".bak"@,
            r.0.spec_existed() == existed,
            r.0.spec_phase() == ConfigPhase::WritingTemporary,
            r.1 matches ConfigAction::WriteFile { path } && path@ == r.0.spec_temporary(),
    {
        let (temporary, backup) = config_replacement_paths(target, suffix);
        let path = temporary.clone();
        let state = ConfigReplace {
            target: string_from_chars(&chars_of(target)),
            temporary,
            backup,
            existed,
            replace_error: String::new(),
            phase: ConfigPhase::WritingTemporary,
        };
        (state, ConfigAction::WriteFile { path })
    }

    /// After writing the temporary copy: its failure stands; otherwise it is read back.
    pub fn on_written(&mut self, outcome: Result<(), SftpError>) -> (r: ConfigAction)
        requires
            old(self).spec_phase() == ConfigPhase::WritingTemporary,
        ensures
            final(self).same_paths(old(self)),
            match outcome {
                Err(e) => r == ConfigAction::Fail(e) && final(self).spec_phase() == ConfigPhase::Finished,
                Ok(()) => (r matches ConfigAction::ReadBack { path } && path@ == old(self).spec_temporary())
                    && final(self).spec_phase() == ConfigPhase::Verifying,
            },
    {
        match outcome {
            Err(e) => {
                self.phase = ConfigPhase::Finished;
                ConfigAction::Fail(e)
            },
            Ok(()) => {
                self.phase = ConfigPhase::Verifying;
                ConfigAction::ReadBack { path: self.temporary.clone() }
            },
        }
    }

    /// After reading the temporary copy back: a read failure stands; a copy
    /// that differs from the content is removed and the replacement fails;
    /// a faithful copy gets the original's metadata when the file existed,
    /// and otherwise is renamed over the target.
    pub fn on_verified(&mut self, outcome: Result<bool, SftpError>) -> (r: ConfigAction)
        requires
            old(self).spec_phase() == ConfigPhase::Verifying,
        ensures
            final(self).same_paths(old(self)),
            match outcome {
                Err(e) => r == ConfigAction::Fail(e) && final(self).spec_phase() == ConfigPhase::Finished,
                Ok(false) => (r matches ConfigAction::RemoveThenFail { path, error: SftpError::WriteError(m) }
                    && path@ == old(self).spec_temporary() && m@ == "Remote configuration verification failed for "@
                    + old(self).spec_target()) && final(self).spec_phase() == ConfigPhase::Finished,
                Ok(true) => if old(self).spec_existed() {
                    (r matches ConfigAction::CopyMetadata { path } && path@ == old(self).spec_temporary())
                        && final(self).spec_phase() == ConfigPhase::CopyingMetadata
                } else {
                    (r matches ConfigAction::Rename { from, to } && from@ == old(self).spec_temporary() && to@
                        == old(self).spec_target()) && final(self).spec_phase() == ConfigPhase::Replacing
                },
            },
    {
        match outcome {
            Err(e) => {
                self.phase = ConfigPhase::Finished;
                ConfigAction::Fail(e)
            },
            Ok(false) => {
                self.phase = ConfigPhase::Finished;
                let mut m = chars_of("Remote configuration verification failed for ");
                extend_str(&mut m, self.target.as_str());
                ConfigAction::RemoveThenFail {
                    path: self.temporary.clone(),
                    error: SftpError::WriteError(string_from_chars(&m)),
                }
            },
            Ok(true) => if self.existed {
                self.phase = ConfigPhase::CopyingMetadata;
                ConfigAction::CopyMetadata { path: self.temporary.clone() }
            } else {
                self.phase = ConfigPhase::Replacing;
                ConfigAction::Rename { from: self.temporary.clone(), to: self.target.clone() }
            },
        }
    }

    /// After copying the metadata: on failure the temporary copy is removed
    /// and the replacement fails; otherwise the original becomes the backup.
    pub fn on_metadata_copied(&mut self, outcome: Result<(), String>) -> (r: ConfigAction)
        requires
            old(self).spec_phase() == ConfigPhase::CopyingMetadata,
        ensures
            final(self).same_paths(old(self)),
            match outcome {
                Err(e) => (r matches ConfigAction::RemoveThenFail { path, error: SftpError::WriteError(m) }
                    && path@ == old(self).spec_temporary() && m@ == "Failed to preserve metadata for "@
                    + old(self).spec_target() + ": "@ + e@) && final(self).spec_phase() == ConfigPhase::Finished,
                Ok(()) => (r matches ConfigAction::Rename { from, to } && from@ == old(self).spec_target() && to@
                    == old(self).spec_backup()) && final(self).spec_phase() == ConfigPhase::BackingUp,
            },
    {
        match outcome {
            Err(e) => {
                self.phase = ConfigPhase::Finished;
                let mut m = chars_of("Failed to preserve metadata for ");
                extend_str(&mut m, self.target.as_str());
                extend_str(&mut m, ": ");
                extend_str(&mut m, e.as_str());
                ConfigAction::RemoveThenFail {
                    path: self.temporary.clone(),
                    error: SftpError::WriteError(string_from_chars(&m)),
                }
            },
            Ok(()) => {
                self.phase = ConfigPhase::BackingUp;
                ConfigAction::Rename { from: self.target.clone(), to: self.backup.clone() }
            },
        }
    }

    /// After moving the original to the backup: on failure the temporary
    /// copy is removed and that failure stands; otherwise the temporary copy
    /// is renamed over the target.
    pub fn on_backed_up(&mut self, outcome: Result<(), SftpError>) -> (r: ConfigAction)
        requires
            old(self).spec_phase() == ConfigPhase::BackingUp,
        ensures
            final(self).same_paths(old(self)),
            match outcome {
                Err(e) => (r matches ConfigAction::RemoveThenFail { path, error } && path@
                    == old(self).spec_temporary() && error == e) && final(self).spec_phase()
                    == ConfigPhase::Finished,
                Ok(()) => (r matches ConfigAction::Rename { from, to } && from@ == old(self).spec_temporary()
                    && to@ == old(self).spec_target()) && final(self).spec_phase() == ConfigPhase::Replacing,
            },
    {
        match outcome {
            Err(e) => {
                self.phase = ConfigPhase::Finished;
                ConfigAction::RemoveThenFail { path: self.temporary.clone(), error: e }
            },
            Ok(()) => {
                self.phase = ConfigPhase::Replacing;
                ConfigAction::Rename { from: self.temporary.clone(), to: self.target.clone() }
            },
        }
    }

    /// After the final rename: on success the backup, if any, is removed;
    /// on failure the backup, if any, is moved back first, and otherwise the
    /// temporary copy is removed and the replacement fails.
    pub fn on_replaced(&mut self, outcome: Result<(), String>) -> (r: ConfigAction)
        requires
            old(self).spec_phase() == ConfigPhase::Replacing,
        ensures
            final(self).same_paths(old(self)),
            match outcome {
                Ok(()) => final(self).spec_phase() == ConfigPhase::Finished && if old(self).spec_existed() {
                    r matches ConfigAction::RemoveThenSucceed { path } && path@ == old(self).spec_backup()
                } else {
                    r is Succeed
                },
                Err(e) => if old(self).spec_existed() {
                    (r matches ConfigAction::Rename { from, to } && from@ == old(self).spec_backup() && to@
                        == old(self).spec_target()) && final(self).spec_phase() == ConfigPhase::RestoringBackup
                        && final(self).spec_replace_error() == e@
                } else {
                    (r matches ConfigAction::RemoveThenFail { path, error: SftpError::WriteError(m) } && path@
                        == old(self).spec_temporary() && m@ == "Failed to replace "@ + old(self).spec_target()
                        + ": "@ + e@) && final(self).spec_phase() == ConfigPhase::Finished
                },
            },
    {
        match outcome {
            Ok(()) => {
                self.phase = ConfigPhase::Finished;
                if self.existed {
                    ConfigAction::RemoveThenSucceed { path: self.backup.clone() }
                } else {
                    ConfigAction::Succeed
                }
            },
            Err(e) => if self.existed {
                self.phase = ConfigPhase::RestoringBackup;
                self.replace_error = e;
                ConfigAction::Rename { from: self.backup.clone(), to: self.target.clone() }
            } else {
                self.phase = ConfigPhase::Finished;
                let error = config_replace_failure(self.target.as_str(), e.as_str(), None, self.backup.as_str());
                ConfigAction::RemoveThenFail { path: self.temporary.clone(), error }
            },
        }
    }

    /// After moving the backup back: the temporary copy is removed and the
    /// replacement fails, saying where the original remains when the
    /// rollback failed too.
    pub fn on_restored(&mut self, outcome: Result<(), String>) -> (r: ConfigAction)
        requires
            old(self).spec_phase() == ConfigPhase::RestoringBackup,
        ensures
            final(self).same_paths(old(self)),
            final(self).spec_phase() == ConfigPhase::Finished,
            r matches ConfigAction::RemoveThenFail { path, error: SftpError::WriteError(m) } && path@
                == old(self).spec_temporary() && m@ == match outcome {
                Ok(()) => "Failed to replace "@ + old(self).spec_target() + ": "@ + old(self).spec_replace_error(),
                Err(rb) => "Failed to replace "@ + old(self).spec_target() + ": "@ + old(self).spec_replace_error()
                    + "; rollback failed: "@ + rb@ + ". The original file remains at "@ + old(self).spec_backup(),
            },
    {
        self.phase = ConfigPhase::Finished;
        let rollback: Option<&str> = match &outcome {
            Ok(()) => None,
            Err(rb) => Some(rb.as_str()),
        };
        let error = config_replace_failure(
            self.target.as_str(),
            self.replace_error.as_str(),
            rollback,
            self.backup.as_str(),
        );
        ConfigAction::RemoveThenFail { path: self.temporary.clone(), error }
    }

    /// Where the replacement stands.
    pub fn phase(&self) -> (r: ConfigPhase)
        ensures
            r == self.spec_phase(),
    {
        self.phase
    }
}

}

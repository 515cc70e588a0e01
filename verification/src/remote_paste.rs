//! Pasting an SFTP clipboard on the remote host, one entry at a time: the
//! destination of each entry is checked first, then the entry is copied by
//! one quoted `cp` command or moved by a rename.
use vstd::prelude::*;

use crate::sftp::paths::{join_remote_path, joined_remote_path, normalized_remote_path};
use crate::sftp::remote_ops::{
    lemma_remote_copy_never_into_source, plan_remote_copy_command, planned_remote_copy,
};
use crate::text::{chars_of, has_prefix, str_eq, string_from_chars, trim_end_char};

verus! {

/// What pasting does with the clipboard entries.
#[derive(Clone, Copy, Debug, PartialEq, Eq, Structural)]
pub enum ClipboardOperation {
    Copy,
    Cut,
}

/// One entry on the remote clipboard.
#[derive(Clone, Debug)]
pub struct ClipboardEntry {
    pub name: String,
    pub path: String,
    pub is_directory: bool,
}

/// The content of a `ClipboardEntry`.
pub ghost struct ClipboardEntryView {
    pub name: Seq<char>,
    pub path: Seq<char>,
    pub is_directory: bool,
}

impl View for ClipboardEntry {
    type V = ClipboardEntryView;

    open spec fn view(&self) -> ClipboardEntryView {
        ClipboardEntryView { name: self.name@, path: self.path@, is_directory: self.is_directory }
    }
}

/// What the remote said about a destination path.
#[derive(Clone, Copy, Debug, PartialEq, Eq, Structural)]
pub enum DestinationCheck {
    /// Nothing exists there.
    Missing,
    /// An entry exists there.
    Exists,
    /// The check itself failed.
    Failed,
}

/// The next thing to do on the remote host.
#[derive(Clone, Debug)]
pub enum PasteStep {
    /// Look up this destination path.
    CheckDestination(String),
    /// Run this copy command.
    RunCopy(String),
    /// Rename the first path to the second.
    Rename(String, String),
    /// Every entry was pasted.
    Finished,
    /// Pasting stopped; the remaining entries are left alone.
    Failed,
}

/// The content of a `PasteStep`.
pub ghost enum PasteStepView {
    CheckDestination(Seq<char>),
    RunCopy(Seq<char>),
    Rename(Seq<char>, Seq<char>),
    Finished,
    Failed,
}

impl View for PasteStep {
    type V = PasteStepView;

    open spec fn view(&self) -> PasteStepView {
        match self {
            PasteStep::CheckDestination(p) => PasteStepView::CheckDestination(p@),
            PasteStep::RunCopy(c) => PasteStepView::RunCopy(c@),
            PasteStep::Rename(a, b) => PasteStepView::Rename(a@, b@),
            PasteStep::Finished => PasteStepView::Finished,
            PasteStep::Failed => PasteStepView::Failed,
        }
    }
}

/// Where a paste stands.
#[derive(Clone, Copy, Debug, PartialEq, Eq, Structural)]
pub enum PastePhase {
    /// Waiting for the destination check of the current entry.
    Checking,
    /// Waiting for the current entry's copy or rename.
    Transferring,
    /// Every entry was pasted.
    Finished,
    /// Pasting stopped.
    Failed,
}

/// The entries as views.
pub open spec fn entry_views(v: Seq<ClipboardEntry>) -> Seq<ClipboardEntryView> {
    v.map_values(|e: ClipboardEntry| e@)
}

/// The destination path of an entry: its name inside the destination directory.
pub open spec fn paste_destination(directory: Seq<char>, e: ClipboardEntryView) -> Seq<char> {
    joined_remote_path(directory, e.name)
}

/// The transfer of an entry whose destination is free: the planned copy
/// command, or a rename for a cut; none when no copy can be planned.
pub open spec fn transfer_step(operation: ClipboardOperation, directory: Seq<char>, e: ClipboardEntryView) -> PasteStepView {
    let destination = paste_destination(directory, e);
    match planned_remote_copy(e.path, destination, e.is_directory) {
        Err(_) => PasteStepView::Failed,
        Ok(command) => match operation {
            ClipboardOperation::Copy => PasteStepView::RunCopy(command),
            ClipboardOperation::Cut => PasteStepView::Rename(e.path, destination),
        },
    }
}

/// The step that follows `completed` pasted entries.
pub open spec fn step_after(directory: Seq<char>, entries: Seq<ClipboardEntryView>, completed: nat) -> PasteStepView {
    if completed < entries.len() {
        PasteStepView::CheckDestination(paste_destination(directory, entries[completed as int]))
    } else {
        PasteStepView::Finished
    }
}

/// A paste of clipboard entries into a remote directory.
pub struct RemotePaste {
    operation: ClipboardOperation,
    entries: Vec<ClipboardEntry>,
    destination_directory: String,
    completed: usize,
    phase: PastePhase,
}

impl RemotePaste {
    /// The operation.
    pub closed spec fn spec_operation(&self) -> ClipboardOperation {
        self.operation
    }

    /// The entries, in paste order.
    pub closed spec fn spec_entries(&self) -> Seq<ClipboardEntryView> {
        entry_views(self.entries@)
    }

    /// The destination directory.
    pub closed spec fn spec_directory(&self) -> Seq<char> {
        self.destination_directory@
    }

    /// How many entries are pasted.
    pub closed spec fn spec_completed(&self) -> nat {
        self.completed as nat
    }

    /// Where the paste stands.
    pub closed spec fn spec_phase(&self) -> PastePhase {
        self.phase
    }

    /// Entries are pasted in order; the paste has finished exactly when all are.
    pub closed spec fn well_formed(&self) -> bool {
        &&& self.completed <= self.entries@.len()
        &&& (self.phase == PastePhase::Finished <==> self.completed == self.entries@.len()
            && self.phase != PastePhase::Failed)
    }

    /// Starts a paste; the first step checks the first entry's destination,
    /// or reports the paste finished when there is nothing to paste.
    pub fn start(operation: ClipboardOperation, entries: Vec<ClipboardEntry>, destination_directory: String) -> (r: (
        Self,
        PasteStep,
    ))
        ensures
            r.0.well_formed(),
            r.0.spec_operation() == operation,
            r.0.spec_entries() == entry_views(entries@),
            r.0.spec_directory() == destination_directory@,
            r.0.spec_completed() == 0,
            r.0.spec_phase() == if entries@.len() == 0 {
                PastePhase::Finished
            } else {
                PastePhase::Checking
            },
            r.1@ == step_after(destination_directory@, entry_views(entries@), 0),
    {
        let paste = RemotePaste {
            operation,
            entries,
            destination_directory,
            completed: 0,
            phase: PastePhase::Checking,
        };
        if paste.entries.len() == 0 {
            let done = RemotePaste { phase: PastePhase::Finished, ..paste };
            (done, PasteStep::Finished)
        } else {
            let step = paste.check_step();
            (paste, step)
        }
    }

    /// The check of the current entry's destination.
    fn check_step(&self) -> (r: PasteStep)
        requires
            self.completed < self.entries@.len(),
        ensures
            r@ == step_after(self.spec_directory(), self.spec_entries(), self.spec_completed()),
    {
        let e = &self.entries[self.completed];
        assert(self.spec_entries()[self.completed as int] == e@);
        PasteStep::CheckDestination(join_remote_path(self.destination_directory.as_str(), e.name.as_str()))
    }

    /// Takes the current entry's destination check: a free destination leads
    /// to the entry's copy or rename, anything else stops the paste.
    pub fn on_destination_checked(&mut self, check: DestinationCheck) -> (r: PasteStep)
        requires
            old(self).well_formed(),
            old(self).spec_phase() == PastePhase::Checking,
        ensures
            final(self).well_formed(),
            final(self).spec_operation() == old(self).spec_operation(),
            final(self).spec_entries() == old(self).spec_entries(),
            final(self).spec_directory() == old(self).spec_directory(),
            final(self).spec_completed() == old(self).spec_completed(),
            r@ == if check == DestinationCheck::Missing {
                transfer_step(
                    old(self).spec_operation(),
                    old(self).spec_directory(),
                    old(self).spec_entries()[old(self).spec_completed() as int],
                )
            } else {
                PasteStepView::Failed
            },
            final(self).spec_phase() == if r@ == PasteStepView::Failed {
                PastePhase::Failed
            } else {
                PastePhase::Transferring
            },
    {
        if check != DestinationCheck::Missing {
            self.phase = PastePhase::Failed;
            return PasteStep::Failed;
        }
        let e = &self.entries[self.completed];
        assert(self.spec_entries()[self.completed as int] == e@);
        let destination = join_remote_path(self.destination_directory.as_str(), e.name.as_str());
        match plan_remote_copy_command(e.path.as_str(), destination.as_str(), e.is_directory) {
            Err(_) => {
                self.phase = PastePhase::Failed;
                PasteStep::Failed
            },
            Ok(command) => {
                self.phase = PastePhase::Transferring;
                match self.operation {
                    ClipboardOperation::Copy => PasteStep::RunCopy(command),
                    ClipboardOperation::Cut => PasteStep::Rename(
                        string_from_chars(&chars_of(e.path.as_str())),
                        destination,
                    ),
                }
            },
        }
    }

    /// Takes the outcome of the current entry's copy or rename: success moves
    /// on to the next entry's check, or finishes; failure stops the paste.
    pub fn on_transfer_finished(&mut self, succeeded: bool) -> (r: PasteStep)
        requires
            old(self).well_formed(),
            old(self).spec_phase() == PastePhase::Transferring,
        ensures
            final(self).well_formed(),
            final(self).spec_operation() == old(self).spec_operation(),
            final(self).spec_entries() == old(self).spec_entries(),
            final(self).spec_directory() == old(self).spec_directory(),
            succeeded ==> final(self).spec_completed() == old(self).spec_completed() + 1,
            succeeded ==> r@ == step_after(
                old(self).spec_directory(),
                old(self).spec_entries(),
                old(self).spec_completed() + 1,
            ),
            succeeded ==> final(self).spec_phase() == if old(self).spec_completed() + 1 == old(
                self,
            ).spec_entries().len() {
                PastePhase::Finished
            } else {
                PastePhase::Checking
            },
            !succeeded ==> r@ == PasteStepView::Failed && final(self).spec_phase() == PastePhase::Failed
                && final(self).spec_completed() == old(self).spec_completed(),
    {
        if !succeeded {
            self.phase = PastePhase::Failed;
            return PasteStep::Failed;
        }
        let n = self.entries.len();
        assert(self.completed < n);
        self.completed = self.completed + 1;
        if self.completed == n {
            self.phase = PastePhase::Finished;
            PasteStep::Finished
        } else {
            self.phase = PastePhase::Checking;
            self.check_step()
        }
    }

    /// The progress shown: pasted entries out of the selection (at least one).
    pub fn progress(&self) -> (r: (u64, u64))
        requires
            self.well_formed(),
        ensures
            r.0 == self.spec_completed(),
            r.1 == if self.spec_entries().len() == 0 {
                1
            } else {
                self.spec_entries().len()
            },
            r.0 <= r.1,
    {
        let total: u64 = if self.entries.len() == 0 {
            1
        } else {
            self.entries.len() as u64
        };
        (self.completed as u64, total)
    }

    /// How the paste stands.
    pub fn phase(&self) -> (r: PastePhase)
        ensures
            r == self.spec_phase(),
    {
        self.phase
    }
}

/// The remote clipboard: entries taken from one connection, to copy or move.
pub struct RemoteClipboard {
    pub remote_id: String,
    pub operation: ClipboardOperation,
    pub entries: Vec<ClipboardEntry>,
}

/// The content of a `RemoteClipboard`.
pub ghost struct RemoteClipboardView {
    pub remote_id: Seq<char>,
    pub operation: ClipboardOperation,
    pub entries: Seq<ClipboardEntryView>,
}

impl View for RemoteClipboard {
    type V = RemoteClipboardView;

    open spec fn view(&self) -> RemoteClipboardView {
        RemoteClipboardView {
            remote_id: self.remote_id@,
            operation: self.operation,
            entries: entry_views(self.entries@),
        }
    }
}

/// How a paste request was answered.
pub enum PasteStart {
    /// No connection is shown, or the clipboard is empty: nothing happens.
    Nothing,
    /// The clipboard was taken from another connection: the paste is refused
    /// with the toast of `paste_refusal_keys` and no remote work.
    DifferentHost,
    /// The connection has no file-transfer backend: nothing happens.
    NoBackend,
    /// The paste started with its first step.
    Started(RemotePaste, PasteStep),
}

/// The toast title and description keys of a paste refused because the
/// clipboard belongs to another connection.
pub fn paste_refusal_keys() -> (r: (&'static str, &'static str))
    ensures
        r.0@ == "sftp.toast.paste_failed"@,
        r.1@ == "sftp.toast.paste_different_host"@,
{
    ("sftp.toast.paste_failed", "sftp.toast.paste_different_host")
}

/// A copy of the entries.
fn copy_entries(v: &Vec<ClipboardEntry>) -> (r: Vec<ClipboardEntry>)
    ensures
        entry_views(r@) == entry_views(v@),
{
    let mut r: Vec<ClipboardEntry> = Vec::new();
    let mut i: usize = 0;
    while i < v.len()
        invariant
            i <= v.len(),
            r@.len() == i,
            forall|j: int| 0 <= j < i ==> #[trigger] r@[j]@ == v@[j]@,
        decreases v.len() - i,
    {
        let e = &v[i];
        r.push(ClipboardEntry { name: e.name.clone(), path: e.path.clone(), is_directory: e.is_directory });
        i += 1;
    }
    assert(entry_views(r@) =~= entry_views(v@));
    r
}

/// Answers a paste request into `destination_directory` of the shown
/// connection, and gives back the clipboard that remains. Nothing happens
/// without a shown connection or a clipboard; a clipboard from another
/// connection is refused and kept; without a backend it is kept too. Otherwise
/// the paste starts over the clipboard's entries in order: a cut clipboard is
/// consumed as it starts, so its source paths are never tried again, and a
/// copied one stays for further pastes.
pub fn begin_remote_paste(
    clipboard: Option<RemoteClipboard>,
    visible_remote_id: Option<&str>,
    backend_available: bool,
    destination_directory: String,
) -> (r: (Option<RemoteClipboard>, PasteStart))
    ensures
        match (clipboard, visible_remote_id) {
            (Some(c), Some(id)) => if c.remote_id@ != id@ {
                r.0 == clipboard && r.1 is DifferentHost
            } else if !backend_available {
                r.0 == clipboard && r.1 is NoBackend
            } else {
                &&& c.operation == ClipboardOperation::Cut ==> r.0 is None
                &&& c.operation == ClipboardOperation::Copy ==> r.0 == clipboard
                &&& r.1 matches PasteStart::Started(p, step)
                &&& p.well_formed()
                &&& p.spec_operation() == c.operation
                &&& p.spec_entries() == c@.entries
                &&& p.spec_directory() == destination_directory@
                &&& p.spec_completed() == 0
                &&& p.spec_phase() == if c@.entries.len() == 0 {
                    PastePhase::Finished
                } else {
                    PastePhase::Checking
                }
                &&& step@ == step_after(destination_directory@, c@.entries, 0)
            },
            _ => r.0 == clipboard && r.1 is Nothing,
        },
{
    let id = match visible_remote_id {
        Some(id) => id,
        None => {
            return (clipboard, PasteStart::Nothing);
        },
    };
    let c = match clipboard {
        Some(c) => c,
        None => {
            return (None, PasteStart::Nothing);
        },
    };
    if !clipboard_matches_destination(c.remote_id.as_str(), id) {
        return (Some(c), PasteStart::DifferentHost);
    }
    if !backend_available {
        return (Some(c), PasteStart::NoBackend);
    }
    match c.operation {
        ClipboardOperation::Cut => {
            let (paste, step) = RemotePaste::start(ClipboardOperation::Cut, c.entries, destination_directory);
            (None, PasteStart::Started(paste, step))
        },
        ClipboardOperation::Copy => {
            let entries = copy_entries(&c.entries);
            let (paste, step) = RemotePaste::start(ClipboardOperation::Copy, entries, destination_directory);
            (Some(c), PasteStart::Started(paste, step))
        },
    }
}

/// A copy command succeeded when it exited with status zero.
pub fn copy_command_succeeded(exit_code: Option<i32>) -> (r: bool)
    ensures
        r == (exit_code == Some(0i32)),
{
    match exit_code {
        Some(code) => code == 0,
        None => false,
    }
}

/// A clipboard is pasted only into the remote connection it was taken from.
pub fn clipboard_matches_destination(clipboard_remote_id: &str, destination_remote_id: &str) -> (r: bool)
    ensures
        r == (clipboard_remote_id@ == destination_remote_id@),
{
    str_eq(clipboard_remote_id, destination_remote_id)
}

/// The message keys of a paste's progress and success titles.
pub fn paste_title_keys(operation: ClipboardOperation) -> (r: (&'static str, &'static str))
    ensures
        operation == ClipboardOperation::Copy ==> r.0@ == "sftp.toast.copying"@ && r.1@
            == "sftp.toast.copy_complete"@,
        operation == ClipboardOperation::Cut ==> r.0@ == "sftp.toast.moving"@ && r.1@
            == "sftp.toast.move_complete"@,
{
    match operation {
        ClipboardOperation::Copy => ("sftp.toast.copying", "sftp.toast.copy_complete"),
        ClipboardOperation::Cut => ("sftp.toast.moving", "sftp.toast.move_complete"),
    }
}

/// A paste never copies or moves an entry onto itself, nor a directory
/// into itself: whenever an entry's transfer is planned, its normalized
/// destination differs from its source and lies outside it.
pub proof fn lemma_paste_never_targets_its_source(
    operation: ClipboardOperation,
    directory: Seq<char>,
    e: ClipboardEntryView,
)
    requires
        transfer_step(operation, directory, e) != PasteStepView::Failed,
    ensures
        normalized_remote_path(e.path) != normalized_remote_path(paste_destination(directory, e)),
        e.is_directory ==> !has_prefix(
            normalized_remote_path(paste_destination(directory, e)),
            trim_end_char(normalized_remote_path(e.path), '/') + "/"@,
        ),
{
    lemma_remote_copy_never_into_source(e.path, paste_destination(directory, e), e.is_directory);
}

}

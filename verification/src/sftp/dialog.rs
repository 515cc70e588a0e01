//! What accepting an SFTP dialog does: which rename, folder, file or delete
//! operation runs, on which side, and with which paths.
use vstd::prelude::*;

use crate::sftp::paths::{join_remote_path, joined_remote_path};
use crate::text::{
    chars_of, copy_range, last_index_of, rfind_char, str_eq, string_from_chars, trim, trim_ws,
};

verus! {

/// The two panes of the file browser.
#[derive(Clone, Copy, Debug, PartialEq, Eq, Structural)]
pub enum SftpPane {
    Local,
    Remote,
}

/// An entry of a pane's listing.
#[derive(Clone, Debug)]
pub struct ListedFile {
    pub name: String,
    pub path: String,
}

/// The name and path of a listed entry.
pub open spec fn listed_views(files: Seq<ListedFile>) -> Seq<(Seq<char>, Seq<char>)> {
    files.map_values(|f: ListedFile| (f.name@, f.path@))
}

/// The path of the first listed entry called `name`.
pub open spec fn listed_path(files: Seq<(Seq<char>, Seq<char>)>, name: Seq<char>) -> Option<Seq<char>>
    decreases files.len(),
{
    if files.len() == 0 {
        None
    } else if files[0].0 == name {
        Some(files[0].1)
    } else {
        listed_path(files.drop_first(), name)
    }
}

/// The path of an entry: its listed path, else `name` inside `directory`.
pub open spec fn entry_path(files: Seq<(Seq<char>, Seq<char>)>, directory: Seq<char>, name: Seq<char>) -> Seq<char> {
    match listed_path(files, name) {
        Some(p) => p,
        None => joined_remote_path(directory, name),
    }
}

/// The listed paths of the named entries, in the order of the names;
/// names without a listed entry are left out.
pub open spec fn listed_paths(files: Seq<(Seq<char>, Seq<char>)>, names: Seq<Seq<char>>) -> Seq<Seq<char>>
    decreases names.len(),
{
    if names.len() == 0 {
        Seq::empty()
    } else {
        let rest = listed_paths(files, names.drop_last());
        match listed_path(files, names.last()) {
            Some(p) => rest.push(p),
            None => rest,
        }
    }
}

/// The directory that holds a remote path: everything before its last `/`,
/// the root for an entry of the root, and `.` for a path without `/`.
pub open spec fn remote_parent(path: Seq<char>) -> Seq<char> {
    match last_index_of(path, '/') {
        Some(i) => if i == 0 {
            seq!['/']
        } else {
            path.take(i)
        },
        None => seq!['.'],
    }
}

/// The path of the first listed entry called `name`.
fn find_listed(files: &[ListedFile], name: &str) -> (r: Option<String>)
    ensures
        match r {
            Some(p) => listed_path(listed_views(files@), name@) == Some(p@),
            None => listed_path(listed_views(files@), name@) is None,
        },
{
    let ghost all = listed_views(files@);
    let mut i: usize = 0;
    assert(all.skip(0) =~= all);
    while i < files.len()
        invariant
            i <= files@.len(),
            all == listed_views(files@),
            listed_path(all, name@) == listed_path(all.skip(i as int), name@),
        decreases files.len() - i,
    {
        assert(all.skip(i as int).drop_first() =~= all.skip(i as int + 1));
        assert(all.skip(i as int)[0] == all[i as int]);
        if str_eq(files[i].name.as_str(), name) {
            return Some(string_from_chars(&chars_of(files[i].path.as_str())));
        }
        i += 1;
    }
    None
}

/// The path of an entry (see `entry_path`).
fn entry_path_of(files: &[ListedFile], directory: &str, name: &str) -> (r: String)
    ensures
        r@ == entry_path(listed_views(files@), directory@, name@),
{
    match find_listed(files, name) {
        Some(p) => p,
        None => join_remote_path(directory, name),
    }
}

/// The listed paths of the named entries (see `listed_paths`).
fn listed_paths_of(files: &[ListedFile], names: &[String]) -> (r: Vec<String>)
    ensures
        r@.map_values(|s: String| s@) == listed_paths(listed_views(files@), names@.map_values(|s: String| s@)),
{
    let ghost nv = names@.map_values(|s: String| s@);
    let mut r: Vec<String> = Vec::new();
    let mut i: usize = 0;
    assert(nv.take(0) =~= Seq::<Seq<char>>::empty());
    assert(r@.map_values(|s: String| s@) =~= Seq::<Seq<char>>::empty());
    while i < names.len()
        invariant
            i <= names@.len(),
            nv == names@.map_values(|s: String| s@),
            r@.map_values(|s: String| s@) == listed_paths(listed_views(files@), nv.take(i as int)),
        decreases names.len() - i,
    {
        assert(nv.take(i as int + 1).drop_last() =~= nv.take(i as int));
        assert(nv.take(i as int + 1).last() == names@[i as int]@);
        let ghost before = r@;
        match find_listed(files, names[i].as_str()) {
            Some(p) => {
                r.push(p);
                assert(r@.map_values(|s: String| s@) =~= before.map_values(|s: String| s@).push(r@.last()@));
            },
            None => {},
        }
        i += 1;
    }
    assert(nv.take(names@.len() as int) =~= nv);
    r
}

/// The directory that holds a remote path (see `remote_parent`).
pub fn remote_parent_path(path: &str) -> (r: String)
    ensures
        r@ == remote_parent(path@),
{
    let c = chars_of(path);
    match rfind_char(&c, '/') {
        Some(i) => if i == 0 {
            let root = chars_of("/");
            proof {
                reveal_strlit("/");
            }
            assert(root@ =~= seq!['/']);
            string_from_chars(&root)
        } else {
            let head = copy_range(&c, 0, i);
            assert(c@.subrange(0, i as int) =~= c@.take(i as int));
            string_from_chars(&head)
        },
        None => {
            let dot = chars_of(".");
            proof {
                reveal_strlit(".");
            }
            assert(dot@ =~= seq!['.']);
            string_from_chars(&dot)
        },
    }
}


/// The dialog being accepted.
pub enum SftpDialogKind {
    /// Packing or unpacking an archive.
    Archive,
    /// Renaming `old_name` in a pane.
    Rename { pane: SftpPane, old_name: String },
    /// Creating a folder in a pane.
    NewFolder { pane: SftpPane },
    /// Creating an empty file in a pane.
    NewFile { pane: SftpPane },
    /// Deleting the named entries of a pane.
    Delete { pane: SftpPane, files: Vec<String> },
    /// Settling a transfer conflict.
    Conflict,
    /// Any other dialog.
    Other,
}

/// The file operation an accepted dialog starts.
pub enum DialogOperation {
    /// Run the archive operation the dialog describes.
    RunArchive,
    /// Settle the pending transfer conflict by renaming the incoming entry.
    ResolveConflictByRename,
    /// Rename on a remote connection, asked from `pane`.
    RemoteRename { pane: SftpPane, old_path: String, new_path: String, old_name: String, new_name: String },
    /// Rename an entry of the local directory.
    LocalRename { old_name: String, new_name: String },
    /// Create a folder on a remote connection, asked from `pane`.
    RemoteCreateFolder { pane: SftpPane, path: String, name: String },
    /// Create a folder in the local directory.
    LocalCreateFolder { name: String },
    /// Create an empty file on a remote connection, asked from `pane`.
    RemoteCreateFile { pane: SftpPane, path: String, name: String },
    /// Create an empty file in the local directory.
    LocalCreateFile { name: String },
    /// Delete these paths on the paired remote connection, asked from the local pane.
    PairedRemoteDelete { paths: Vec<String> },
    /// Delete these entries of the local directory.
    LocalDelete { names: Vec<String> },
    /// Delete these paths on the remote connection, counting what is removed.
    RemoteDelete { paths: Vec<String> },
    /// Nothing to do.
    NoOperation,
}

/// The content of a `DialogOperation`.
pub ghost enum DialogOperationView {
    RunArchive,
    ResolveConflictByRename,
    RemoteRename(SftpPane, Seq<char>, Seq<char>, Seq<char>, Seq<char>),
    LocalRename(Seq<char>, Seq<char>),
    RemoteCreateFolder(SftpPane, Seq<char>, Seq<char>),
    LocalCreateFolder(Seq<char>),
    RemoteCreateFile(SftpPane, Seq<char>, Seq<char>),
    LocalCreateFile(Seq<char>),
    PairedRemoteDelete(Seq<Seq<char>>),
    LocalDelete(Seq<Seq<char>>),
    RemoteDelete(Seq<Seq<char>>),
    NoOperation,
}

/// Strings as character sequences.
pub open spec fn string_views(v: Seq<String>) -> Seq<Seq<char>> {
    v.map_values(|s: String| s@)
}

impl View for DialogOperation {
    type V = DialogOperationView;

    open spec fn view(&self) -> DialogOperationView {
        match self {
            DialogOperation::RunArchive => DialogOperationView::RunArchive,
            DialogOperation::ResolveConflictByRename => DialogOperationView::ResolveConflictByRename,
            DialogOperation::RemoteRename { pane, old_path, new_path, old_name, new_name } =>
                DialogOperationView::RemoteRename(*pane, old_path@, new_path@, old_name@, new_name@),
            DialogOperation::LocalRename { old_name, new_name } => DialogOperationView::LocalRename(old_name@, new_name@),
            DialogOperation::RemoteCreateFolder { pane, path, name } =>
                DialogOperationView::RemoteCreateFolder(*pane, path@, name@),
            DialogOperation::LocalCreateFolder { name } => DialogOperationView::LocalCreateFolder(name@),
            DialogOperation::RemoteCreateFile { pane, path, name } =>
                DialogOperationView::RemoteCreateFile(*pane, path@, name@),
            DialogOperation::LocalCreateFile { name } => DialogOperationView::LocalCreateFile(name@),
            DialogOperation::PairedRemoteDelete { paths } => DialogOperationView::PairedRemoteDelete(string_views(paths@)),
            DialogOperation::LocalDelete { names } => DialogOperationView::LocalDelete(string_views(names@)),
            DialogOperation::RemoteDelete { paths } => DialogOperationView::RemoteDelete(string_views(paths@)),
            DialogOperation::NoOperation => DialogOperationView::NoOperation,
        }
    }
}

/// What accepting a dialog does: the operation, whether the dialog closes,
/// and the pane whose selection is cleared.
pub struct DialogDecision {
    pub operation: DialogOperation,
    pub close: bool,
    pub clear_selection: Option<SftpPane>,
}

/// Where a dialog's panes look: the directories and listings of both panes,
/// whether the local pane shows a paired remote connection, and whether the
/// shown remote connection has a file-transfer backend.
pub struct DialogContext {
    pub local_path: String,
    pub remote_path: String,
    pub local_files: Vec<ListedFile>,
    pub remote_files: Vec<ListedFile>,
    pub paired_remote: bool,
    pub remote_available: bool,
}

/// The operation a name dialog (rename, folder, file) starts for a trimmed,
/// non-empty `value`: the local pane of a paired connection and the remote
/// pane work remotely, the plain local pane locally.
pub open spec fn rename_operation(c: DialogContext, pane: SftpPane, old: Seq<char>, value: Seq<char>) -> DialogOperationView {
    if pane == SftpPane::Local && !c.paired_remote {
        DialogOperationView::LocalRename(old, value)
    } else {
        let old_path = if pane == SftpPane::Local {
            entry_path(listed_views(c.local_files@), c.local_path@, old)
        } else {
            entry_path(listed_views(c.remote_files@), c.remote_path@, old)
        };
        DialogOperationView::RemoteRename(pane, old_path, joined_remote_path(remote_parent(old_path), value), old, value)
    }
}

/// The directory a pane's new entries go into.
pub open spec fn pane_directory(c: DialogContext, pane: SftpPane) -> Seq<char> {
    if pane == SftpPane::Local {
        c.local_path@
    } else {
        c.remote_path@
    }
}

/// What accepting `kind` with the dialog's text `input` does.
pub open spec fn dialog_decision(kind: SftpDialogKind, input: Seq<char>, c: DialogContext) -> (
    DialogOperationView,
    bool,
    Option<SftpPane>,
) {
    let value = trim(input);
    let local = |pane: SftpPane| pane == SftpPane::Local && !c.paired_remote;
    match kind {
        SftpDialogKind::Archive => (DialogOperationView::RunArchive, true, None),
        SftpDialogKind::Rename { pane, old_name } => (
            if value.len() == 0 {
                DialogOperationView::NoOperation
            } else {
                rename_operation(c, pane, old_name@, value)
            },
            true,
            None,
        ),
        SftpDialogKind::NewFolder { pane } => (
            if value.len() == 0 {
                DialogOperationView::NoOperation
            } else if local(pane) {
                DialogOperationView::LocalCreateFolder(value)
            } else {
                DialogOperationView::RemoteCreateFolder(pane, joined_remote_path(pane_directory(c, pane), value), value)
            },
            true,
            None,
        ),
        SftpDialogKind::NewFile { pane } => (
            if value.len() == 0 {
                DialogOperationView::NoOperation
            } else if local(pane) {
                DialogOperationView::LocalCreateFile(value)
            } else {
                DialogOperationView::RemoteCreateFile(pane, joined_remote_path(pane_directory(c, pane), value), value)
            },
            true,
            None,
        ),
        SftpDialogKind::Delete { pane, files } => {
            let names = string_views(files@);
            if pane == SftpPane::Local && c.paired_remote {
                (DialogOperationView::PairedRemoteDelete(listed_paths(listed_views(c.local_files@), names)), true, None)
            } else if pane == SftpPane::Local {
                (DialogOperationView::LocalDelete(names), true, Some(SftpPane::Local))
            } else if !c.remote_available {
                (DialogOperationView::NoOperation, true, None)
            } else {
                (
                    DialogOperationView::RemoteDelete(listed_paths(listed_views(c.remote_files@), names)),
                    true,
                    Some(SftpPane::Remote),
                )
            }
        },
        SftpDialogKind::Conflict => (DialogOperationView::ResolveConflictByRename, false, None),
        SftpDialogKind::Other => (DialogOperationView::NoOperation, true, None),
    }
}

/// A copy of the strings.
fn copy_strings(v: &Vec<String>) -> (r: Vec<String>)
    ensures
        string_views(r@) == string_views(v@),
{
    let mut r: Vec<String> = Vec::new();
    let mut i: usize = 0;
    while i < v.len()
        invariant
            i <= v.len(),
            r@.len() == i,
            forall|j: int| 0 <= j < i ==> #[trigger] r@[j]@ == v@[j]@,
        decreases v.len() - i,
    {
        r.push(v[i].clone());
        i += 1;
    }
    assert(string_views(r@) =~= string_views(v@));
    r
}

/// The rename a name dialog starts (see `rename_operation`).
fn rename_of(c: &DialogContext, pane: SftpPane, old_name: &str, value: String) -> (r: DialogOperation)
    ensures
        r@ == rename_operation(*c, pane, old_name@, value@),
{
    if pane == SftpPane::Local && !c.paired_remote {
        return DialogOperation::LocalRename { old_name: string_from_chars(&chars_of(old_name)), new_name: value };
    }
    let old_path = if pane == SftpPane::Local {
        entry_path_of(c.local_files.as_slice(), c.local_path.as_str(), old_name)
    } else {
        entry_path_of(c.remote_files.as_slice(), c.remote_path.as_str(), old_name)
    };
    let parent = remote_parent_path(old_path.as_str());
    let new_path = join_remote_path(parent.as_str(), value.as_str());
    DialogOperation::RemoteRename { pane, old_path, new_path, old_name: string_from_chars(&chars_of(old_name)), new_name: value }
}

/// Decides what accepting a dialog does (see `dialog_decision`).
pub fn accept_sftp_dialog(kind: &SftpDialogKind, input: &str, c: &DialogContext) -> (r: DialogDecision)
    ensures
        (r.operation@, r.close, r.clear_selection) == dialog_decision(*kind, input@, *c),
{
    let value = string_from_chars(&trim_ws(&chars_of(input)));
    let empty = value.as_str().is_empty();
    let operation = match kind {
        SftpDialogKind::Archive => DialogOperation::RunArchive,
        SftpDialogKind::Rename { pane, old_name } => if empty {
            DialogOperation::NoOperation
        } else {
            rename_of(c, *pane, old_name.as_str(), value)
        },
        SftpDialogKind::NewFolder { pane } => if empty {
            DialogOperation::NoOperation
        } else if *pane == SftpPane::Local && !c.paired_remote {
            DialogOperation::LocalCreateFolder { name: value }
        } else {
            let dir = if *pane == SftpPane::Local {
                c.local_path.as_str()
            } else {
                c.remote_path.as_str()
            };
            DialogOperation::RemoteCreateFolder { pane: *pane, path: join_remote_path(dir, value.as_str()), name: value }
        },
        SftpDialogKind::NewFile { pane } => if empty {
            DialogOperation::NoOperation
        } else if *pane == SftpPane::Local && !c.paired_remote {
            DialogOperation::LocalCreateFile { name: value }
        } else {
            let dir = if *pane == SftpPane::Local {
                c.local_path.as_str()
            } else {
                c.remote_path.as_str()
            };
            DialogOperation::RemoteCreateFile { pane: *pane, path: join_remote_path(dir, value.as_str()), name: value }
        },
        SftpDialogKind::Delete { pane, files } => {
            if *pane == SftpPane::Local && c.paired_remote {
                DialogOperation::PairedRemoteDelete { paths: listed_paths_of(c.local_files.as_slice(), files.as_slice()) }
            } else if *pane == SftpPane::Local {
                DialogOperation::LocalDelete { names: copy_strings(files) }
            } else if !c.remote_available {
                DialogOperation::NoOperation
            } else {
                DialogOperation::RemoteDelete { paths: listed_paths_of(c.remote_files.as_slice(), files.as_slice()) }
            }
        },
        SftpDialogKind::Conflict => DialogOperation::ResolveConflictByRename,
        SftpDialogKind::Other => DialogOperation::NoOperation,
    };
    let close = match kind {
        SftpDialogKind::Conflict => false,
        _ => true,
    };
    let clear_selection = match kind {
        SftpDialogKind::Delete { pane, .. } => if *pane == SftpPane::Local && !c.paired_remote {
            Some(SftpPane::Local)
        } else if *pane == SftpPane::Remote && c.remote_available {
            Some(SftpPane::Remote)
        } else {
            None
        },
        _ => None,
    };
    DialogDecision { operation, close, clear_selection }
}


/// The success and failure toast title keys of an operation's result.
pub open spec fn toast_keys(op: DialogOperationView) -> Option<(Seq<char>, Seq<char>)> {
    match op {
        DialogOperationView::RemoteRename(..) | DialogOperationView::LocalRename(..) => Some(
            ("sftp.toast.renamed"@, "sftp.toast.rename_failed"@),
        ),
        DialogOperationView::RemoteCreateFolder(..) | DialogOperationView::LocalCreateFolder(..) => Some(
            ("sftp.toast.folder_created"@, "sftp.toast.create_folder_failed"@),
        ),
        DialogOperationView::RemoteCreateFile(..) | DialogOperationView::LocalCreateFile(..) => Some(
            ("sftp.toast.file_created"@, "sftp.toast.create_file_failed"@),
        ),
        DialogOperationView::PairedRemoteDelete(..) | DialogOperationView::LocalDelete(..)
        | DialogOperationView::RemoteDelete(..) => Some(("sftp.toast.deleted"@, "sftp.toast.delete_failed"@)),
        _ => None,
    }
}

/// The success and failure toast title keys of an operation's result.
pub fn operation_toast_keys(op: &DialogOperation) -> (r: Option<(&'static str, &'static str)>)
    ensures
        match r {
            Some((a, b)) => toast_keys(op@) == Some((a@, b@)),
            None => toast_keys(op@) is None,
        },
{
    match op {
        DialogOperation::RemoteRename { .. } | DialogOperation::LocalRename { .. } => Some(
            ("sftp.toast.renamed", "sftp.toast.rename_failed"),
        ),
        DialogOperation::RemoteCreateFolder { .. } | DialogOperation::LocalCreateFolder { .. } => Some(
            ("sftp.toast.folder_created", "sftp.toast.create_folder_failed"),
        ),
        DialogOperation::RemoteCreateFile { .. } | DialogOperation::LocalCreateFile { .. } => Some(
            ("sftp.toast.file_created", "sftp.toast.create_file_failed"),
        ),
        DialogOperation::PairedRemoteDelete { .. } | DialogOperation::LocalDelete { .. }
        | DialogOperation::RemoteDelete { .. } => Some(("sftp.toast.deleted", "sftp.toast.delete_failed")),
        _ => None,
    }
}


/// Each dialog starts an operation of its own kind, on the side its pane
/// and pairing name, with the trimmed text as the new name:
/// - a new-file dialog only ever creates a file (locally on the plain local
///   pane, remotely inside the pane's directory otherwise), a new-folder
///   dialog only a folder, a rename dialog only a rename of its entry to the
///   new name beside it;
/// - any of the three does nothing when the text is blank;
/// - a delete dialog only deletes, an archive dialog only archives, and a
///   conflict dialog settles the conflict and stays open; every other
///   dialog closes.
pub proof fn lemma_dialog_operation_matches_dialog(kind: SftpDialogKind, input: Seq<char>, c: DialogContext)
    ensures
        ({
            let (op, close, clear) = dialog_decision(kind, input, c);
            let v = trim(input);
            match kind {
                SftpDialogKind::NewFile { pane } => {
                    &&& close && clear is None
                    &&& (v.len() == 0 <==> op is NoOperation)
                    &&& v.len() > 0 && pane == SftpPane::Local && !c.paired_remote ==> op
                        == DialogOperationView::LocalCreateFile(v)
                    &&& v.len() > 0 && (pane == SftpPane::Remote || c.paired_remote) ==> op
                        == DialogOperationView::RemoteCreateFile(
                        pane,
                        joined_remote_path(
                            if pane == SftpPane::Local {
                                c.local_path@
                            } else {
                                c.remote_path@
                            },
                            v,
                        ),
                        v,
                    )
                },
                SftpDialogKind::NewFolder { pane } => {
                    &&& close && clear is None
                    &&& (v.len() == 0 <==> op is NoOperation)
                    &&& v.len() > 0 && pane == SftpPane::Local && !c.paired_remote ==> op
                        == DialogOperationView::LocalCreateFolder(v)
                    &&& v.len() > 0 && (pane == SftpPane::Remote || c.paired_remote) ==> op
                        == DialogOperationView::RemoteCreateFolder(
                        pane,
                        joined_remote_path(
                            if pane == SftpPane::Local {
                                c.local_path@
                            } else {
                                c.remote_path@
                            },
                            v,
                        ),
                        v,
                    )
                },
                SftpDialogKind::Rename { pane, old_name } => {
                    &&& close && clear is None
                    &&& (v.len() == 0 <==> op is NoOperation)
                    &&& v.len() > 0 && pane == SftpPane::Local && !c.paired_remote ==> op
                        == DialogOperationView::LocalRename(old_name@, v)
                    &&& v.len() > 0 && (pane == SftpPane::Remote || c.paired_remote) ==> (op matches DialogOperationView::RemoteRename(
                        p,
                        from,
                        to,
                        o,
                        n,
                    ) && p == pane && o == old_name@ && n == v && to == joined_remote_path(remote_parent(from), v)
                        && from == (if pane == SftpPane::Local {
                        entry_path(listed_views(c.local_files@), c.local_path@, old_name@)
                    } else {
                        entry_path(listed_views(c.remote_files@), c.remote_path@, old_name@)
                    }))
                },
                SftpDialogKind::Delete { pane, files } => {
                    &&& close
                    &&& pane == SftpPane::Local && !c.paired_remote ==> op == DialogOperationView::LocalDelete(
                        string_views(files@),
                    ) && clear == Some(SftpPane::Local)
                    &&& pane == SftpPane::Local && c.paired_remote ==> op == DialogOperationView::PairedRemoteDelete(
                        listed_paths(listed_views(c.local_files@), string_views(files@)),
                    ) && clear is None
                    &&& pane == SftpPane::Remote ==> (if c.remote_available {
                        op == DialogOperationView::RemoteDelete(
                            listed_paths(listed_views(c.remote_files@), string_views(files@)),
                        ) && clear == Some(SftpPane::Remote)
                    } else {
                        op is NoOperation && clear is None
                    })
                },
                SftpDialogKind::Archive => op is RunArchive && close && clear is None,
                SftpDialogKind::Conflict => op is ResolveConflictByRename && !close && clear is None,
                SftpDialogKind::Other => op is NoOperation && close && clear is None,
            }
        }),
{
}


/// The path listed for a name belongs to an entry with that name.
proof fn lemma_listed_path_entry(files: Seq<(Seq<char>, Seq<char>)>, name: Seq<char>)
    ensures
        listed_path(files, name) matches Some(p) ==> exists|k: int|
            0 <= k < files.len() && #[trigger] files[k] == (name, p),
        listed_path(files, name) is None ==> forall|k: int| 0 <= k < files.len() ==> (#[trigger] files[k]).0 != name,
    decreases files.len(),
{
    if files.len() > 0 {
        lemma_listed_path_entry(files.drop_first(), name);
        if files[0].0 == name {
            assert(files[0] == (name, files[0].1));
        } else if let Some(p) = listed_path(files.drop_first(), name) {
            let k = choose|k: int| 0 <= k < files.drop_first().len() && #[trigger] files.drop_first()[k] == (name, p);
            assert(files[k + 1] == (name, p));
        } else {
            assert forall|k: int| 0 <= k < files.len() implies (#[trigger] files[k]).0 != name by {
                if k > 0 {
                    assert(files[k] == files.drop_first()[k - 1]);
                }
            }
        }
    }
}

/// The paths deleted for a selection are the listed paths of selected
/// names: each belongs to a listed entry whose name is selected, there are
/// no more of them than names, and every selected name that is listed has
/// its path among them.
pub proof fn lemma_listed_paths_are_selected_entries(files: Seq<(Seq<char>, Seq<char>)>, names: Seq<Seq<char>>)
    ensures
        listed_paths(files, names).len() <= names.len(),
        forall|q: int| #![trigger listed_paths(files, names)[q]] 0 <= q < listed_paths(files, names).len() ==> exists|a: int, k: int|
            #![trigger files[k], names[a]]
            0 <= a < names.len() && 0 <= k < files.len() && files[k].0 == names[a] && files[k].1
                == listed_paths(files, names)[q],
        forall|a: int| 0 <= a < names.len() ==> (#[trigger] listed_path(files, names[a]) matches Some(p)
            ==> listed_paths(files, names).contains(p)),
    decreases names.len(),
{
    if names.len() > 0 {
        let init = names.drop_last();
        lemma_listed_paths_are_selected_entries(files, init);
        lemma_listed_path_entry(files, names.last());
        let rest = listed_paths(files, init);
        let all = listed_paths(files, names);
        assert forall|q: int| #![trigger all[q]] 0 <= q < all.len() implies exists|a: int, k: int|
            #![trigger files[k], names[a]]
            0 <= a < names.len() && 0 <= k < files.len() && files[k].0 == names[a] && files[k].1
                == all[q] by {
            if q < rest.len() {
                assert(all[q] == rest[q]);
                let (a, k) = choose|a: int, k: int|
                    #![trigger files[k], init[a]]
                    0 <= a < init.len() && 0 <= k < files.len() && files[k].0 == init[a] && files[k].1
                        == rest[q];
                assert(init[a] == names[a]);
                assert(files[k].1 == all[q]);
            } else {
                let p = listed_path(files, names.last())->0;
                let k = choose|k: int| 0 <= k < files.len() && #[trigger] files[k] == (names.last(), p);
                assert(files[k].0 == names[names.len() - 1]);
                assert(files[k].1 == all[q]);
            }
        }
        assert forall|a: int| 0 <= a < names.len() implies (#[trigger] listed_path(files, names[a]) matches Some(p)
            ==> all.contains(p)) by {
            if let Some(p) = listed_path(files, names[a]) {
                if a < init.len() {
                    assert(init[a] == names[a]);
                    assert(listed_path(files, init[a]) == Some(p));
                    let j = choose|j: int| 0 <= j < rest.len() && rest[j] == p;
                    assert(all[j] == p);
                } else {
                    assert(all[all.len() - 1] == p);
                }
            }
        }
    }
}


/// The directory holding a remote path is the text before its last `/`
/// (the root when that `/` leads the path, `.` when there is none): an
/// entry named after the last `/` and joined back to that directory gives
/// the path again, when the directory is not the root and does not end
/// with `/`.
pub proof fn lemma_remote_parent_is_before_last_slash(path: Seq<char>)
    ensures
        !path.contains('/') ==> remote_parent(path) == seq!['.'],
        path.contains('/') ==> exists|i: int|
            0 <= i < path.len() && #[trigger] path[i] == '/' && (forall|j: int| i < j < path.len() ==> path[j] != '/')
                && remote_parent(path) == if i == 0 {
                seq!['/']
            } else {
                path.take(i)
            },
        path.contains('/') && remote_parent(path) != seq!['/'] && remote_parent(path).len() > 0
            && remote_parent(path).last() != '/' ==> joined_remote_path(
            remote_parent(path),
            path.skip((remote_parent(path).len() + 1) as int),
        ) == path,
{
    reveal(last_index_of);
    if path.contains('/') {
        let k = choose|k: int| 0 <= k < path.len() && path[k] == '/';
        lemma_latest_slash(path, k);
        let i = last_index_of(path, '/')->0;
        assert(0 <= i < path.len() && path[i] == '/' && forall|j: int| i < j < path.len() ==> path[j] != '/');
        if i > 0 {
            let p = path.take(i);
            assert(remote_parent(path) == p);
            if p.len() > 0 && p.last() != '/' {
                assert(path =~= p + seq!['/'] + path.skip(i + 1));
            }
        }
    }
}

/// A `/` has a last `/` at or after it.
proof fn lemma_latest_slash(path: Seq<char>, k: int)
    requires
        0 <= k < path.len(),
        path[k] == '/',
    ensures
        exists|i: int| 0 <= i < path.len() && path[i] == '/' && forall|j: int| i < j < path.len() ==> path[j] != '/',
    decreases path.len() - k,
{
    if exists|j: int| k < j < path.len() && path[j] == '/' {
        let j = choose|j: int| k < j < path.len() && path[j] == '/';
        lemma_latest_slash(path, j);
    } else {
        assert(0 <= k < path.len() && path[k] == '/' && forall|j: int| k < j < path.len() ==> path[j] != '/');
    }
}

}

use oxideterm::sftp::dialog::{
    accept_sftp_dialog, operation_toast_keys, remote_parent_path, DialogContext, DialogOperation, ListedFile,
    SftpDialogKind, SftpPane,
};

fn listed(name: &str, path: &str) -> ListedFile {
    ListedFile { name: name.to_string(), path: path.to_string() }
}

fn context(paired_remote: bool, remote_available: bool) -> DialogContext {
    DialogContext {
        local_path: "/home/me".to_string(),
        remote_path: "/srv/data/".to_string(),
        local_files: vec![listed("notes.txt", "/home/me/notes.txt")],
        remote_files: vec![listed("a", "/srv/data/a"), listed("b", "/srv/data/b")],
        paired_remote,
        remote_available,
    }
}

#[test]
fn renaming_remote_entries_keeps_them_in_their_directory() {
    let kind = SftpDialogKind::Rename { pane: SftpPane::Remote, old_name: "a".to_string() };
    let d = accept_sftp_dialog(&kind, "  renamed  ", &context(false, true));
    assert!(d.close);
    match d.operation {
        DialogOperation::RemoteRename { pane, old_path, new_path, old_name, new_name } => {
            assert_eq!(pane, SftpPane::Remote);
            assert_eq!(old_path, "/srv/data/a");
            assert_eq!(new_path, "/srv/data/renamed");
            assert_eq!(old_name, "a");
            assert_eq!(new_name, "renamed");
        }
        _ => panic!("expected a remote rename"),
    }
    let kind = SftpDialogKind::Rename { pane: SftpPane::Remote, old_name: "zzz".to_string() };
    match accept_sftp_dialog(&kind, "y", &context(false, true)).operation {
        DialogOperation::RemoteRename { old_path, new_path, .. } => {
            assert_eq!(old_path, "/srv/data/zzz");
            assert_eq!(new_path, "/srv/data/y");
        }
        _ => panic!("expected a remote rename"),
    }
}

#[test]
fn local_pane_works_remotely_when_paired() {
    let kind = SftpDialogKind::Rename { pane: SftpPane::Local, old_name: "notes.txt".to_string() };
    match accept_sftp_dialog(&kind, "todo.txt", &context(true, true)).operation {
        DialogOperation::RemoteRename { pane, old_path, new_path, .. } => {
            assert_eq!(pane, SftpPane::Local);
            assert_eq!(old_path, "/home/me/notes.txt");
            assert_eq!(new_path, "/home/me/todo.txt");
        }
        _ => panic!("expected a paired remote rename"),
    }
    match accept_sftp_dialog(&kind, "todo.txt", &context(false, true)).operation {
        DialogOperation::LocalRename { old_name, new_name } => {
            assert_eq!((old_name.as_str(), new_name.as_str()), ("notes.txt", "todo.txt"));
        }
        _ => panic!("expected a local rename"),
    }
    let folder = SftpDialogKind::NewFolder { pane: SftpPane::Local };
    match accept_sftp_dialog(&folder, " docs ", &context(true, true)).operation {
        DialogOperation::RemoteCreateFolder { pane, path, name } => {
            assert_eq!(pane, SftpPane::Local);
            assert_eq!(path, "/home/me/docs");
            assert_eq!(name, "docs");
        }
        _ => panic!("expected a paired remote folder"),
    }
    let file = SftpDialogKind::NewFile { pane: SftpPane::Remote };
    match accept_sftp_dialog(&file, "x.txt", &context(false, true)).operation {
        DialogOperation::RemoteCreateFile { path, .. } => assert_eq!(path, "/srv/data/x.txt"),
        _ => panic!("expected a remote file"),
    }
    assert!(matches!(
        accept_sftp_dialog(&file, "   ", &context(false, true)).operation,
        DialogOperation::NoOperation
    ));
}

#[test]
fn deleting_uses_listed_paths_and_clears_the_selection() {
    let names = vec!["b".to_string(), "missing".to_string(), "a".to_string()];
    let kind = SftpDialogKind::Delete { pane: SftpPane::Remote, files: names };
    let d = accept_sftp_dialog(&kind, "", &context(false, true));
    assert_eq!(d.clear_selection, Some(SftpPane::Remote));
    match d.operation {
        DialogOperation::RemoteDelete { paths } => assert_eq!(paths, vec!["/srv/data/b", "/srv/data/a"]),
        _ => panic!("expected a remote delete"),
    }
    let d = accept_sftp_dialog(&kind, "", &context(false, false));
    assert!(matches!(d.operation, DialogOperation::NoOperation));
    assert_eq!(d.clear_selection, None);
    assert!(d.close);
    let local = SftpDialogKind::Delete { pane: SftpPane::Local, files: vec!["notes.txt".to_string()] };
    let d = accept_sftp_dialog(&local, "", &context(false, true));
    assert_eq!(d.clear_selection, Some(SftpPane::Local));
    assert!(matches!(d.operation, DialogOperation::LocalDelete { ref names } if names == &vec!["notes.txt".to_string()]));
    let d = accept_sftp_dialog(&local, "", &context(true, true));
    assert_eq!(d.clear_selection, None);
    assert!(matches!(d.operation, DialogOperation::PairedRemoteDelete { ref paths } if paths == &vec!["/home/me/notes.txt".to_string()]));
}

#[test]
fn conflicts_keep_the_dialog_and_parents_of_remote_paths() {
    let d = accept_sftp_dialog(&SftpDialogKind::Conflict, "", &context(false, true));
    assert!(!d.close);
    assert!(matches!(d.operation, DialogOperation::ResolveConflictByRename));
    let d = accept_sftp_dialog(&SftpDialogKind::Archive, "", &context(false, true));
    assert!(d.close);
    assert!(matches!(d.operation, DialogOperation::RunArchive));
    assert_eq!(remote_parent_path("/srv/data/a"), "/srv/data");
    assert_eq!(remote_parent_path("/a"), "/");
    assert_eq!(remote_parent_path("a"), ".");
}

#[test]
fn each_operation_has_its_toast_titles() {
    let rename = DialogOperation::LocalRename { old_name: "a".to_string(), new_name: "b".to_string() };
    assert_eq!(operation_toast_keys(&rename), Some(("sftp.toast.renamed", "sftp.toast.rename_failed")));
    let folder = DialogOperation::LocalCreateFolder { name: "d".to_string() };
    assert_eq!(operation_toast_keys(&folder), Some(("sftp.toast.folder_created", "sftp.toast.create_folder_failed")));
    let file = DialogOperation::LocalCreateFile { name: "f".to_string() };
    assert_eq!(operation_toast_keys(&file), Some(("sftp.toast.file_created", "sftp.toast.create_file_failed")));
    let delete = DialogOperation::RemoteDelete { paths: Vec::new() };
    assert_eq!(operation_toast_keys(&delete), Some(("sftp.toast.deleted", "sftp.toast.delete_failed")));
    assert_eq!(operation_toast_keys(&DialogOperation::RunArchive), None);
}

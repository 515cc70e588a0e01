use oxideterm::remote_paste::{
    begin_remote_paste, clipboard_matches_destination, copy_command_succeeded,
    paste_refusal_keys, paste_title_keys, ClipboardEntry, ClipboardOperation, DestinationCheck,
    PastePhase, PasteStart, PasteStep, RemoteClipboard, RemotePaste,
};

fn entry(name: &str, path: &str, is_directory: bool) -> ClipboardEntry {
    ClipboardEntry { name: name.to_string(), path: path.to_string(), is_directory }
}

#[test]
fn copy_checks_each_destination_before_copying() {
    let entries = vec![entry("a b", "/src/a b", false), entry("tree", "/src/tree", true)];
    let (mut paste, step) = RemotePaste::start(ClipboardOperation::Copy, entries, "/dst".to_string());
    assert!(matches!(&step, PasteStep::CheckDestination(p) if p == "/dst/a b"));
    assert_eq!(paste.progress(), (0, 2));
    let step = paste.on_destination_checked(DestinationCheck::Missing);
    assert!(matches!(&step, PasteStep::RunCopy(c) if c == "cp -a -- '/src/a b' '/dst/a b'"));
    let step = paste.on_transfer_finished(true);
    assert!(matches!(&step, PasteStep::CheckDestination(p) if p == "/dst/tree"));
    assert_eq!(paste.progress(), (1, 2));
    let step = paste.on_destination_checked(DestinationCheck::Missing);
    assert!(matches!(&step, PasteStep::RunCopy(c) if c == "cp -a -- '/src/tree' '/dst/tree'"));
    assert!(matches!(paste.on_transfer_finished(true), PasteStep::Finished));
    assert_eq!(paste.phase(), PastePhase::Finished);
    assert_eq!(paste.progress(), (2, 2));
}

#[test]
fn cut_renames_and_existing_destinations_stop_the_paste() {
    let entries = vec![entry("f", "/src/f", false), entry("g", "/src/g", false)];
    let (mut paste, _) = RemotePaste::start(ClipboardOperation::Cut, entries, "/dst/".to_string());
    let step = paste.on_destination_checked(DestinationCheck::Missing);
    assert!(matches!(&step, PasteStep::Rename(a, b) if a == "/src/f" && b == "/dst/f"));
    paste.on_transfer_finished(true);
    assert!(matches!(paste.on_destination_checked(DestinationCheck::Exists), PasteStep::Failed));
    assert_eq!(paste.phase(), PastePhase::Failed);
    assert_eq!(paste.progress(), (1, 2));
}

#[test]
fn pasting_a_directory_into_itself_or_an_empty_clipboard() {
    let (mut paste, _) =
        RemotePaste::start(ClipboardOperation::Copy, vec![entry("tree", "/src/tree", true)], "/src/tree".to_string());
    assert!(matches!(paste.on_destination_checked(DestinationCheck::Missing), PasteStep::Failed));
    let (paste, step) = RemotePaste::start(ClipboardOperation::Copy, Vec::new(), "/dst".to_string());
    assert!(matches!(step, PasteStep::Finished));
    assert_eq!(paste.progress(), (0, 1));
    let (mut paste, _) =
        RemotePaste::start(ClipboardOperation::Copy, vec![entry("f", "/src/f", false)], "/dst".to_string());
    paste.on_destination_checked(DestinationCheck::Failed);
    assert_eq!(paste.phase(), PastePhase::Failed);
}

#[test]
fn paste_preconditions_and_titles() {
    assert!(clipboard_matches_destination("remote-1", "remote-1"));
    assert!(!clipboard_matches_destination("remote-1", "remote-2"));
    assert!(copy_command_succeeded(Some(0)));
    assert!(!copy_command_succeeded(Some(1)));
    assert!(!copy_command_succeeded(None));
    assert_eq!(paste_title_keys(ClipboardOperation::Cut), ("sftp.toast.moving", "sftp.toast.move_complete"));
    assert_eq!(paste_title_keys(ClipboardOperation::Copy), ("sftp.toast.copying", "sftp.toast.copy_complete"));
}

fn clipboard(remote_id: &str, operation: ClipboardOperation) -> RemoteClipboard {
    RemoteClipboard {
        remote_id: remote_id.to_string(),
        operation,
        entries: vec![entry("f", "/src/f", false), entry("g", "/src/g", false)],
    }
}

#[test]
fn a_cut_clipboard_is_consumed_when_the_paste_starts() {
    let (rest, start) = begin_remote_paste(
        Some(clipboard("remote-1", ClipboardOperation::Cut)),
        Some("remote-1"),
        true,
        "/dst".to_string(),
    );
    assert!(rest.is_none());
    match start {
        PasteStart::Started(paste, step) => {
            assert!(matches!(&step, PasteStep::CheckDestination(p) if p == "/dst/f"));
            assert_eq!(paste.progress(), (0, 2));
            assert_eq!(paste.phase(), PastePhase::Checking);
        }
        _ => panic!("the paste should start"),
    }
}

#[test]
fn a_copied_clipboard_stays_after_the_paste_starts() {
    let (rest, start) = begin_remote_paste(
        Some(clipboard("remote-1", ClipboardOperation::Copy)),
        Some("remote-1"),
        true,
        "/dst".to_string(),
    );
    let rest = rest.expect("a copied clipboard stays");
    assert_eq!(rest.remote_id, "remote-1");
    assert_eq!(rest.entries.len(), 2);
    assert_eq!(rest.entries[1].path, "/src/g");
    match start {
        PasteStart::Started(mut paste, _) => {
            let step = paste.on_destination_checked(DestinationCheck::Missing);
            assert!(matches!(&step, PasteStep::RunCopy(c) if c == "cp -a -- '/src/f' '/dst/f'"));
        }
        _ => panic!("the paste should start"),
    }
}

#[test]
fn a_clipboard_from_another_host_is_refused_and_kept() {
    let (rest, start) = begin_remote_paste(
        Some(clipboard("remote-1", ClipboardOperation::Cut)),
        Some("remote-2"),
        true,
        "/dst".to_string(),
    );
    assert!(matches!(start, PasteStart::DifferentHost));
    let rest = rest.expect("the clipboard is kept");
    assert_eq!(rest.remote_id, "remote-1");
    assert_eq!(rest.operation, ClipboardOperation::Cut);
    assert_eq!(paste_refusal_keys(), ("sftp.toast.paste_failed", "sftp.toast.paste_different_host"));
}

#[test]
fn nothing_happens_without_a_connection_clipboard_or_backend() {
    let (rest, start) = begin_remote_paste(
        Some(clipboard("remote-1", ClipboardOperation::Cut)),
        None,
        true,
        "/dst".to_string(),
    );
    assert!(matches!(start, PasteStart::Nothing));
    assert!(rest.is_some());
    let (rest, start) = begin_remote_paste(None, Some("remote-1"), true, "/dst".to_string());
    assert!(matches!(start, PasteStart::Nothing));
    assert!(rest.is_none());
    let (rest, start) = begin_remote_paste(
        Some(clipboard("remote-1", ClipboardOperation::Cut)),
        Some("remote-1"),
        false,
        "/dst".to_string(),
    );
    assert!(matches!(start, PasteStart::NoBackend));
    assert!(rest.is_some());
}

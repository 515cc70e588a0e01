use oxideterm::sftp::types::SftpError;
use oxideterm::sftp::write_plan::{
    content_write_after_atomic, content_write_after_direct, content_write_start, ConfigAction,
    ConfigPhase, ConfigReplace, ContentWriteStep,
};

#[test]
fn content_writes_fall_back_to_direct_overwrite_only_when_recoverable() {
    assert!(matches!(
        content_write_start("/f".to_string(), "/f.oxswp".to_string()),
        ContentWriteStep::WriteAtomic { ref target, ref swap } if target == "/f" && swap == "/f.oxswp"
    ));
    assert!(matches!(content_write_after_atomic("/f".to_string(), Ok(())), ContentWriteStep::Saved(true)));
    assert!(matches!(
        content_write_after_atomic("/f".to_string(), Err(SftpError::PermissionDenied("no".to_string()))),
        ContentWriteStep::WriteDirect { ref target } if target == "/f"
    ));
    assert!(matches!(
        content_write_after_atomic("/f".to_string(), Err(SftpError::WriteError("Atomic rename failed: x".to_string()))),
        ContentWriteStep::WriteDirect { .. }
    ));
    assert!(matches!(
        content_write_after_atomic("/f".to_string(), Err(SftpError::ChannelError("closed".to_string()))),
        ContentWriteStep::Failed(SftpError::ChannelError(ref m)) if m == "closed"
    ));
    assert!(matches!(content_write_after_direct(Ok(())), ContentWriteStep::Saved(false)));
    assert!(matches!(
        content_write_after_direct(Err(SftpError::WriteError("disk".to_string()))),
        ContentWriteStep::Failed(_)
    ));
}

#[test]
fn existing_config_is_backed_up_replaced_and_the_backup_removed() {
    let (mut r, action) = ConfigReplace::start("/etc/app.conf", "abc", true);
    assert!(matches!(action, ConfigAction::WriteFile { ref path } if path == "/etc/app.conf.oxideterm-abc.tmp"));
    assert!(matches!(r.on_written(Ok(())), ConfigAction::ReadBack { ref path } if path == "/etc/app.conf.oxideterm-abc.tmp"));
    assert!(matches!(r.on_verified(Ok(true)), ConfigAction::CopyMetadata { .. }));
    assert!(matches!(
        r.on_metadata_copied(Ok(())),
        ConfigAction::Rename { ref from, ref to } if from == "/etc/app.conf" && to == "/etc/app.conf.oxideterm-abc.bak"
    ));
    assert!(matches!(
        r.on_backed_up(Ok(())),
        ConfigAction::Rename { ref from, ref to } if from == "/etc/app.conf.oxideterm-abc.tmp" && to == "/etc/app.conf"
    ));
    assert!(matches!(
        r.on_replaced(Ok(())),
        ConfigAction::RemoveThenSucceed { ref path } if path == "/etc/app.conf.oxideterm-abc.bak"
    ));
    assert_eq!(r.phase(), ConfigPhase::Finished);
}

#[test]
fn failed_replacement_rolls_back_and_reports_where_the_original_is() {
    let (mut r, _) = ConfigReplace::start("/c", "s", true);
    r.on_written(Ok(()));
    r.on_verified(Ok(true));
    r.on_metadata_copied(Ok(()));
    r.on_backed_up(Ok(()));
    assert!(matches!(
        r.on_replaced(Err("busy".to_string())),
        ConfigAction::Rename { ref from, ref to } if from == "/c.oxideterm-s.bak" && to == "/c"
    ));
    assert_eq!(r.phase(), ConfigPhase::RestoringBackup);
    match r.on_restored(Err("gone".to_string())) {
        ConfigAction::RemoveThenFail { path, error: SftpError::WriteError(m) } => {
            assert_eq!(path, "/c.oxideterm-s.tmp");
            assert_eq!(m, "Failed to replace /c: busy; rollback failed: gone. The original file remains at /c.oxideterm-s.bak");
        }
        _ => panic!("expected a failure"),
    }
}

#[test]
fn new_config_files_and_bad_copies() {
    let (mut r, _) = ConfigReplace::start("/n", "s", false);
    r.on_written(Ok(()));
    assert!(matches!(r.on_verified(Ok(true)), ConfigAction::Rename { ref from, ref to } if from == "/n.oxideterm-s.tmp" && to == "/n"));
    assert!(matches!(r.on_replaced(Ok(())), ConfigAction::Succeed));

    let (mut r, _) = ConfigReplace::start("/n", "s", false);
    r.on_written(Ok(()));
    r.on_verified(Ok(true));
    match r.on_replaced(Err("denied".to_string())) {
        ConfigAction::RemoveThenFail { error: SftpError::WriteError(m), .. } => assert_eq!(m, "Failed to replace /n: denied"),
        _ => panic!("expected a failure"),
    }

    let (mut r, _) = ConfigReplace::start("/n", "s", true);
    r.on_written(Ok(()));
    match r.on_verified(Ok(false)) {
        ConfigAction::RemoveThenFail { path, error: SftpError::WriteError(m) } => {
            assert_eq!(path, "/n.oxideterm-s.tmp");
            assert_eq!(m, "Remote configuration verification failed for /n");
        }
        _ => panic!("expected a failure"),
    }
    let (mut r, _) = ConfigReplace::start("/n", "s", true);
    r.on_written(Ok(()));
    r.on_verified(Ok(true));
    match r.on_metadata_copied(Err("eperm".to_string())) {
        ConfigAction::RemoveThenFail { error: SftpError::WriteError(m), .. } => {
            assert_eq!(m, "Failed to preserve metadata for /n: eperm")
        }
        _ => panic!("expected a failure"),
    }
    let (mut r, _) = ConfigReplace::start("/n", "s", true);
    assert!(matches!(r.on_written(Err(SftpError::WriteError("x".to_string()))), ConfigAction::Fail(_)));
}

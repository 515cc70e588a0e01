use oxideterm::sftp::shell_listing::{ls_line_cuts_mode_column, shell_listing_parses};
use oxideterm::sftp::archive::{archive_kind, archive_tools, plan_archive_creation, ArchiveKind};
use oxideterm::sftp::paths::{
    is_absolute_remote_path, join_remote_path, normalize_remote_path, shell_quote,
    validate_remote_entry_name,
};
use oxideterm::sftp::remote_ops::{plan_remote_copy_command, RemoteCopyPlanError};
use oxideterm::sftp::session::{
    config_replace_failure, config_replacement_paths, permissions_text, read_range_limit,
    write_failure_is_recoverable, ListingCapture, ListingEvent,
    accept_initial_cwd, append_listing_output, initial_cwd_candidates, initial_cwd_fallback,
    list_entry_action, listing_output_result, sftp_server_fallback_commands, ListEntryAction,
    SftpSession,
};
use oxideterm::sftp::shell_listing::{
    error_is_sftp_protocol_unavailable, parse_busybox_ls_long_line, parse_shell_listing,
    shell_listing_command, unix_mode_from_ls_perms, SHELL_LIST_MAX_OUTPUT_BYTES,
};
use oxideterm::sftp::types::{FileType, SftpError};

#[test]
fn archive_creation_quotes_sources_and_rejects_self_inclusion() {
    let (_, command) = plan_archive_creation(
        "/tmp/a'b",
        &["-flag; touch injected".into()],
        "/tmp/result.zip",
    )
    .unwrap();
    assert!(command.contains("'./-flag; touch injected'"));
    assert!(command.contains("'/tmp/a'\\''b'"));
    assert!(plan_archive_creation("/tmp", &["source".into()], "/tmp/source/out.tar").is_err());
    assert!(plan_archive_creation("/tmp", &["../source".into()], "/tmp/out.zip").is_err());
    assert!(plan_archive_creation("/tmp", &["source".into()], "/tmp/out.rar").is_err());
}

#[test]
fn missing_tools_are_checked_per_format() {
    assert_eq!(archive_tools(ArchiveKind::Zip, true), &["unzip"]);
    assert_eq!(archive_tools(ArchiveKind::Zip, false), &["zip"]);
    assert_eq!(archive_kind("DATA.7Z"), Some(ArchiveKind::SevenZip));
    assert_eq!(archive_kind("DATA.RAR"), Some(ArchiveKind::Rar));
}

#[test]
fn archive_kinds_follow_the_extension() {
    assert_eq!(archive_kind("a.tar.gz"), Some(ArchiveKind::TarGzip));
    assert_eq!(archive_kind("a.TGZ"), Some(ArchiveKind::TarGzip));
    assert_eq!(archive_kind("a.tbz"), Some(ArchiveKind::TarBzip2));
    assert_eq!(archive_kind("a.tar.xz"), Some(ArchiveKind::TarXz));
    assert_eq!(archive_kind("a.tzst"), Some(ArchiveKind::TarZstd));
    assert_eq!(archive_kind("a.tar"), Some(ArchiveKind::Tar));
    assert_eq!(archive_kind("a.zip"), Some(ArchiveKind::Zip));
    assert_eq!(archive_kind("a.txt"), None);
    assert_eq!(archive_kind("tar"), None);
}

#[test]
fn remote_copy_quotes_paths_as_shell_data() {
    let command = plan_remote_copy_command("/srv/a file's.txt", "/srv/dest/a file's.txt", false)
        .expect("different file paths can be copied");

    assert_eq!(
        command,
        "cp -a -- '/srv/a file'\\''s.txt' '/srv/dest/a file'\\''s.txt'"
    );
}

#[test]
fn remote_copy_rejects_copying_directory_into_itself() {
    assert_eq!(
        plan_remote_copy_command("/srv/tree", "/srv/tree/child/tree", true),
        Err(RemoteCopyPlanError::DirectoryIntoItself)
    );
}

#[test]
fn remote_copy_rejects_same_path_after_normalization() {
    assert_eq!(
        plan_remote_copy_command("srv/file", "/srv/file", false),
        Err(RemoteCopyPlanError::SamePath)
    );
}

#[test]
fn remote_copy_allows_siblings_and_files_under_prefixes() {
    assert_eq!(
        plan_remote_copy_command("/srv/tree", "/srv/tree2", true),
        Ok("cp -a -- '/srv/tree' '/srv/tree2'".to_string())
    );
    assert!(plan_remote_copy_command("/srv/file", "/srv/file/x", false).is_ok());
    assert_eq!(
        RemoteCopyPlanError::SamePath.message(),
        "source and destination are the same path"
    );
    assert_eq!(
        RemoteCopyPlanError::DirectoryIntoItself.message(),
        "a directory cannot be copied into itself"
    );
}

#[test]
fn remote_paths_are_quoted_joined_and_normalized() {
    assert_eq!(shell_quote("it's"), "'it'\\''s'");
    assert_eq!(shell_quote(""), "''");
    assert_eq!(join_remote_path("/srv", "a"), "/srv/a");
    assert_eq!(join_remote_path("/srv/", "a"), "/srv/a");
    assert!(is_absolute_remote_path("/etc"));
    assert!(!is_absolute_remote_path("etc"));
    assert_eq!(normalize_remote_path("a/./b/../c//"), "/a/c");
    assert_eq!(normalize_remote_path("/../.."), "/");
    assert!(validate_remote_entry_name("report.txt").is_ok());
    assert!(validate_remote_entry_name("a/b").is_err());
    assert!(validate_remote_entry_name("..").is_err());
}

#[test]
fn backslash_named_entry_is_skipped_but_never_aborts_the_listing() {
    assert!(matches!(
        list_entry_action(r"C:\Program Files\Brave-Browser\Application", false),
        ListEntryAction::SkipInvalid
    ));
    assert!(matches!(
        list_entry_action("normal-folder", false),
        ListEntryAction::Keep
    ));
}

#[test]
fn hidden_entries_follow_the_show_hidden_filter() {
    assert!(matches!(
        list_entry_action(".codex", false),
        ListEntryAction::SkipHidden
    ));
    assert!(matches!(
        list_entry_action(".codex", true),
        ListEntryAction::Keep
    ));
}

#[test]
fn dot_entries_are_never_shown() {
    assert!(matches!(
        list_entry_action(".", true),
        ListEntryAction::SkipDot
    ));
    assert!(matches!(
        list_entry_action("..", true),
        ListEntryAction::SkipDot
    ));
}

#[test]
fn sftp_server_fallback_commands_cover_openwrt_and_openssh_paths() {
    let commands = sftp_server_fallback_commands();
    assert!(commands.contains(&"/usr/libexec/sftp-server"));
    assert!(commands.contains(&"sftp-server"));
    assert!(
        commands
            .iter()
            .all(|command| !command.contains(' ') && !command.contains(';'))
    );
}

#[test]
fn session_home_survives_cwd_changes() {
    let mut session = SftpSession::from_initial_cwd("s1".to_string(), "/home/me".to_string());
    assert_eq!(session.session_id(), "s1");
    assert_eq!(session.home(), "/home/me");
    session.set_cwd("/tmp".to_string());
    assert_eq!(session.cwd(), "/tmp");
    assert_eq!(session.home(), "/home/me");
    assert_eq!(initial_cwd_candidates(), &[".", "", "/"]);
    assert_eq!(accept_initial_cwd("  /root \n"), Some("/root".to_string()));
    assert_eq!(accept_initial_cwd("   "), None);
    assert_eq!(initial_cwd_fallback(), "/");
}

#[test]
fn listing_output_is_capped_and_results_are_classified() {
    let mut output = Vec::new();
    assert!(!append_listing_output(&mut output, b"abc"));
    assert_eq!(output, b"abc");
    let big = vec![b'x'; SHELL_LIST_MAX_OUTPUT_BYTES];
    assert!(append_listing_output(&mut output, &big));
    assert_eq!(output.len(), SHELL_LIST_MAX_OUTPUT_BYTES);

    assert_eq!(
        listing_output_result(false, Some(0), "/root\n".as_bytes().to_vec()).unwrap(),
        "/root\n"
    );
    assert_eq!(listing_output_result(false, None, "é".as_bytes().to_vec()).unwrap(), "é");
    assert!(matches!(
        listing_output_result(true, Some(0), Vec::new()),
        Err(SftpError::ChannelError(m)) if m == "Remote directory listing timed out"
    ));
    assert!(matches!(
        listing_output_result(false, Some(2), Vec::new()),
        Err(SftpError::DirectoryNotFound(m)) if m == "Remote directory could not be opened"
    ));
    assert!(matches!(
        listing_output_result(false, Some(127), Vec::new()),
        Err(SftpError::ChannelError(m)) if m == "Remote directory listing exited with status 127"
    ));
    assert!(matches!(
        listing_output_result(false, Some(0), vec![0xff, 0xfe]),
        Err(SftpError::ProtocolError(m)) if m == "Remote directory listing was not valid UTF-8"
    ));
}

#[test]
fn classifies_openwrt_busybox_listing_lines() {
    let cwd = "/root";
    let directory = parse_busybox_ls_long_line(
        "drwxr-xr-x    2 root     root          4096 Jan  1  1970 overlay",
        cwd,
    )
    .expect("directory");
    assert_eq!(directory.name, "overlay");
    assert_eq!(directory.file_type, FileType::Directory);
    assert_eq!(directory.permissions, "755");

    let file = parse_busybox_ls_long_line(
        "-rw-r--r--    1 root     root           481 Jan  1 00:00 passwd",
        cwd,
    )
    .expect("file");
    assert_eq!(file.name, "passwd");
    assert_eq!(file.size, 481);
    assert_eq!(file.permissions, "644");

    let link = parse_busybox_ls_long_line(
        "lrwxrwxrwx    1 root     root             8 Jan  1  1970 tmp -> /tmp",
        cwd,
    )
    .expect("symlink");
    assert_eq!(link.name, "tmp");
    assert_eq!(link.symlink_target.as_deref(), Some("/tmp"));
    assert!(link.is_symlink);
}

#[test]
fn skips_total_and_dot_entries() {
    assert!(parse_busybox_ls_long_line("total 16", "/").is_none());
    assert!(
        parse_busybox_ls_long_line(
            "drwxr-xr-x    2 root     root          4096 Jan  1  1970 .",
            "/"
        )
        .is_none()
    );
}

#[test]
fn shell_listing_command_quotes_the_requested_path() {
    let command = shell_listing_command("/tmp/a'b");
    assert!(command.starts_with("/bin/sh -c "));
    assert!(command.contains("/tmp/a"));
    assert!(command.contains("b"));
}

#[test]
fn sftp_unavailable_classifier_matches_dropbear_failures() {
    assert!(error_is_sftp_protocol_unavailable(
        "SFTP subsystem not available: Failed to request SFTP subsystem: channel failure"
    ));
    assert!(error_is_sftp_protocol_unavailable(
        "SFTP subsystem not available: server disabled subsystem"
    ));
    assert!(!error_is_sftp_protocol_unavailable(
        "Permission denied: /root/secret"
    ));
}

#[test]
fn parse_shell_listing_reads_pwd_then_entries() {
    let output =
        "/root\ntotal 8\ndrwxr-xr-x    2 root     root          4096 Jan  1  1970 overlay\n";
    let (cwd, entries) = parse_shell_listing(output, "").expect("listing");
    assert_eq!(cwd, "/root");
    assert_eq!(entries.len(), 1);
    assert_eq!(entries[0].name, "overlay");
}

#[test]
fn permission_text_maps_to_octal_mode() {
    assert_eq!(unix_mode_from_ls_perms("drwxr-x---"), "750");
    assert_eq!(unix_mode_from_ls_perms("-rw-r--r--"), "644");
    assert_eq!(unix_mode_from_ls_perms("-rw"), "000");
}

#[test]
fn write_and_range_decisions() {
    assert_eq!(permissions_text(Some(0o100_755)), "755");
    assert_eq!(permissions_text(Some(0o7)), "7");
    assert_eq!(permissions_text(None), "000");
    assert_eq!(read_range_limit("/f", 100, 40, 10).unwrap(), 10);
    assert_eq!(read_range_limit("/f", 100, 95, 10).unwrap(), 5);
    assert_eq!(read_range_limit("/f", 100, 100, 10).unwrap(), 0);
    assert!(matches!(
        read_range_limit("/f", 100, 101, 10),
        Err(SftpError::InvalidPath(m)) if m == "offset exceeds remote file size: /f"
    ));
    assert!(write_failure_is_recoverable(&SftpError::PermissionDenied("/x".into())));
    assert!(write_failure_is_recoverable(&SftpError::WriteError("open /x.oxswp".into())));
    assert!(write_failure_is_recoverable(&SftpError::ChannelError("Atomic rename failed: busy".into())));
    assert!(!write_failure_is_recoverable(&SftpError::WriteError("disk full".into())));
    let (swap, backup) = config_replacement_paths("/etc/app.conf", "abc");
    assert_eq!(swap, "/etc/app.conf.oxideterm-abc.tmp");
    assert_eq!(backup, "/etc/app.conf.oxideterm-abc.bak");
    assert!(matches!(
        config_replace_failure("/c", "busy", None, "/c.bak"),
        SftpError::WriteError(m) if m == "Failed to replace /c: busy"
    ));
    assert!(matches!(
        config_replace_failure("/c", "busy", Some("gone"), "/c.bak"),
        SftpError::WriteError(m)
            if m == "Failed to replace /c: busy; rollback failed: gone. The original file remains at /c.bak"
    ));
}

#[test]
fn unresolvable_listing_paths_fall_back_to_cwd_or_the_absolute_path() {
    let session = SftpSession::from_initial_cwd("s".to_string(), "/home/me".to_string());
    assert_eq!(session.listing_path_after_resolve_failure(""), Some("/home/me".to_string()));
    assert_eq!(session.listing_path_after_resolve_failure("/overlay"), Some("/overlay".to_string()));
    assert_eq!(session.listing_path_after_resolve_failure("overlay"), None);
}

#[test]
fn listing_capture_follows_channel_messages() {
    let mut capture = ListingCapture::new();
    assert!(!capture.on_event(ListingEvent::Data(b"/root\n".to_vec())));
    assert!(!capture.on_event(ListingEvent::Eof));
    assert!(!capture.on_event(ListingEvent::ExitStatus(0)));
    assert!(!capture.on_event(ListingEvent::Other));
    assert!(capture.on_event(ListingEvent::Close));
    assert_eq!(capture.exit_status, Some(0));
    assert_eq!(capture.finish(false).unwrap(), "/root\n");

    let mut failed = ListingCapture::new();
    failed.on_event(ListingEvent::ExitStatus(2));
    assert!(matches!(failed.finish(false), Err(SftpError::DirectoryNotFound(_))));
}

#[test]
fn shell_listing_keeps_at_most_the_entry_limit() {
    let mut output = String::from("/data\n");
    for i in 0..4_100 {
        output.push_str(&format!("-rw-r--r--    1 root     root     1 Jan  1  1970 f{i}\n"));
    }
    let (cwd, entries) = parse_shell_listing(&output, "/ignored").expect("listing");
    assert_eq!(cwd, "/data");
    assert_eq!(entries.len(), 4_000);
    assert_eq!(entries[0].path, "/data/f0");
    assert_eq!(entries[3_999].name, "f3999");
}

#[test]
fn archive_command_starts_with_the_guard_and_names_every_source() {
    let (kind, command) =
        plan_archive_creation("/data", &["a b".into(), "c".into()], "/data/out.TAR.GZ").unwrap();
    assert_eq!(kind, ArchiveKind::TarGzip);
    assert!(command.starts_with(
        "cd '/data' || exit 74; if [ -e '/data/out.TAR.GZ' ] || [ -L '/data/out.TAR.GZ' ]; then exit 73; fi; "
    ));
    assert!(command.contains("'./a b'"));
    assert!(command.contains("'./c'"));
}

#[test]
fn shell_listing_readability_is_checked_before_parsing() {
    let ok = "/home/me\n-rw-r--r-- 1 root root 5 Jan 1 00:00 a.txt\n";
    assert!(shell_listing_parses(ok, "/home/me"));
    assert!(!ls_line_cuts_mode_column("-rw-r--r-- 1 root root 5 Jan 1 00:00 a.txt"));
    let cut = "-rw-r--r-\u{e9} 1 root root 5 Jan 1 00:00 a.txt";
    assert!(ls_line_cuts_mode_column(cut));
    assert!(!shell_listing_parses(&format!("/home/me\n{cut}\n"), "/home/me"));
    assert!(shell_listing_parses(&format!("{cut}\n"), "/home/me"));
}

#[test]
fn home_stays_the_initial_directory_over_many_cwd_changes() {
    let mut session = SftpSession::from_initial_cwd("s2".to_string(), "/srv".to_string());
    for path in ["/a", "/b/c", "", "/srv/x"] {
        session.set_cwd(path.to_string());
        assert_eq!(session.home(), "/srv");
        assert_eq!(session.cwd(), path);
        assert_eq!(session.session_id(), "s2");
    }
}

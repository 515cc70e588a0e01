use oxideterm::settings_model::SettingsTab;
use oxideterm::ui::{font_size_hud_duration, FONT_SIZE_HUD_BASELINE_MS};
use oxideterm::workspace::{
    active_session_readiness, claim_runtime_rows, close_to_background_label_keys, context_sidebar_panel_visible,
    effective_sidebar_panel_section, leftover_runtime_row_is_duplicate,
    node_readiness_became_ready, node_readiness_became_unavailable,
    reconnect_cascade_child_should_start, remote_desktop_readiness, runtime_row_claim_index,
    settings_nav_item_index, sftp_i18n_count, sftp_i18n_rename_detail,
    should_collapse_context_sidebar_panel, should_collapse_primary_sidebar_section,
    standalone_remote_desktop_kind, standalone_session_click_should_focus,
    standalone_terminal_kind, terminal_cwd_chip_label, terminal_display_path_key,
    terminal_project_git_root_disagreement, terminal_project_group_label_key,
    terminal_cwd_chip_tooltip, ActiveSessionReadiness, ContextSidebarPanel, CurrentDirectoryScope,
    CurrentDirectorySnapshot, CurrentDirectorySource, EndpointKey, NodeReadiness, ProjectTaskGroup,
    RemoteDesktopProtocol, RemoteDesktopSessionStatus, RuntimeRowClaimIdentity,
    SavedConnectionEndpoint, SidebarSection, StandaloneActiveSessionKind, TerminalSessionKind,
};

#[test]
fn sidebar_sections_roundtrip_persisted_settings_keys() {
    let sections = [
        SidebarSection::Sessions,
        SidebarSection::HostTools,
        SidebarSection::Automation,
        SidebarSection::Workspace,
        SidebarSection::Monitor,
        SidebarSection::Settings,
    ];

    for section in sections {
        assert_eq!(
            SidebarSection::from_settings_key(section.as_settings_key()),
            section
        );
    }
}

#[test]
fn retired_sidebar_keys_restore_active_sessions() {
    for key in [
        "connections",
        "saved",
        "sftp",
        "runtime",
        "connection_pool",
        "terminal",
        "network",
        "topology",
        "notifications",
        "files",
    ] {
        assert_eq!(
            SidebarSection::from_settings_key(key),
            SidebarSection::Sessions
        );
    }
}

#[test]
fn retired_health_keys_restore_host_tools_and_panels_collapse_symmetrically() {
    assert_eq!(SidebarSection::from_settings_key("activity"), SidebarSection::HostTools);
    assert_eq!(SidebarSection::from_settings_key("connection_monitor"), SidebarSection::HostTools);
    assert_eq!(SidebarSection::from_settings_key("unknown"), SidebarSection::Sessions);
    assert_eq!(SidebarSection::Connections.as_settings_key(), "saved");
    assert_eq!(effective_sidebar_panel_section(SidebarSection::Monitor), SidebarSection::Sessions);
    assert!(should_collapse_primary_sidebar_section(false, SidebarSection::Sessions, SidebarSection::Sessions));
    assert!(!should_collapse_primary_sidebar_section(true, SidebarSection::Sessions, SidebarSection::Sessions));
    assert!(!should_collapse_primary_sidebar_section(false, SidebarSection::Sessions, SidebarSection::Monitor));
    assert!(should_collapse_context_sidebar_panel(true, ContextSidebarPanel::HostTools, ContextSidebarPanel::HostTools));
    assert!(!should_collapse_context_sidebar_panel(false, ContextSidebarPanel::HostTools, ContextSidebarPanel::HostTools));
    assert!(context_sidebar_panel_visible(false, false));
    assert!(!context_sidebar_panel_visible(true, false));
    assert!(!context_sidebar_panel_visible(false, true));
}

#[test]
fn ready_transition_requires_a_non_ready_previous_state() {
    assert!(node_readiness_became_ready(
        Some(&NodeReadiness::Connecting),
        &NodeReadiness::Ready
    ));
    assert!(node_readiness_became_ready(None, &NodeReadiness::Ready));
    assert!(!node_readiness_became_ready(
        Some(&NodeReadiness::Ready),
        &NodeReadiness::Ready
    ));
    assert!(!node_readiness_became_ready(
        Some(&NodeReadiness::Error),
        &NodeReadiness::Disconnected
    ));
    assert!(node_readiness_became_unavailable(
        Some(&NodeReadiness::Connecting),
        &NodeReadiness::Error
    ));
    assert!(node_readiness_became_unavailable(
        Some(&NodeReadiness::Ready),
        &NodeReadiness::Disconnected
    ));
    assert!(!node_readiness_became_unavailable(
        Some(&NodeReadiness::Error),
        &NodeReadiness::Disconnected
    ));
}

#[test]
fn reconnect_cascade_skips_user_disconnected_children_like_tauri_link_down_set() {
    assert!(reconnect_cascade_child_should_start(&NodeReadiness::Error));
    assert!(reconnect_cascade_child_should_start(
        &NodeReadiness::Connecting
    ));
    assert!(!reconnect_cascade_child_should_start(
        &NodeReadiness::Disconnected
    ));
    assert!(!reconnect_cascade_child_should_start(&NodeReadiness::Ready));
}

#[test]
fn session_rows_show_the_matching_readiness() {
    assert_eq!(active_session_readiness(&NodeReadiness::Connecting), ActiveSessionReadiness::Connecting);
    assert_eq!(active_session_readiness(&NodeReadiness::Error), ActiveSessionReadiness::Error);
    assert_eq!(remote_desktop_readiness(RemoteDesktopSessionStatus::Reconnecting), ActiveSessionReadiness::Connecting);
    assert_eq!(remote_desktop_readiness(RemoteDesktopSessionStatus::Idle), ActiveSessionReadiness::Disconnected);
    assert_eq!(remote_desktop_readiness(RemoteDesktopSessionStatus::Failed), ActiveSessionReadiness::Error);
    assert_eq!(standalone_terminal_kind(TerminalSessionKind::Serial), Some(StandaloneActiveSessionKind::Serial));
    assert_eq!(standalone_terminal_kind(TerminalSessionKind::SshPty), None);
    assert_eq!(standalone_remote_desktop_kind(RemoteDesktopProtocol::Vnc), StandaloneActiveSessionKind::Vnc);
    assert!(!standalone_session_click_should_focus(1));
    assert!(standalone_session_click_should_focus(2));
}

fn saved_connection(id: &str) -> SavedConnectionEndpoint {
    SavedConnectionEndpoint {
        id: id.to_string(),
        host: "192.0.2.10".to_string(),
        port: 22,
        username: "root".to_string(),
    }
}

fn runtime_row(owner: Option<&str>) -> RuntimeRowClaimIdentity {
    RuntimeRowClaimIdentity {
        saved_connection_id: owner.map(str::to_string),
        host: "192.0.2.10".to_string(),
        username: "root".to_string(),
        port: 22,
    }
}

#[test]
fn identical_endpoint_does_not_claim_runtime_row_owned_by_another_saved_id() {
    let runtime_rows = [runtime_row(Some("original"))];
    assert_eq!(
        runtime_row_claim_index(&runtime_rows, &[false], &saved_connection("edited")),
        None
    );
}

#[test]
fn identical_endpoint_can_claim_ad_hoc_runtime_row_without_saved_owner() {
    let runtime_rows = [runtime_row(None)];
    assert_eq!(
        runtime_row_claim_index(&runtime_rows, &[false], &saved_connection("edited")),
        Some(0)
    );
}

#[test]
fn leftover_owned_runtime_row_is_not_hidden_just_because_endpoint_matches() {
    let claimed = [EndpointKey {
        host: "192.0.2.10".to_string(),
        port: 22,
        username: "root".to_string(),
    }];
    assert!(!leftover_runtime_row_is_duplicate(
        0,
        Some("edited"),
        "192.0.2.10",
        22,
        "root",
        &claimed,
    ));
    assert!(leftover_runtime_row_is_duplicate(
        0,
        None,
        "192.0.2.10",
        22,
        "root",
        &claimed,
    ));
}

#[test]
fn owned_rows_win_over_endpoint_rows_and_consumed_rows_are_skipped() {
    let rows = [runtime_row(None), runtime_row(Some("mine")), runtime_row(Some("mine"))];
    assert_eq!(runtime_row_claim_index(&rows, &[false, false, false], &saved_connection("mine")), Some(1));
    assert_eq!(runtime_row_claim_index(&rows, &[false, true, false], &saved_connection("mine")), Some(2));
    assert_eq!(runtime_row_claim_index(&rows, &[false, true, true], &saved_connection("mine")), Some(0));
    assert_eq!(runtime_row_claim_index(&rows, &[true, true, true], &saved_connection("mine")), None);
    assert!(!leftover_runtime_row_is_duplicate(1, None, "192.0.2.10", 22, "root", &[]));
    assert!(!leftover_runtime_row_is_duplicate(0, None, "", 22, "root", &[]));
}

#[test]
fn project_git_root_disagreement_ignores_trailing_separators() {
    assert_eq!(
        terminal_project_git_root_disagreement("/repo/app/", "/repo/app").as_deref(),
        None
    );
}

#[test]
fn project_git_root_disagreement_reports_distinct_git_root() {
    assert_eq!(
        terminal_project_git_root_disagreement("/repo/app", "/repo").as_deref(),
        Some("/repo")
    );
}

#[test]
fn display_path_keys_and_blank_roots() {
    assert_eq!(terminal_display_path_key(" C:\\repo\\app\\\\ "), "C:/repo/app");
    assert_eq!(terminal_display_path_key("///"), "/");
    assert_eq!(terminal_project_git_root_disagreement("  ", "/repo"), None);
    assert_eq!(terminal_project_git_root_disagreement("C:\\repo", " C:/repo/ "), None);
    assert_eq!(
        terminal_project_git_root_disagreement("/repo/app", " /repo "),
        Some("/repo".to_string())
    );
}

#[test]
fn cwd_chip_labels_keep_the_last_two_segments() {
    assert_eq!(terminal_cwd_chip_label("/home/me/src/project"), "src/project");
    assert_eq!(terminal_cwd_chip_label("~/notes"), "~/notes");
    assert_eq!(terminal_cwd_chip_label("~/work/notes"), "work/notes");
    assert_eq!(terminal_cwd_chip_label("C:\\Users\\me\\code"), "me\\code");
    assert_eq!(terminal_cwd_chip_label(" / "), "/");
    assert_eq!(terminal_cwd_chip_label("~"), "~");
    assert_eq!(terminal_cwd_chip_label("C:\\"), "C:\\");
    assert_eq!(terminal_cwd_chip_label("//"), "//");
    assert_eq!(terminal_cwd_chip_label("/etc/"), "etc");
    assert_eq!(terminal_cwd_chip_label(""), "");
}

#[test]
fn project_group_keys() {
    assert_eq!(terminal_project_group_label_key(ProjectTaskGroup::Docker), "terminal.project.group_docker");
    assert_eq!(terminal_project_group_label_key(ProjectTaskGroup::Develop), "terminal.project.group_develop");
}

#[test]
fn settings_navigation_counts_separators_between_groups() {
    let groups: Vec<Vec<SettingsTab>> = SettingsTab::groups().iter().map(|g| g.to_vec()).collect();
    assert_eq!(settings_nav_item_index(&groups, SettingsTab::General), Some(0));
    assert_eq!(settings_nav_item_index(&groups, SettingsTab::Appearance), Some(1));
    assert_eq!(settings_nav_item_index(&groups, SettingsTab::Terminal), Some(3));
    assert_eq!(settings_nav_item_index(&groups, SettingsTab::Connections), Some(5));
    assert_eq!(settings_nav_item_index(&groups, SettingsTab::Help), Some(11));
    assert_eq!(settings_nav_item_index(&groups[..1], SettingsTab::Help), None);
    assert_eq!(settings_nav_item_index(&[], SettingsTab::Help), None);
}

#[test]
fn message_templates_are_filled_in() {
    assert_eq!(sftp_i18n_count("{{count}} items, {{count}} done".to_string(), 42), "42 items, 42 done");
    assert_eq!(sftp_i18n_count("none".to_string(), 0), "none");
    assert_eq!(
        sftp_i18n_rename_detail("{{old}} -> {{new}}".to_string(), "a.txt", "{{new}}.txt"),
        "a.txt -> {{new}}.txt"
    );
    let (label, hint) = close_to_background_label_keys(true);
    assert_eq!(label, "settings_view.general.keep_running_on_close");
    assert_eq!(hint, "settings_view.general.keep_running_on_close_hint");
    let (label, _) = close_to_background_label_keys(false);
    assert_eq!(label, "settings_view.general.minimize_to_tray_on_close");
}

#[test]
fn font_size_overlay_keeps_the_baseline_without_motion() {
    assert_eq!(font_size_hud_duration(false, 0), FONT_SIZE_HUD_BASELINE_MS);
    assert_eq!(font_size_hud_duration(true, 900), 900);
}

#[test]
fn activity_tooltips_are_localized_or_fall_back_to_their_keys() {
    let i18n = oxideterm::i18n::I18n::new(oxideterm::i18n::Locale::ZhCn);
    assert_eq!(
        oxideterm::workspace::activity_icon_tooltip(&i18n, SidebarSection::Sessions, false),
        "活动会话"
    );
    assert_eq!(
        oxideterm::workspace::activity_icon_tooltip(&i18n, SidebarSection::Monitor, true),
        "launcher.tabTitle"
    );
    assert_eq!(
        oxideterm::workspace::activity_icon_tooltip(&i18n, SidebarSection::Monitor, false),
        "sidebar.panels.connection_monitor"
    );
}

#[test]
fn cwd_tooltip_lists_path_origin_and_host() {
    let i18n = oxideterm::i18n::I18n::new(oxideterm::i18n::Locale::En);
    assert_eq!(terminal_cwd_chip_tooltip(None, None, &i18n), "terminal.cwd.unavailable");
    let snapshot = CurrentDirectorySnapshot {
        path: "/srv/app".to_string(),
        scope: CurrentDirectoryScope::SshNode,
        source: CurrentDirectorySource::ShellIntegration,
    };
    assert_eq!(
        terminal_cwd_chip_tooltip(Some(&snapshot), Some("  ".to_string()), &i18n),
        "/srv/app\nterminal.cwd.scope_ssh · terminal.cwd.source_shell · terminal.cwd.quality_cwd_only"
    );
    assert_eq!(
        terminal_cwd_chip_tooltip(Some(&snapshot), Some("edge-1".to_string()), &i18n),
        "/srv/app\nterminal.cwd.scope_ssh · terminal.cwd.source_shell · terminal.cwd.quality_cwd_only\nterminal.cwd.host: edge-1"
    );
}

#[test]
fn catalog_connections_claim_each_runtime_row_once() {
    let rows = [runtime_row(None), runtime_row(Some("mine")), runtime_row(Some("other"))];
    let connections = [saved_connection("mine"), saved_connection("edited"), saved_connection("again"), saved_connection("other")];
    let (claims, consumed) = claim_runtime_rows(&rows, &connections);
    assert_eq!(claims, vec![Some(1), Some(0), None, Some(2)]);
    assert_eq!(consumed, vec![true, true, true]);
    let (claims, consumed) = claim_runtime_rows(&rows, &[]);
    assert!(claims.is_empty());
    assert_eq!(consumed, vec![false, false, false]);
}

use std::collections::HashSet;

use oxideterm::settings_model::{
    SettingsInput, SettingsSelect, SettingsTab, SettingsTabIcon, TerminalSettingsPage,
};
use oxideterm::settings_view::{
    settings_tab_from_ai_section, terminal_settings_page_from_ai_section, SelectAnchorId,
    SettingsSelectAnchorExt,
};

#[test]
fn secret_inputs_are_categorized_in_the_model_layer() {
    assert!(SettingsInput::NetworkProxyPassword.is_secret());
    assert!(!SettingsInput::TerminalFontSize.is_secret());
}

#[test]
fn ai_section_aliases_map_to_settings_tabs() {
    assert_eq!(
        settings_tab_from_ai_section("ssh_keys"),
        Some(SettingsTab::Connections)
    );
    assert_eq!(settings_tab_from_ai_section("missing"), None);
}

#[test]
fn every_settings_select_resolves_to_its_own_non_language_anchor() {
    let selects = [
        SettingsSelect::Language,
        SettingsSelect::UpdateChannel,
        SettingsSelect::UpdateProxyMode,
        SettingsSelect::UpdateProxyProtocol,
        SettingsSelect::AppearanceTheme,
        SettingsSelect::AppearanceDensity,
        SettingsSelect::AppearanceAnimation,
        SettingsSelect::AppearanceRenderProfile,
        SettingsSelect::AppearanceFrostedGlass,
        SettingsSelect::AppearanceBackgroundFit,
        SettingsSelect::TerminalFontFamily,
        SettingsSelect::TerminalCjkFontFamily,
        SettingsSelect::TerminalEncoding,
        SettingsSelect::TerminalBackspaceSequence,
        SettingsSelect::TerminalDeleteSequence,
        SettingsSelect::TerminalCursorStyle,
        SettingsSelect::CloudSyncMode,
        SettingsSelect::ConnectionIdleTimeout,
        SettingsSelect::NetworkApplicationProxyMode,
        SettingsSelect::NetworkProxyProtocol,
        SettingsSelect::NetworkProxyAuth,
        SettingsSelect::SftpPresentation,
        SettingsSelect::SftpProtocol,
        SettingsSelect::SftpConcurrent,
        SettingsSelect::SftpDirectoryParallelism,
        SettingsSelect::SftpConflict,
        SettingsSelect::TerminalSemanticScheme,
        SettingsSelect::SemanticSchemeRuleClass(0),
        SettingsSelect::SemanticSchemeRuleContext(0),
        SettingsSelect::HighlightRuleSet,
        SettingsSelect::HighlightPreset,
        SettingsSelect::HighlightRenderMode(0),
        SettingsSelect::HighlightMatchScope(0),
        SettingsSelect::ConnectionImportSource,
        SettingsSelect::ConnectionImportDuplicateStrategy,
        SettingsSelect::SessionExportFormat,
    ];
    let mut anchors = HashSet::new();
    for select in selects {
        let anchor = select.anchor_id();
        if select == SettingsSelect::Language {
            assert_eq!(anchor, SelectAnchorId::SettingsLanguage);
            continue;
        }
        assert_ne!(
            anchor,
            SelectAnchorId::SettingsLanguage,
            "{select:?} fell back to the Language anchor"
        );
        assert!(
            anchors.insert(anchor),
            "{select:?} reuses the anchor of another select"
        );
    }
}

#[test]
fn trigger_and_reconnect_selects_have_their_own_anchors() {
    let selects = [
        SettingsSelect::TerminalTriggerMatchMode,
        SettingsSelect::TerminalTriggerAction,
        SettingsSelect::TerminalTriggerProcessMode,
        SettingsSelect::TerminalTriggerQuickCommand,
        SettingsSelect::TerminalTriggerTiming,
        SettingsSelect::TerminalTriggerScope,
        SettingsSelect::LocalShell,
        SettingsSelect::LocalShellSemanticScheme(3),
        SettingsSelect::ReconnectMaxAttempts,
        SettingsSelect::ReconnectBaseDelay,
        SettingsSelect::ReconnectMaxDelay,
    ];
    let anchors: HashSet<_> = selects.iter().map(|s| s.anchor_id()).collect();
    assert_eq!(anchors.len(), selects.len());
    assert_ne!(
        SettingsSelect::HighlightRenderMode(1).anchor_id(),
        SettingsSelect::HighlightRenderMode(2).anchor_id()
    );
}

#[test]
fn ai_section_names_cover_every_alias() {
    assert_eq!(settings_tab_from_ai_section("general"), Some(SettingsTab::General));
    assert_eq!(settings_tab_from_ai_section("terminal"), Some(SettingsTab::Terminal));
    assert_eq!(settings_tab_from_ai_section("appearance"), Some(SettingsTab::Appearance));
    assert_eq!(settings_tab_from_ai_section("connections"), Some(SettingsTab::Connections));
    assert_eq!(
        settings_tab_from_ai_section("connection_manager"),
        Some(SettingsTab::Connections)
    );
    assert_eq!(settings_tab_from_ai_section("ssh"), Some(SettingsTab::Connections));
    assert_eq!(settings_tab_from_ai_section("sftp"), Some(SettingsTab::Sftp));
    assert_eq!(settings_tab_from_ai_section("help"), Some(SettingsTab::Help));
    assert_eq!(settings_tab_from_ai_section("network"), None);
    assert_eq!(settings_tab_from_ai_section("General"), None);
    assert_eq!(terminal_settings_page_from_ai_section("terminal"), None);
}

#[test]
fn tab_ids_roundtrip_and_unknown_ids_are_rejected() {
    for tab in SettingsTab::all() {
        assert_eq!(SettingsTab::from_id(tab.id()), Some(*tab));
    }
    assert_eq!(SettingsTab::from_id("cloud_sync"), Some(SettingsTab::CloudSync));
    assert_eq!(SettingsTab::from_id("cloudsync"), None);
    assert_eq!(SettingsTab::from_id(""), None);
}

#[test]
fn tab_order_groups_and_keys() {
    assert_eq!(SettingsTab::all().len(), 9);
    assert_eq!(SettingsTab::all()[1], SettingsTab::Appearance);
    let groups = SettingsTab::groups();
    assert_eq!(groups.len(), 4);
    assert_eq!(groups[0], &[SettingsTab::General, SettingsTab::Appearance]);
    assert_eq!(groups[2].len(), 5);
    assert_eq!(groups[3], &[SettingsTab::Help]);
    let flattened: Vec<SettingsTab> = groups.iter().flat_map(|g| g.iter().copied()).collect();
    assert_eq!(flattened.len(), SettingsTab::all().len());
    assert_eq!(SettingsTab::Terminal.label_key(), "settings.terminal.title");
    assert_eq!(SettingsTab::CloudSync.title_key(), "settings_view.general.cloudsync.title");
    assert_eq!(
        SettingsTab::Connections.description_key(),
        "settings_view.connections.keys_and_connections_description"
    );
    assert_eq!(SettingsTab::Appearance.icon(), SettingsTabIcon::Monitor);
    assert_eq!(SettingsTab::SessionIO.icon(), SettingsTabIcon::Square);
}

#[test]
fn terminal_pages_are_listed_in_order_with_label_keys() {
    let pages = TerminalSettingsPage::all();
    assert_eq!(pages.len(), 7);
    assert_eq!(pages[0], TerminalSettingsPage::Display);
    assert_eq!(pages[6], TerminalSettingsPage::Highlight);
    assert_eq!(
        TerminalSettingsPage::CommandBar.label_key(),
        "settings_view.terminal.page_commandBar"
    );
}

#[test]
fn input_anchor_keys_and_multiline_fields() {
    assert_eq!(SettingsInput::SettingsSearch.anchor_key(), 34_000);
    assert_eq!(SettingsInput::TerminalFontSize.anchor_key(), 1);
    assert_eq!(SettingsInput::SemanticSchemeRulePattern(7).anchor_key(), 10_407);
    assert_eq!(SettingsInput::HighlightLabel(2).anchor_key(), 108);
    assert_eq!(SettingsInput::HighlightBackground(2).anchor_key(), 111);
    assert_eq!(SettingsInput::ManagedKeyRenameName.anchor_key(), 30_006);
    assert!(SettingsInput::TerminalCommandSpecsJson.accepts_newline());
    assert!(SettingsInput::ManagedKeyPastePrivateKey.accepts_newline());
    assert!(!SettingsInput::TerminalTriggerPattern.accepts_newline());
    assert!(SettingsInput::ManagedKeyPastePrivateKey.is_secret());
    assert!(SettingsInput::ManagedKeyFilePassphrase.is_secret());
    assert!(!SettingsInput::ManagedKeyFileName.is_secret());
}

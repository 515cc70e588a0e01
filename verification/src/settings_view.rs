//! The settings view's mapping of model identities to interface anchors, and
//! of assistant section names to settings pages.
use vstd::prelude::*;

use crate::settings_model::{SettingsSelect, SettingsTab, TerminalSettingsPage};
use crate::text::str_eq;

verus! {

/// The surface that owns the workspace's main area.
#[derive(Clone, Copy, Debug, PartialEq, Eq, Structural)]
pub enum ActiveSurface {
    Terminal,
    Settings,
}

/// The anchor a select's popup is positioned against: one per select, and
/// one per index for the indexed selects.
#[derive(Clone, Copy, Debug, PartialEq, Eq, Hash, Structural)]
pub enum SelectAnchorId {
    SettingsLanguage,
    SettingsUpdateChannel,
    SettingsUpdateProxyMode,
    SettingsUpdateProxyProtocol,
    SettingsAppearanceTheme,
    SettingsAppearanceDensity,
    SettingsAppearanceAnimation,
    SettingsAppearanceRenderProfile,
    SettingsAppearanceFrostedGlass,
    SettingsAppearanceBackgroundFit,
    SettingsTerminalFontFamily,
    SettingsTerminalCjkFontFamily,
    SettingsTerminalEncoding,
    SettingsTerminalBackspaceSequence,
    SettingsTerminalDeleteSequence,
    SettingsTerminalCursorStyle,
    SettingsTerminalTriggerMatchMode,
    SettingsTerminalTriggerAction,
    SettingsTerminalTriggerProcessMode,
    SettingsTerminalTriggerQuickCommand,
    SettingsTerminalTriggerTiming,
    SettingsTerminalTriggerScope,
    SettingsCloudSyncMode,
    SettingsLocalShell,
    SettingsLocalShellSemanticScheme(usize),
    SettingsConnectionIdleTimeout,
    SettingsReconnectMaxAttempts,
    SettingsReconnectBaseDelay,
    SettingsReconnectMaxDelay,
    SettingsNetworkApplicationProxyMode,
    SettingsNetworkProxyProtocol,
    SettingsNetworkProxyAuth,
    SettingsSftpPresentation,
    SettingsSftpProtocol,
    SettingsSftpConcurrent,
    SettingsSftpDirectoryParallelism,
    SettingsSftpConflict,
    SettingsTerminalSemanticScheme,
    SettingsSemanticSchemeRuleClass(usize),
    SettingsSemanticSchemeRuleContext(usize),
    SettingsHighlightRuleSet,
    SettingsHighlightPreset,
    SettingsHighlightRenderMode(usize),
    SettingsHighlightMatchScope(usize),
    SettingsConnectionImportSource,
    SettingsConnectionImportDuplicateStrategy,
    SettingsSessionExportFormat,
}

/// The tab an assistant section name opens.
pub open spec fn ai_section_tab(section: Seq<char>) -> Option<SettingsTab> {
    if section == "general"@ {
        Some(SettingsTab::General)
    } else if section == "terminal"@ {
        Some(SettingsTab::Terminal)
    } else if section == "appearance"@ {
        Some(SettingsTab::Appearance)
    } else if section == "connections"@ || section == "connection_manager"@ {
        Some(SettingsTab::Connections)
    } else if section == "ssh"@ || section == "ssh_keys"@ {
        Some(SettingsTab::Connections)
    } else if section == "sftp"@ {
        Some(SettingsTab::Sftp)
    } else if section == "help"@ {
        Some(SettingsTab::Help)
    } else {
        None
    }
}

/// The settings tab named by an assistant section, if any.
pub fn settings_tab_from_ai_section(section: &str) -> (r: Option<SettingsTab>)
    ensures
        r == ai_section_tab(section@),
{
    if str_eq(section, "general") {
        Some(SettingsTab::General)
    } else if str_eq(section, "terminal") {
        Some(SettingsTab::Terminal)
    } else if str_eq(section, "appearance") {
        Some(SettingsTab::Appearance)
    } else if str_eq(section, "connections") || str_eq(section, "connection_manager") {
        Some(SettingsTab::Connections)
    } else if str_eq(section, "ssh") || str_eq(section, "ssh_keys") {
        Some(SettingsTab::Connections)
    } else if str_eq(section, "sftp") {
        Some(SettingsTab::Sftp)
    } else if str_eq(section, "help") {
        Some(SettingsTab::Help)
    } else {
        None
    }
}

/// The terminal page named by an assistant section: no section names one.
pub fn terminal_settings_page_from_ai_section(section: &str) -> (r: Option<TerminalSettingsPage>)
    ensures
        r is None,
{
    None
}

/// The anchor of each select.
pub open spec fn select_anchor(s: SettingsSelect) -> SelectAnchorId {
    match s {
        SettingsSelect::Language => SelectAnchorId::SettingsLanguage,
        SettingsSelect::UpdateChannel => SelectAnchorId::SettingsUpdateChannel,
        SettingsSelect::UpdateProxyMode => SelectAnchorId::SettingsUpdateProxyMode,
        SettingsSelect::UpdateProxyProtocol => SelectAnchorId::SettingsUpdateProxyProtocol,
        SettingsSelect::AppearanceTheme => SelectAnchorId::SettingsAppearanceTheme,
        SettingsSelect::AppearanceDensity => SelectAnchorId::SettingsAppearanceDensity,
        SettingsSelect::AppearanceAnimation => SelectAnchorId::SettingsAppearanceAnimation,
        SettingsSelect::AppearanceRenderProfile => SelectAnchorId::SettingsAppearanceRenderProfile,
        SettingsSelect::AppearanceFrostedGlass => SelectAnchorId::SettingsAppearanceFrostedGlass,
        SettingsSelect::AppearanceBackgroundFit => SelectAnchorId::SettingsAppearanceBackgroundFit,
        SettingsSelect::TerminalFontFamily => SelectAnchorId::SettingsTerminalFontFamily,
        SettingsSelect::TerminalCjkFontFamily => SelectAnchorId::SettingsTerminalCjkFontFamily,
        SettingsSelect::TerminalEncoding => SelectAnchorId::SettingsTerminalEncoding,
        SettingsSelect::TerminalBackspaceSequence => SelectAnchorId::SettingsTerminalBackspaceSequence,
        SettingsSelect::TerminalDeleteSequence => SelectAnchorId::SettingsTerminalDeleteSequence,
        SettingsSelect::TerminalCursorStyle => SelectAnchorId::SettingsTerminalCursorStyle,
        SettingsSelect::TerminalTriggerMatchMode => SelectAnchorId::SettingsTerminalTriggerMatchMode,
        SettingsSelect::TerminalTriggerAction => SelectAnchorId::SettingsTerminalTriggerAction,
        SettingsSelect::TerminalTriggerProcessMode => SelectAnchorId::SettingsTerminalTriggerProcessMode,
        SettingsSelect::TerminalTriggerQuickCommand => SelectAnchorId::SettingsTerminalTriggerQuickCommand,
        SettingsSelect::TerminalTriggerTiming => SelectAnchorId::SettingsTerminalTriggerTiming,
        SettingsSelect::TerminalTriggerScope => SelectAnchorId::SettingsTerminalTriggerScope,
        SettingsSelect::CloudSyncMode => SelectAnchorId::SettingsCloudSyncMode,
        SettingsSelect::LocalShell => SelectAnchorId::SettingsLocalShell,
        SettingsSelect::LocalShellSemanticScheme(index) => SelectAnchorId::SettingsLocalShellSemanticScheme(index),
        SettingsSelect::ConnectionIdleTimeout => SelectAnchorId::SettingsConnectionIdleTimeout,
        SettingsSelect::ReconnectMaxAttempts => SelectAnchorId::SettingsReconnectMaxAttempts,
        SettingsSelect::ReconnectBaseDelay => SelectAnchorId::SettingsReconnectBaseDelay,
        SettingsSelect::ReconnectMaxDelay => SelectAnchorId::SettingsReconnectMaxDelay,
        SettingsSelect::NetworkApplicationProxyMode => SelectAnchorId::SettingsNetworkApplicationProxyMode,
        SettingsSelect::NetworkProxyProtocol => SelectAnchorId::SettingsNetworkProxyProtocol,
        SettingsSelect::NetworkProxyAuth => SelectAnchorId::SettingsNetworkProxyAuth,
        SettingsSelect::SftpPresentation => SelectAnchorId::SettingsSftpPresentation,
        SettingsSelect::SftpProtocol => SelectAnchorId::SettingsSftpProtocol,
        SettingsSelect::SftpConcurrent => SelectAnchorId::SettingsSftpConcurrent,
        SettingsSelect::SftpDirectoryParallelism => SelectAnchorId::SettingsSftpDirectoryParallelism,
        SettingsSelect::SftpConflict => SelectAnchorId::SettingsSftpConflict,
        SettingsSelect::TerminalSemanticScheme => SelectAnchorId::SettingsTerminalSemanticScheme,
        SettingsSelect::SemanticSchemeRuleClass(index) => SelectAnchorId::SettingsSemanticSchemeRuleClass(index),
        SettingsSelect::SemanticSchemeRuleContext(index) => SelectAnchorId::SettingsSemanticSchemeRuleContext(index),
        SettingsSelect::HighlightRuleSet => SelectAnchorId::SettingsHighlightRuleSet,
        SettingsSelect::HighlightPreset => SelectAnchorId::SettingsHighlightPreset,
        SettingsSelect::HighlightRenderMode(index) => SelectAnchorId::SettingsHighlightRenderMode(index),
        SettingsSelect::HighlightMatchScope(index) => SelectAnchorId::SettingsHighlightMatchScope(index),
        SettingsSelect::ConnectionImportSource => SelectAnchorId::SettingsConnectionImportSource,
        SettingsSelect::ConnectionImportDuplicateStrategy => SelectAnchorId::SettingsConnectionImportDuplicateStrategy,
        SettingsSelect::SessionExportFormat => SelectAnchorId::SettingsSessionExportFormat,
    }
}

/// Maps a select to the anchor its popup is positioned against.
pub trait SettingsSelectAnchorExt {
    fn anchor_id(self) -> SelectAnchorId;
}

impl SettingsSelectAnchorExt for SettingsSelect {
    fn anchor_id(self) -> (r: SelectAnchorId)
        ensures
            r == select_anchor(self),
    {
        match self {
            Self::Language => SelectAnchorId::SettingsLanguage,
            Self::UpdateChannel => SelectAnchorId::SettingsUpdateChannel,
            Self::UpdateProxyMode => SelectAnchorId::SettingsUpdateProxyMode,
            Self::UpdateProxyProtocol => SelectAnchorId::SettingsUpdateProxyProtocol,
            Self::AppearanceTheme => SelectAnchorId::SettingsAppearanceTheme,
            Self::AppearanceDensity => SelectAnchorId::SettingsAppearanceDensity,
            Self::AppearanceAnimation => SelectAnchorId::SettingsAppearanceAnimation,
            Self::AppearanceRenderProfile => SelectAnchorId::SettingsAppearanceRenderProfile,
            Self::AppearanceFrostedGlass => SelectAnchorId::SettingsAppearanceFrostedGlass,
            Self::AppearanceBackgroundFit => SelectAnchorId::SettingsAppearanceBackgroundFit,
            Self::TerminalFontFamily => SelectAnchorId::SettingsTerminalFontFamily,
            Self::TerminalCjkFontFamily => SelectAnchorId::SettingsTerminalCjkFontFamily,
            Self::TerminalEncoding => SelectAnchorId::SettingsTerminalEncoding,
            Self::TerminalBackspaceSequence => SelectAnchorId::SettingsTerminalBackspaceSequence,
            Self::TerminalDeleteSequence => SelectAnchorId::SettingsTerminalDeleteSequence,
            Self::TerminalCursorStyle => SelectAnchorId::SettingsTerminalCursorStyle,
            Self::TerminalTriggerMatchMode => SelectAnchorId::SettingsTerminalTriggerMatchMode,
            Self::TerminalTriggerAction => SelectAnchorId::SettingsTerminalTriggerAction,
            Self::TerminalTriggerProcessMode => SelectAnchorId::SettingsTerminalTriggerProcessMode,
            Self::TerminalTriggerQuickCommand => SelectAnchorId::SettingsTerminalTriggerQuickCommand,
            Self::TerminalTriggerTiming => SelectAnchorId::SettingsTerminalTriggerTiming,
            Self::TerminalTriggerScope => SelectAnchorId::SettingsTerminalTriggerScope,
            Self::CloudSyncMode => SelectAnchorId::SettingsCloudSyncMode,
            Self::LocalShell => SelectAnchorId::SettingsLocalShell,
            Self::LocalShellSemanticScheme(index) => SelectAnchorId::SettingsLocalShellSemanticScheme(index),
            Self::ConnectionIdleTimeout => SelectAnchorId::SettingsConnectionIdleTimeout,
            Self::ReconnectMaxAttempts => SelectAnchorId::SettingsReconnectMaxAttempts,
            Self::ReconnectBaseDelay => SelectAnchorId::SettingsReconnectBaseDelay,
            Self::ReconnectMaxDelay => SelectAnchorId::SettingsReconnectMaxDelay,
            Self::NetworkApplicationProxyMode => SelectAnchorId::SettingsNetworkApplicationProxyMode,
            Self::NetworkProxyProtocol => SelectAnchorId::SettingsNetworkProxyProtocol,
            Self::NetworkProxyAuth => SelectAnchorId::SettingsNetworkProxyAuth,
            Self::SftpPresentation => SelectAnchorId::SettingsSftpPresentation,
            Self::SftpProtocol => SelectAnchorId::SettingsSftpProtocol,
            Self::SftpConcurrent => SelectAnchorId::SettingsSftpConcurrent,
            Self::SftpDirectoryParallelism => SelectAnchorId::SettingsSftpDirectoryParallelism,
            Self::SftpConflict => SelectAnchorId::SettingsSftpConflict,
            Self::TerminalSemanticScheme => SelectAnchorId::SettingsTerminalSemanticScheme,
            Self::SemanticSchemeRuleClass(index) => SelectAnchorId::SettingsSemanticSchemeRuleClass(index),
            Self::SemanticSchemeRuleContext(index) => SelectAnchorId::SettingsSemanticSchemeRuleContext(index),
            Self::HighlightRuleSet => SelectAnchorId::SettingsHighlightRuleSet,
            Self::HighlightPreset => SelectAnchorId::SettingsHighlightPreset,
            Self::HighlightRenderMode(index) => SelectAnchorId::SettingsHighlightRenderMode(index),
            Self::HighlightMatchScope(index) => SelectAnchorId::SettingsHighlightMatchScope(index),
            Self::ConnectionImportSource => SelectAnchorId::SettingsConnectionImportSource,
            Self::ConnectionImportDuplicateStrategy => SelectAnchorId::SettingsConnectionImportDuplicateStrategy,
            Self::SessionExportFormat => SelectAnchorId::SettingsSessionExportFormat,
        }
    }
}

/// Every select has an anchor of its own: no two selects share one, and only
/// the language select uses the language anchor.
pub proof fn lemma_select_anchors_distinct(a: SettingsSelect, b: SettingsSelect)
    ensures
        select_anchor(a) == select_anchor(b) ==> a == b,
        select_anchor(a) == SelectAnchorId::SettingsLanguage <==> a == SettingsSelect::Language,
{
}

}

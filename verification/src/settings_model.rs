//! Identity types of the settings pages: navigation tabs, terminal sub-pages,
//! editable fields, selects and sliders, with the keys that name them.
use vstd::prelude::*;

use crate::text::str_eq;

verus! {

/// The anchor key of the settings search field.
pub const SETTINGS_SEARCH_INPUT_ANCHOR_KEY: u64 = 34_000;

/// A top-level settings tab.
#[derive(Clone, Copy, Debug, PartialEq, Eq, Hash, Structural)]
pub enum SettingsTab {
    General,
    Terminal,
    Appearance,
    Connections,
    Network,
    Sftp,
    CloudSync,
    SessionIO,
    Help,
}

/// A page of the terminal settings tab.
#[derive(Clone, Copy, Debug, PartialEq, Eq, Hash, Structural)]
pub enum TerminalSettingsPage {
    Display,
    Input,
    Local,
    CommandBar,
    Awareness,
    Transfer,
    Highlight,
}

/// The tabs in navigation order.
pub open spec fn settings_tab_order() -> Seq<SettingsTab> {
    seq![
        SettingsTab::General,
        SettingsTab::Appearance,
        SettingsTab::Terminal,
        SettingsTab::Connections,
        SettingsTab::Network,
        SettingsTab::Sftp,
        SettingsTab::CloudSync,
        SettingsTab::SessionIO,
        SettingsTab::Help,
    ]
}

/// The terminal pages in navigation order.
pub open spec fn terminal_page_order() -> Seq<TerminalSettingsPage> {
    seq![
        TerminalSettingsPage::Display,
        TerminalSettingsPage::Input,
        TerminalSettingsPage::Local,
        TerminalSettingsPage::CommandBar,
        TerminalSettingsPage::Awareness,
        TerminalSettingsPage::Transfer,
        TerminalSettingsPage::Highlight,
    ]
}

/// The message key of a terminal page's label.
pub open spec fn terminal_page_label_key(p: TerminalSettingsPage) -> Seq<char> {
    match p {
        TerminalSettingsPage::Display => "settings_view.terminal.page_display"@,
        TerminalSettingsPage::Input => "settings_view.terminal.page_input"@,
        TerminalSettingsPage::Local => "settings_view.terminal.page_local"@,
        TerminalSettingsPage::CommandBar => "settings_view.terminal.page_commandBar"@,
        TerminalSettingsPage::Awareness => "settings_view.terminal.page_awareness"@,
        TerminalSettingsPage::Transfer => "settings_view.terminal.page_transfer"@,
        TerminalSettingsPage::Highlight => "settings_view.terminal.page_highlight"@,
    }
}

impl TerminalSettingsPage {
    /// Every terminal page, in navigation order.
    pub fn all() -> (r: &'static [Self])
        ensures
            r@ == terminal_page_order(),
    {
        let r: &'static [Self] = &[
            Self::Display,
            Self::Input,
            Self::Local,
            Self::CommandBar,
            Self::Awareness,
            Self::Transfer,
            Self::Highlight,
        ];
        assert(r@ =~= terminal_page_order());
        r
    }
}


impl TerminalSettingsPage {
    /// The message key of the page's label.
    pub fn label_key(self) -> (r: &'static str)
        ensures
            r@ == terminal_page_label_key(self),
    {
        match self {
            Self::Display => "settings_view.terminal.page_display",
            Self::Input => "settings_view.terminal.page_input",
            Self::Local => "settings_view.terminal.page_local",
            Self::CommandBar => "settings_view.terminal.page_commandBar",
            Self::Awareness => "settings_view.terminal.page_awareness",
            Self::Transfer => "settings_view.terminal.page_transfer",
            Self::Highlight => "settings_view.terminal.page_highlight",
        }
    }
}

/// The icon shown beside a settings tab.
#[derive(Clone, Copy, Debug, PartialEq, Eq, Structural)]
pub enum SettingsTabIcon {
    BookOpen,
    HardDrive,
    HelpCircle,
    Monitor,
    Network,
    Shield,
    Sparkles,
    Square,
    Terminal,
    WifiOff,
}

/// The icon of a background-settings tab.
#[derive(Clone, Copy, Debug, PartialEq, Eq, Structural)]
pub enum SettingsBackgroundTabIcon {
    Activity,
    ArrowLeftRight,
    Bell,
    Cloud,
    FolderInput,
    Gauge,
    ListTree,
    Monitor,
    Network,
    Puzzle,
    Rocket,
    Settings,
    Terminal,
}

/// The stable identifier of a tab.
pub open spec fn tab_id(t: SettingsTab) -> Seq<char> {
    match t {
        SettingsTab::General => "general"@,
        SettingsTab::Terminal => "terminal"@,
        SettingsTab::Appearance => "appearance"@,
        SettingsTab::Connections => "connections"@,
        SettingsTab::Network => "network"@,
        SettingsTab::Sftp => "sftp"@,
        SettingsTab::CloudSync => "cloud_sync"@,
        SettingsTab::SessionIO => "session_io"@,
        SettingsTab::Help => "help"@,
    }
}

/// The tab whose identifier is `id`, if any.
pub open spec fn tab_with_id(id: Seq<char>) -> Option<SettingsTab> {
    if id == "general"@ {
        Some(SettingsTab::General)
    } else if id == "appearance"@ {
        Some(SettingsTab::Appearance)
    } else if id == "terminal"@ {
        Some(SettingsTab::Terminal)
    } else if id == "connections"@ {
        Some(SettingsTab::Connections)
    } else if id == "network"@ {
        Some(SettingsTab::Network)
    } else if id == "sftp"@ {
        Some(SettingsTab::Sftp)
    } else if id == "cloud_sync"@ {
        Some(SettingsTab::CloudSync)
    } else if id == "session_io"@ {
        Some(SettingsTab::SessionIO)
    } else if id == "help"@ {
        Some(SettingsTab::Help)
    } else {
        None
    }
}

/// The navigation groups: application preferences, runtime behaviour,
/// remote access and productivity, then support.
pub open spec fn tab_groups() -> Seq<Seq<SettingsTab>> {
    seq![
        seq![SettingsTab::General, SettingsTab::Appearance],
        seq![SettingsTab::Terminal],
        seq![
            SettingsTab::Connections,
            SettingsTab::Network,
            SettingsTab::Sftp,
            SettingsTab::CloudSync,
            SettingsTab::SessionIO,
        ],
        seq![SettingsTab::Help],
    ]
}

/// The message key of a tab's navigation label.
pub open spec fn tab_label_key(t: SettingsTab) -> Seq<char> {
    match t {
        SettingsTab::General => "settings.general.title"@,
        SettingsTab::Terminal => "settings.terminal.title"@,
        SettingsTab::Appearance => "settings_view.tabs.appearance"@,
        SettingsTab::Connections => "settings_view.connections.keys_and_connections_title"@,
        SettingsTab::Network => "settings_view.tabs.network"@,
        SettingsTab::Sftp => "settings_view.tabs.sftp"@,
        SettingsTab::CloudSync => "settings_view.tabs.cloudsync"@,
        SettingsTab::SessionIO => "settings_view.tabs.sessionio"@,
        SettingsTab::Help => "settings_view.tabs.help"@,
    }
}

/// The message key of a tab's page title.
pub open spec fn tab_title_key(t: SettingsTab) -> Seq<char> {
    match t {
        SettingsTab::General => "settings_view.general.title"@,
        SettingsTab::Terminal => "settings_view.terminal.title"@,
        SettingsTab::Appearance => "settings_view.appearance.title"@,
        SettingsTab::Connections => "settings_view.connections.keys_and_connections_title"@,
        SettingsTab::Network => "settings_view.network.title"@,
        SettingsTab::Sftp => "settings_view.sftp.title"@,
        SettingsTab::CloudSync => "settings_view.general.cloudsync.title"@,
        SettingsTab::SessionIO => "settings_view.sessionio.title"@,
        SettingsTab::Help => "settings_view.help.title"@,
    }
}

/// The message key of a tab's page description.
pub open spec fn tab_description_key(t: SettingsTab) -> Seq<char> {
    match t {
        SettingsTab::General => "settings_view.general.description"@,
        SettingsTab::Terminal => "settings_view.terminal.description"@,
        SettingsTab::Appearance => "settings_view.appearance.description"@,
        SettingsTab::Connections => "settings_view.connections.keys_and_connections_description"@,
        SettingsTab::Network => "settings_view.network.description"@,
        SettingsTab::Sftp => "settings_view.sftp.description"@,
        SettingsTab::CloudSync => "settings_view.general.cloudsync.description"@,
        SettingsTab::SessionIO => "settings_view.sessionio.description"@,
        SettingsTab::Help => "settings_view.help.description"@,
    }
}

/// The icon of a tab.
pub open spec fn tab_icon(t: SettingsTab) -> SettingsTabIcon {
    match t {
        SettingsTab::General | SettingsTab::Appearance => SettingsTabIcon::Monitor,
        SettingsTab::Sftp => SettingsTabIcon::HardDrive,
        SettingsTab::Terminal => SettingsTabIcon::Terminal,
        SettingsTab::Connections => SettingsTabIcon::Shield,
        SettingsTab::Network => SettingsTabIcon::Network,
        SettingsTab::CloudSync => SettingsTabIcon::Sparkles,
        SettingsTab::SessionIO => SettingsTabIcon::Square,
        SettingsTab::Help => SettingsTabIcon::HelpCircle,
    }
}

impl SettingsTab {
    /// Every tab, in navigation order.
    pub fn all() -> (r: &'static [Self])
        ensures
            r@ == settings_tab_order(),
    {
        let r: &'static [Self] = &[
            Self::General,
            Self::Appearance,
            Self::Terminal,
            Self::Connections,
            Self::Network,
            Self::Sftp,
            Self::CloudSync,
            Self::SessionIO,
            Self::Help,
        ];
        assert(r@ =~= settings_tab_order());
        r
    }

    /// The stable identifier of the tab.
    pub fn id(self) -> (r: &'static str)
        ensures
            r@ == tab_id(self),
    {
        match self {
            Self::General => "general",
            Self::Terminal => "terminal",
            Self::Appearance => "appearance",
            Self::Connections => "connections",
            Self::Network => "network",
            Self::Sftp => "sftp",
            Self::CloudSync => "cloud_sync",
            Self::SessionIO => "session_io",
            Self::Help => "help",
        }
    }

    /// The first tab, in navigation order, whose identifier is `id`.
    pub fn from_id(id: &str) -> (r: Option<Self>)
        ensures
            r == tab_with_id(id@),
    {
        let tabs = Self::all();
        let mut i: usize = 0;
        while i < tabs.len()
            invariant
                tabs@ == settings_tab_order(),
                i <= tabs@.len(),
                forall|j: int| 0 <= j < i ==> tab_id(#[trigger] tabs@[j]) != id@,
            decreases tabs.len() - i,
        {
            let tab = tabs[i];
            if str_eq(tab.id(), id) {
                proof {
                    lemma_tab_ids_distinct();
                }
                return Some(tab);
            }
            i += 1;
        }
        proof {
            assert(forall|j: int| 0 <= j < 9 ==> tab_id(#[trigger] tabs@[j]) != id@);
            assert(tab_id(tabs@[0]) != id@);
            assert(tab_id(tabs@[1]) != id@);
            assert(tab_id(tabs@[2]) != id@);
            assert(tab_id(tabs@[3]) != id@);
            assert(tab_id(tabs@[4]) != id@);
            assert(tab_id(tabs@[5]) != id@);
            assert(tab_id(tabs@[6]) != id@);
            assert(tab_id(tabs@[7]) != id@);
            assert(tab_id(tabs@[8]) != id@);
        }
        None
    }

    /// The navigation groups of the tabs.
    pub fn groups() -> (r: &'static [&'static [Self]])
        ensures
            r@.len() == tab_groups().len(),
            forall|i: int| 0 <= i < r@.len() ==> (#[trigger] r@[i])@ == tab_groups()[i],
    {
        let r: &'static [&'static [Self]] = &[
            &[Self::General, Self::Appearance],
            &[Self::Terminal],
            &[Self::Connections, Self::Network, Self::Sftp, Self::CloudSync, Self::SessionIO],
            &[Self::Help],
        ];
        assert(r@[0]@ =~= tab_groups()[0]);
        assert(r@[1]@ =~= tab_groups()[1]);
        assert(r@[2]@ =~= tab_groups()[2]);
        assert(r@[3]@ =~= tab_groups()[3]);
        r
    }

    /// The message key of the tab's navigation label.
    pub fn label_key(self) -> (r: &'static str)
        ensures
            r@ == tab_label_key(self),
    {
        match self {
            Self::General => "settings.general.title",
            Self::Terminal => "settings.terminal.title",
            Self::Appearance => "settings_view.tabs.appearance",
            Self::Connections => "settings_view.connections.keys_and_connections_title",
            Self::Network => "settings_view.tabs.network",
            Self::Sftp => "settings_view.tabs.sftp",
            Self::CloudSync => "settings_view.tabs.cloudsync",
            Self::SessionIO => "settings_view.tabs.sessionio",
            Self::Help => "settings_view.tabs.help",
        }
    }

    /// The message key of the tab's page title.
    pub fn title_key(self) -> (r: &'static str)
        ensures
            r@ == tab_title_key(self),
    {
        match self {
            Self::General => "settings_view.general.title",
            Self::Terminal => "settings_view.terminal.title",
            Self::Appearance => "settings_view.appearance.title",
            Self::Connections => "settings_view.connections.keys_and_connections_title",
            Self::Network => "settings_view.network.title",
            Self::Sftp => "settings_view.sftp.title",
            Self::CloudSync => "settings_view.general.cloudsync.title",
            Self::SessionIO => "settings_view.sessionio.title",
            Self::Help => "settings_view.help.title",
        }
    }

    /// The message key of the tab's page description.
    pub fn description_key(self) -> (r: &'static str)
        ensures
            r@ == tab_description_key(self),
    {
        match self {
            Self::General => "settings_view.general.description",
            Self::Terminal => "settings_view.terminal.description",
            Self::Appearance => "settings_view.appearance.description",
            Self::Connections => "settings_view.connections.keys_and_connections_description",
            Self::Network => "settings_view.network.description",
            Self::Sftp => "settings_view.sftp.description",
            Self::CloudSync => "settings_view.general.cloudsync.description",
            Self::SessionIO => "settings_view.sessionio.description",
            Self::Help => "settings_view.help.description",
        }
    }

    /// The icon of the tab.
    pub fn icon(self) -> (r: SettingsTabIcon)
        ensures
            r == tab_icon(self),
    {
        match self {
            Self::General | Self::Appearance => SettingsTabIcon::Monitor,
            Self::Sftp => SettingsTabIcon::HardDrive,
            Self::Terminal => SettingsTabIcon::Terminal,
            Self::Connections => SettingsTabIcon::Shield,
            Self::Network => SettingsTabIcon::Network,
            Self::CloudSync => SettingsTabIcon::Sparkles,
            Self::SessionIO => SettingsTabIcon::Square,
            Self::Help => SettingsTabIcon::HelpCircle,
        }
    }
}

/// No two tabs share an identifier.
pub proof fn lemma_tab_ids_distinct()
    ensures
        forall|a: SettingsTab, b: SettingsTab| tab_id(a) == tab_id(b) ==> a == b,
{
    reveal_strlit("general");
    reveal_strlit("terminal");
    reveal_strlit("appearance");
    reveal_strlit("connections");
    reveal_strlit("network");
    reveal_strlit("sftp");
    reveal_strlit("cloud_sync");
    reveal_strlit("session_io");
    reveal_strlit("help");
    assert forall|a: SettingsTab, b: SettingsTab| tab_id(a) == tab_id(b) implies a == b by {
        if a != b {
            assert(tab_id(a).len() != tab_id(b).len() || tab_id(a)[0] != tab_id(b)[0]
                || tab_id(a)[1] != tab_id(b)[1]);
        }
    }
}

/// Looking a tab up by its own identifier gives the tab back.
pub proof fn lemma_tab_id_roundtrip(t: SettingsTab)
    ensures
        tab_with_id(tab_id(t)) == Some(t),
{
    lemma_tab_ids_distinct();
    assert(tab_id(SettingsTab::General) == "general"@);
    assert(tab_id(SettingsTab::Appearance) == "appearance"@);
    assert(tab_id(SettingsTab::Terminal) == "terminal"@);
    assert(tab_id(SettingsTab::Connections) == "connections"@);
    assert(tab_id(SettingsTab::Network) == "network"@);
    assert(tab_id(SettingsTab::Sftp) == "sftp"@);
    assert(tab_id(SettingsTab::CloudSync) == "cloud_sync"@);
    assert(tab_id(SettingsTab::SessionIO) == "session_io"@);
}


/// A drop-down control of the settings pages.
#[derive(Clone, Copy, Debug, PartialEq, Eq, Structural)]
pub enum SettingsSelect {
    Language,
    UpdateChannel,
    UpdateProxyMode,
    UpdateProxyProtocol,
    AppearanceTheme,
    AppearanceDensity,
    AppearanceAnimation,
    AppearanceRenderProfile,
    AppearanceFrostedGlass,
    AppearanceBackgroundFit,
    TerminalFontFamily,
    TerminalCjkFontFamily,
    TerminalEncoding,
    TerminalBackspaceSequence,
    TerminalDeleteSequence,
    TerminalCursorStyle,
    TerminalTriggerMatchMode,
    TerminalTriggerAction,
    TerminalTriggerProcessMode,
    TerminalTriggerQuickCommand,
    TerminalTriggerTiming,
    TerminalTriggerScope,
    CloudSyncMode,
    LocalShell,
    LocalShellSemanticScheme(usize),
    ConnectionIdleTimeout,
    ReconnectMaxAttempts,
    ReconnectBaseDelay,
    ReconnectMaxDelay,
    NetworkApplicationProxyMode,
    NetworkProxyProtocol,
    NetworkProxyAuth,
    SftpPresentation,
    SftpProtocol,
    SftpConcurrent,
    SftpDirectoryParallelism,
    SftpConflict,
    TerminalSemanticScheme,
    SemanticSchemeRuleClass(usize),
    SemanticSchemeRuleContext(usize),
    HighlightRuleSet,
    HighlightPreset,
    HighlightRenderMode(usize),
    HighlightMatchScope(usize),
    ConnectionImportSource,
    ConnectionImportDuplicateStrategy,
    SessionExportFormat,
}

/// An editable field of the settings pages.
#[derive(Clone, Copy, Debug, PartialEq, Eq, Hash, Structural)]
pub enum SettingsInput {
    SettingsSearch,
    TerminalCustomFontFamily,
    TerminalFontSize,
    TerminalScrollback,
    TerminalLineHeight,
    AppearanceUiFont,
    LocalDefaultCwd,
    LocalGitBashPath,
    LocalOhMyPoshTheme,
    ConnectionDefaultUsername,
    ConnectionDefaultPort,
    ConnectionImportTargetGroup,
    ExternalEditorPath,
    CloudSyncServerUrl,
    CloudSyncRoom,
    NetworkProxyHost,
    NetworkProxyPort,
    NetworkProxyNoProxy,
    NetworkProxyUsername,
    NetworkProxyPassword,
    NetworkProxyTestHost,
    NetworkProxyTestPort,
    PublicMcpPort,
    UpdateProxyHost,
    UpdateProxyPort,
    UpdateProxyNoProxy,
    SftpSpeedLimitKbps,
    InBandTransferMaxChunkBytes,
    InBandTransferMaxFileCount,
    InBandTransferMaxTotalBytes,
    TerminalCommandBarFocusHandoff,
    TerminalCommandSpecsJson,
    TerminalTriggerName,
    TerminalTriggerDescription,
    TerminalTriggerPattern,
    TerminalTriggerActionValue,
    TerminalTriggerExecutable,
    TerminalTriggerArguments,
    TerminalTriggerWorkingDirectory,
    TerminalTriggerDelayMs,
    TerminalTriggerCooldownMs,
    SemanticSchemeName,
    SemanticSchemeRulePattern(usize),
    SemanticSchemeRuleCapture(usize),
    SemanticSchemeColor(usize),
    HighlightRuleSetName,
    HighlightLabel(usize),
    HighlightPattern(usize),
    HighlightForeground(usize),
    HighlightBackground(usize),
    ManagedKeyFilePath,
    ManagedKeyFileName,
    ManagedKeyFilePassphrase,
    ManagedKeyPasteName,
    ManagedKeyPastePrivateKey,
    ManagedKeyPastePassphrase,
    ManagedKeyRenameName,
}

/// A slider of the settings pages.
#[derive(Clone, Copy, Debug, PartialEq, Eq, Structural)]
pub enum SettingsSlider {
    TerminalFontSize,
    AppearanceUiFontSize,
    AppearanceBorderRadius,
    OnboardingBorderRadius,
    VersionMigrationBorderRadius,
    AppearanceWindowOpacity,
    AppearanceBackgroundOpacity,
    AppearanceBackgroundBlur,
}

/// Fields edited as multi-line text.
pub open spec fn input_accepts_newline(i: SettingsInput) -> bool {
    matches!(
        i,
        SettingsInput::TerminalCommandBarFocusHandoff | SettingsInput::TerminalCommandSpecsJson
            | SettingsInput::TerminalTriggerArguments | SettingsInput::ManagedKeyPastePrivateKey
    )
}

/// Fields whose content is masked.
pub open spec fn input_is_secret(i: SettingsInput) -> bool {
    matches!(
        i,
        SettingsInput::ManagedKeyFilePassphrase | SettingsInput::ManagedKeyPastePrivateKey
            | SettingsInput::ManagedKeyPastePassphrase | SettingsInput::NetworkProxyPassword
    )
}

/// The anchor key of a field; indexed fields are offset by their index.
pub open spec fn input_anchor_key(i: SettingsInput) -> int {
    match i {
        SettingsInput::SettingsSearch => SETTINGS_SEARCH_INPUT_ANCHOR_KEY as int,
        SettingsInput::TerminalCustomFontFamily => 19,
        SettingsInput::TerminalFontSize => 1,
        SettingsInput::TerminalScrollback => 33_000,
        SettingsInput::TerminalLineHeight => 2,
        SettingsInput::AppearanceUiFont => 5,
        SettingsInput::LocalDefaultCwd => 6,
        SettingsInput::LocalGitBashPath => 7,
        SettingsInput::LocalOhMyPoshTheme => 8,
        SettingsInput::ExternalEditorPath => 31_004,
        SettingsInput::CloudSyncServerUrl => 35_000,
        SettingsInput::CloudSyncRoom => 35_001,
        SettingsInput::ConnectionDefaultUsername => 9,
        SettingsInput::ConnectionDefaultPort => 10,
        SettingsInput::ConnectionImportTargetGroup => 20,
        SettingsInput::NetworkProxyHost => 32_000,
        SettingsInput::NetworkProxyPort => 32_001,
        SettingsInput::NetworkProxyNoProxy => 32_002,
        SettingsInput::NetworkProxyUsername => 32_003,
        SettingsInput::NetworkProxyPassword => 32_004,
        SettingsInput::NetworkProxyTestHost => 32_005,
        SettingsInput::NetworkProxyTestPort => 32_006,
        SettingsInput::PublicMcpPort => 32_007,
        SettingsInput::UpdateProxyHost => 32_100,
        SettingsInput::UpdateProxyPort => 32_101,
        SettingsInput::UpdateProxyNoProxy => 32_102,
        SettingsInput::SftpSpeedLimitKbps => 12,
        SettingsInput::InBandTransferMaxChunkBytes => 13,
        SettingsInput::InBandTransferMaxFileCount => 14,
        SettingsInput::InBandTransferMaxTotalBytes => 15,
        SettingsInput::TerminalCommandBarFocusHandoff => 16,
        SettingsInput::TerminalCommandSpecsJson => 17,
        SettingsInput::TerminalTriggerName => 33_100,
        SettingsInput::TerminalTriggerDescription => 33_101,
        SettingsInput::TerminalTriggerPattern => 33_102,
        SettingsInput::TerminalTriggerActionValue => 33_103,
        SettingsInput::TerminalTriggerExecutable => 33_104,
        SettingsInput::TerminalTriggerArguments => 33_105,
        SettingsInput::TerminalTriggerWorkingDirectory => 33_106,
        SettingsInput::TerminalTriggerDelayMs => 33_107,
        SettingsInput::TerminalTriggerCooldownMs => 33_108,
        SettingsInput::SemanticSchemeName => 10_300,
        SettingsInput::HighlightRuleSetName => 10_700,
        SettingsInput::ManagedKeyFilePath => 30_000,
        SettingsInput::ManagedKeyFileName => 30_001,
        SettingsInput::ManagedKeyFilePassphrase => 30_002,
        SettingsInput::ManagedKeyPasteName => 30_003,
        SettingsInput::ManagedKeyPastePrivateKey => 30_004,
        SettingsInput::ManagedKeyPastePassphrase => 30_005,
        SettingsInput::ManagedKeyRenameName => 30_006,
        SettingsInput::SemanticSchemeRulePattern(index) => 10_400 + index,
        SettingsInput::SemanticSchemeRuleCapture(index) => 10_500 + index,
        SettingsInput::SemanticSchemeColor(index) => 10_600 + index,
        SettingsInput::HighlightLabel(index) => 100 + index * 4,
        SettingsInput::HighlightPattern(index) => 101 + index * 4,
        SettingsInput::HighlightForeground(index) => 102 + index * 4,
        SettingsInput::HighlightBackground(index) => 103 + index * 4,
    }
}

impl SettingsInput {
    /// Whether the field is edited as multi-line text.
    pub fn accepts_newline(self) -> (r: bool)
        ensures
            r == input_accepts_newline(self),
    {
        matches!(
            self,
            Self::TerminalCommandBarFocusHandoff | Self::TerminalCommandSpecsJson
                | Self::TerminalTriggerArguments | Self::ManagedKeyPastePrivateKey
        )
    }

    /// The anchor key of the field.
    pub fn anchor_key(self) -> (r: u64)
        requires
            input_anchor_key(self) <= u64::MAX,
        ensures
            r == input_anchor_key(self),
    {
        match self {
            Self::SettingsSearch => SETTINGS_SEARCH_INPUT_ANCHOR_KEY,
            Self::TerminalCustomFontFamily => 19,
            Self::TerminalFontSize => 1,
            Self::TerminalScrollback => 33_000,
            Self::TerminalLineHeight => 2,
            Self::AppearanceUiFont => 5,
            Self::LocalDefaultCwd => 6,
            Self::LocalGitBashPath => 7,
            Self::LocalOhMyPoshTheme => 8,
            Self::ExternalEditorPath => 31_004,
            Self::CloudSyncServerUrl => 35_000,
            Self::CloudSyncRoom => 35_001,
            Self::ConnectionDefaultUsername => 9,
            Self::ConnectionDefaultPort => 10,
            Self::ConnectionImportTargetGroup => 20,
            Self::NetworkProxyHost => 32_000,
            Self::NetworkProxyPort => 32_001,
            Self::NetworkProxyNoProxy => 32_002,
            Self::NetworkProxyUsername => 32_003,
            Self::NetworkProxyPassword => 32_004,
            Self::NetworkProxyTestHost => 32_005,
            Self::NetworkProxyTestPort => 32_006,
            Self::PublicMcpPort => 32_007,
            Self::UpdateProxyHost => 32_100,
            Self::UpdateProxyPort => 32_101,
            Self::UpdateProxyNoProxy => 32_102,
            Self::SftpSpeedLimitKbps => 12,
            Self::InBandTransferMaxChunkBytes => 13,
            Self::InBandTransferMaxFileCount => 14,
            Self::InBandTransferMaxTotalBytes => 15,
            Self::TerminalCommandBarFocusHandoff => 16,
            Self::TerminalCommandSpecsJson => 17,
            Self::TerminalTriggerName => 33_100,
            Self::TerminalTriggerDescription => 33_101,
            Self::TerminalTriggerPattern => 33_102,
            Self::TerminalTriggerActionValue => 33_103,
            Self::TerminalTriggerExecutable => 33_104,
            Self::TerminalTriggerArguments => 33_105,
            Self::TerminalTriggerWorkingDirectory => 33_106,
            Self::TerminalTriggerDelayMs => 33_107,
            Self::TerminalTriggerCooldownMs => 33_108,
            Self::SemanticSchemeName => 10_300,
            Self::HighlightRuleSetName => 10_700,
            Self::ManagedKeyFilePath => 30_000,
            Self::ManagedKeyFileName => 30_001,
            Self::ManagedKeyFilePassphrase => 30_002,
            Self::ManagedKeyPasteName => 30_003,
            Self::ManagedKeyPastePrivateKey => 30_004,
            Self::ManagedKeyPastePassphrase => 30_005,
            Self::ManagedKeyRenameName => 30_006,
            Self::SemanticSchemeRulePattern(index) => 10_400 + index as u64,
            Self::SemanticSchemeRuleCapture(index) => 10_500 + index as u64,
            Self::SemanticSchemeColor(index) => 10_600 + index as u64,
            Self::HighlightLabel(index) => 100 + index as u64 * 4,
            Self::HighlightPattern(index) => 101 + index as u64 * 4,
            Self::HighlightForeground(index) => 102 + index as u64 * 4,
            Self::HighlightBackground(index) => 103 + index as u64 * 4,
        }
    }

    /// Whether the field's content is masked.
    pub fn is_secret(self) -> (r: bool)
        ensures
            r == input_is_secret(self),
    {
        matches!(
            self,
            Self::ManagedKeyFilePassphrase | Self::ManagedKeyPastePrivateKey
                | Self::ManagedKeyPastePassphrase | Self::NetworkProxyPassword
        )
    }
}

/// Fields that carry an index.
pub open spec fn input_is_indexed(i: SettingsInput) -> bool {
    matches!(
        i,
        SettingsInput::SemanticSchemeRulePattern(_) | SettingsInput::SemanticSchemeRuleCapture(_)
            | SettingsInput::SemanticSchemeColor(_) | SettingsInput::HighlightLabel(_)
            | SettingsInput::HighlightPattern(_) | SettingsInput::HighlightForeground(_)
            | SettingsInput::HighlightBackground(_)
    )
}

/// Fields without an index each have an anchor key of their own.
pub proof fn lemma_fixed_anchor_keys_distinct(a: SettingsInput, b: SettingsInput)
    requires
        !input_is_indexed(a),
        !input_is_indexed(b),
    ensures
        input_anchor_key(a) == input_anchor_key(b) ==> a == b,
{
}

/// The four highlight fields of one rule, and the same field of two rules,
/// never share an anchor key.
pub proof fn lemma_highlight_anchor_keys_distinct(a: SettingsInput, b: SettingsInput)
    requires
        matches!(a, SettingsInput::HighlightLabel(_) | SettingsInput::HighlightPattern(_)
            | SettingsInput::HighlightForeground(_) | SettingsInput::HighlightBackground(_)),
        matches!(b, SettingsInput::HighlightLabel(_) | SettingsInput::HighlightPattern(_)
            | SettingsInput::HighlightForeground(_) | SettingsInput::HighlightBackground(_)),
    ensures
        input_anchor_key(a) == input_anchor_key(b) ==> a == b,
{
}

}

//! Workspace shell decisions: sidebar sections and their persisted keys,
//! session readiness transitions, runtime row claiming, terminal command-bar
//! labels and settings navigation.
use vstd::prelude::*;

use crate::i18n::I18n;
use crate::settings_model::SettingsTab;
use crate::text::{
    chars_of, contains_char, extend_chars, extend_str, has_prefix, has_suffix, joined,
    keep_non_empty, non_empty, radix_digits, radix_string, replace, replace_all,
    split_char, split_on, starts_with, str_eq, string_from_chars, trim, trim_ws,
};

verus! {

// ---------------------------------------------------------------------------
// Sidebar sections
// ---------------------------------------------------------------------------

/// An entry of the activity bar; all but `Sessions` are tab-only entries
/// that show the Sessions sidebar body.
#[derive(Clone, Copy, Debug, PartialEq, Eq, Structural)]
pub enum SidebarSection {
    Sessions,
    Connections,
    HostTools,
    Automation,
    Workspace,
    Monitor,
    Settings,
}

/// A panel of the context sidebar.
#[derive(Clone, Copy, Debug, PartialEq, Eq, Structural)]
pub enum ContextSidebarPanel {
    HostTools,
}

/// The section a persisted key restores; retired keys restore the active
/// session navigator or the Host Tools replacement, unknown keys the navigator.
pub open spec fn section_for_key(key: Seq<char>) -> SidebarSection {
    if key == "connection_monitor"@ || key == "activity"@ || key == "host_tools"@ {
        SidebarSection::HostTools
    } else if key == "automation"@ {
        SidebarSection::Automation
    } else if key == "workspace"@ {
        SidebarSection::Workspace
    } else if key == "monitor"@ {
        SidebarSection::Monitor
    } else if key == "settings"@ {
        SidebarSection::Settings
    } else {
        SidebarSection::Sessions
    }
}

/// The persisted key of a section.
pub open spec fn section_key(s: SidebarSection) -> Seq<char> {
    match s {
        SidebarSection::Sessions => "sessions"@,
        SidebarSection::Connections => "saved"@,
        SidebarSection::HostTools => "host_tools"@,
        SidebarSection::Automation => "automation"@,
        SidebarSection::Workspace => "workspace"@,
        SidebarSection::Monitor => "monitor"@,
        SidebarSection::Settings => "settings"@,
    }
}

impl SidebarSection {
    /// The section a persisted sidebar key restores.
    pub fn from_settings_key(key: &str) -> (r: Self)
        ensures
            r == section_for_key(key@),
    {
        if str_eq(key, "connection_monitor") || str_eq(key, "activity") || str_eq(key, "host_tools") {
            Self::HostTools
        } else if str_eq(key, "automation") {
            Self::Automation
        } else if str_eq(key, "workspace") {
            Self::Workspace
        } else if str_eq(key, "monitor") {
            Self::Monitor
        } else if str_eq(key, "settings") {
            Self::Settings
        } else {
            Self::Sessions
        }
    }

    /// The key under which the section is persisted.
    pub fn as_settings_key(self) -> (r: &'static str)
        ensures
            r@ == section_key(self),
    {
        match self {
            Self::Sessions => "sessions",
            Self::Connections => "saved",
            Self::HostTools => "host_tools",
            Self::Automation => "automation",
            Self::Workspace => "workspace",
            Self::Monitor => "monitor",
            Self::Settings => "settings",
        }
    }
}

/// The section whose body the primary sidebar shows: tab-only entries keep
/// the Sessions body.
pub fn effective_sidebar_panel_section(active: SidebarSection) -> (r: SidebarSection)
    ensures
        r == SidebarSection::Sessions,
{
    match active {
        SidebarSection::Sessions => active,
        SidebarSection::Connections | SidebarSection::HostTools | SidebarSection::Automation
        | SidebarSection::Workspace | SidebarSection::Monitor | SidebarSection::Settings => {
            SidebarSection::Sessions
        },
    }
}

/// Every section other than the saved-connections entry reads back from its
/// own persisted key; that entry's key restores the Sessions navigator.
pub proof fn lemma_section_key_roundtrip(s: SidebarSection)
    ensures
        s != SidebarSection::Connections ==> section_for_key(section_key(s)) == s,
        s == SidebarSection::Connections ==> section_for_key(section_key(s))
            == SidebarSection::Sessions,
{
    reveal_strlit("sessions");
    reveal_strlit("saved");
    reveal_strlit("host_tools");
    reveal_strlit("automation");
    reveal_strlit("workspace");
    reveal_strlit("monitor");
    reveal_strlit("settings");
    reveal_strlit("connection_monitor");
    reveal_strlit("activity");
    assert("sessions"@.len() == 8);
    assert("saved"@.len() == 5);
    assert("host_tools"@.len() == 10);
    assert("automation"@.len() == 10);
    assert("workspace"@.len() == 9);
    assert("monitor"@.len() == 7);
    assert("settings"@.len() == 8);
    assert("connection_monitor"@.len() == 18);
    assert("activity"@.len() == 8);
    assert("sessions"@[2] != "settings"@[2]);
    assert("sessions"@[0] != "activity"@[0]);
    assert("host_tools"@[0] != "automation"@[0]);
    assert("settings"@[0] != "activity"@[0]);
}

/// The message key of an activity-bar entry's tooltip; on macOS the
/// monitor entry opens the launcher.
pub open spec fn activity_tooltip_key(section: SidebarSection, macos: bool) -> Seq<char> {
    match section {
        SidebarSection::Sessions => "sidebar.panels.sessions"@,
        SidebarSection::Connections => "sidebar.panels.open_session_manager"@,
        SidebarSection::HostTools => "sidebar.panels.host_tools"@,
        SidebarSection::Automation => "sidebar.panels.activity"@,
        SidebarSection::Workspace => "sidebar.actions.new_local_terminal"@,
        SidebarSection::Monitor => if macos {
            "launcher.tabTitle"@
        } else {
            "sidebar.panels.connection_monitor"@
        },
        SidebarSection::Settings => "sidebar.tooltips.settings"@,
    }
}

/// The tooltip of an activity-bar entry.
pub fn activity_icon_tooltip(i18n: &I18n, section: SidebarSection, macos: bool) -> (r: String)
    requires
        i18n.well_formed(),
    ensures
        r@ == i18n.text_of(activity_tooltip_key(section, macos)),
{
    let key = match section {
        SidebarSection::Sessions => "sidebar.panels.sessions",
        SidebarSection::Connections => "sidebar.panels.open_session_manager",
        SidebarSection::HostTools => "sidebar.panels.host_tools",
        SidebarSection::Automation => "sidebar.panels.activity",
        SidebarSection::Workspace => "sidebar.actions.new_local_terminal",
        SidebarSection::Monitor => if macos {
            "launcher.tabTitle"
        } else {
            "sidebar.panels.connection_monitor"
        },
        SidebarSection::Settings => "sidebar.tooltips.settings",
    };
    i18n.t(key)
}

/// Clicking the visible context panel collapses the context sidebar.
pub fn should_collapse_context_sidebar_panel(
    sidebar_visible: bool,
    active_panel: ContextSidebarPanel,
    requested_panel: ContextSidebarPanel,
) -> (r: bool)
    ensures
        r == (sidebar_visible && active_panel == requested_panel),
{
    sidebar_visible && active_panel == requested_panel
}

/// Clicking the section the open primary sidebar shows collapses it.
pub fn should_collapse_primary_sidebar_section(
    sidebar_collapsed: bool,
    visible_section: SidebarSection,
    requested_section: SidebarSection,
) -> (r: bool)
    ensures
        r == (!sidebar_collapsed && visible_section == requested_section),
{
    !sidebar_collapsed && visible_section == requested_section
}

/// The context sidebar shows unless the shell is collapsed or in zen mode.
pub fn context_sidebar_panel_visible(sidebar_collapsed: bool, zen_mode: bool) -> (r: bool)
    ensures
        r == !(sidebar_collapsed || zen_mode),
{
    !(sidebar_collapsed || zen_mode)
}

// ---------------------------------------------------------------------------
// Session readiness
// ---------------------------------------------------------------------------

/// The connection state of an SSH node.
#[derive(Clone, Copy, Debug, PartialEq, Eq, Structural)]
pub enum NodeReadiness {
    Connecting,
    Ready,
    Error,
    Disconnected,
}

/// The state an active-session row shows.
#[derive(Clone, Copy, Debug, PartialEq, Eq, Structural)]
pub enum ActiveSessionReadiness {
    Connecting,
    Ready,
    Error,
    Disconnected,
}

/// A failed or disconnected node.
pub open spec fn is_unavailable(r: NodeReadiness) -> bool {
    r == NodeReadiness::Error || r == NodeReadiness::Disconnected
}

/// The previous state, by value.
pub open spec fn previous_state(previous: Option<&NodeReadiness>) -> Option<NodeReadiness> {
    match previous {
        Some(p) => Some(*p),
        None => None,
    }
}

/// The node is ready now and was not before.
pub open spec fn became_ready(previous: Option<NodeReadiness>, current: NodeReadiness) -> bool {
    previous != Some(NodeReadiness::Ready) && current == NodeReadiness::Ready
}

/// The node failed or disconnected now and was in neither state before.
pub open spec fn became_unavailable(previous: Option<NodeReadiness>, current: NodeReadiness) -> bool {
    !(previous matches Some(p) && is_unavailable(p)) && is_unavailable(current)
}

/// The node has just become ready: it is ready now and was not before.
pub fn node_readiness_became_ready(previous: Option<&NodeReadiness>, current: &NodeReadiness) -> (r: bool)
    ensures
        r == became_ready(previous_state(previous), *current),
{
    let was_ready = match previous {
        Some(NodeReadiness::Ready) => true,
        _ => false,
    };
    !was_ready && matches!(current, NodeReadiness::Ready)
}

/// The node has just become unavailable: it failed or disconnected now and
/// was in neither state before.
pub fn node_readiness_became_unavailable(previous: Option<&NodeReadiness>, current: &NodeReadiness) -> (r: bool)
    ensures
        r == became_unavailable(previous_state(previous), *current),
{
    let was_unavailable = match previous {
        Some(NodeReadiness::Error) | Some(NodeReadiness::Disconnected) => true,
        _ => false,
    };
    !was_unavailable && matches!(current, NodeReadiness::Error | NodeReadiness::Disconnected)
}

/// Transitions fire once: observing the same state again is no transition,
/// and no observation is both a ready and an unavailable transition.
pub proof fn lemma_readiness_transitions_fire_once(previous: Option<NodeReadiness>, current: NodeReadiness)
    ensures
        !became_ready(Some(current), current),
        !became_unavailable(Some(current), current),
        !(became_ready(previous, current) && became_unavailable(previous, current)),
{
}

/// A child node restarts in a reconnect cascade when it failed or is still
/// connecting; children the user disconnected stay down.
pub fn reconnect_cascade_child_should_start(readiness: &NodeReadiness) -> (r: bool)
    ensures
        r == (*readiness == NodeReadiness::Error || *readiness == NodeReadiness::Connecting),
{
    matches!(readiness, NodeReadiness::Error | NodeReadiness::Connecting)
}

/// The row state of a node state.
pub open spec fn row_readiness(r: NodeReadiness) -> ActiveSessionReadiness {
    match r {
        NodeReadiness::Ready => ActiveSessionReadiness::Ready,
        NodeReadiness::Connecting => ActiveSessionReadiness::Connecting,
        NodeReadiness::Error => ActiveSessionReadiness::Error,
        NodeReadiness::Disconnected => ActiveSessionReadiness::Disconnected,
    }
}

/// The row state of an SSH node.
pub fn active_session_readiness(readiness: &NodeReadiness) -> (r: ActiveSessionReadiness)
    ensures
        r == row_readiness(*readiness),
{
    match readiness {
        NodeReadiness::Ready => ActiveSessionReadiness::Ready,
        NodeReadiness::Connecting => ActiveSessionReadiness::Connecting,
        NodeReadiness::Error => ActiveSessionReadiness::Error,
        NodeReadiness::Disconnected => ActiveSessionReadiness::Disconnected,
    }
}

/// The state of a remote desktop session.
#[derive(Clone, Copy, Debug, PartialEq, Eq, Structural)]
pub enum RemoteDesktopSessionStatus {
    Idle,
    Connecting,
    Connected,
    Reconnecting,
    Failed,
    Disconnected,
}

/// The row state of a remote desktop session.
pub fn remote_desktop_readiness(status: RemoteDesktopSessionStatus) -> (r: ActiveSessionReadiness)
    ensures
        r == match status {
            RemoteDesktopSessionStatus::Connected => ActiveSessionReadiness::Ready,
            RemoteDesktopSessionStatus::Connecting | RemoteDesktopSessionStatus::Reconnecting => {
                ActiveSessionReadiness::Connecting
            },
            RemoteDesktopSessionStatus::Failed => ActiveSessionReadiness::Error,
            RemoteDesktopSessionStatus::Idle | RemoteDesktopSessionStatus::Disconnected => {
                ActiveSessionReadiness::Disconnected
            },
        },
{
    match status {
        RemoteDesktopSessionStatus::Connected => ActiveSessionReadiness::Ready,
        RemoteDesktopSessionStatus::Connecting | RemoteDesktopSessionStatus::Reconnecting => {
            ActiveSessionReadiness::Connecting
        },
        RemoteDesktopSessionStatus::Failed => ActiveSessionReadiness::Error,
        RemoteDesktopSessionStatus::Idle | RemoteDesktopSessionStatus::Disconnected => {
            ActiveSessionReadiness::Disconnected
        },
    }
}

/// The kind of a session listed on its own, outside the SSH node tree.
#[derive(Clone, Copy, Debug, PartialEq, Eq, Structural)]
pub enum StandaloneActiveSessionKind {
    Telnet,
    Serial,
    Rdp,
    Vnc,
}

/// The kind of a terminal session.
#[derive(Clone, Copy, Debug, PartialEq, Eq, Structural)]
pub enum TerminalSessionKind {
    LocalPty,
    SshPty,
    Telnet,
    Serial,
}

/// The protocol of a remote desktop session.
#[derive(Clone, Copy, Debug, PartialEq, Eq, Structural)]
pub enum RemoteDesktopProtocol {
    Rdp,
    Vnc,
}

/// Telnet and serial terminals are listed on their own; local and SSH
/// terminals are not.
pub fn standalone_terminal_kind(kind: TerminalSessionKind) -> (r: Option<StandaloneActiveSessionKind>)
    ensures
        r == match kind {
            TerminalSessionKind::Telnet => Some(StandaloneActiveSessionKind::Telnet),
            TerminalSessionKind::Serial => Some(StandaloneActiveSessionKind::Serial),
            _ => None::<StandaloneActiveSessionKind>,
        },
{
    match kind {
        TerminalSessionKind::Telnet => Some(StandaloneActiveSessionKind::Telnet),
        TerminalSessionKind::Serial => Some(StandaloneActiveSessionKind::Serial),
        TerminalSessionKind::LocalPty | TerminalSessionKind::SshPty => None,
    }
}

/// The standalone kind of a remote desktop session.
pub fn standalone_remote_desktop_kind(protocol: RemoteDesktopProtocol) -> (r: StandaloneActiveSessionKind)
    ensures
        r == match protocol {
            RemoteDesktopProtocol::Rdp => StandaloneActiveSessionKind::Rdp,
            RemoteDesktopProtocol::Vnc => StandaloneActiveSessionKind::Vnc,
        },
{
    match protocol {
        RemoteDesktopProtocol::Rdp => StandaloneActiveSessionKind::Rdp,
        RemoteDesktopProtocol::Vnc => StandaloneActiveSessionKind::Vnc,
    }
}

/// A standalone session row takes focus on a double click.
pub fn standalone_session_click_should_focus(click_count: usize) -> (r: bool)
    ensures
        r == (click_count >= 2),
{
    click_count >= 2
}


// ---------------------------------------------------------------------------
// Runtime rows claimed by saved connections
// ---------------------------------------------------------------------------

/// The first index below `n` satisfying `p`.
pub open spec fn first_index(n: nat, p: spec_fn(int) -> bool) -> Option<int>
    decreases n,
{
    if n == 0 {
        None
    } else {
        match first_index((n - 1) as nat, p) {
            Some(i) => Some(i),
            None => if p(n - 1) {
                Some(n - 1)
            } else {
                None
            },
        }
    }
}

/// A first index satisfies the predicate, and no earlier index does.
proof fn lemma_first_index(n: nat, p: spec_fn(int) -> bool)
    ensures
        match first_index(n, p) {
            Some(i) => 0 <= i < n && p(i) && forall|j: int| 0 <= j < i ==> !#[trigger] p(j),
            None => forall|j: int| 0 <= j < n ==> !#[trigger] p(j),
        },
    decreases n,
{
    if n > 0 {
        lemma_first_index((n - 1) as nat, p);
    }
}

/// A first index found among the first `k` stays the first among more.
pub proof fn lemma_first_index_prefix(k: nat, m: nat, p: spec_fn(int) -> bool)
    requires
        k <= m,
        first_index(k, p) is Some,
    ensures
        first_index(m, p) == first_index(k, p),
    decreases m - k,
{
    if k < m {
        lemma_first_index_prefix(k, (m - 1) as nat, p);
    }
}

/// The identity of a live session row that a saved connection may claim.
#[derive(Clone, Debug)]
pub struct RuntimeRowClaimIdentity {
    pub saved_connection_id: Option<String>,
    pub host: String,
    pub username: String,
    pub port: u16,
}

/// The content of a `RuntimeRowClaimIdentity`.
pub ghost struct RuntimeRowView {
    pub saved_connection_id: Option<Seq<char>>,
    pub host: Seq<char>,
    pub username: Seq<char>,
    pub port: u16,
}

impl View for RuntimeRowClaimIdentity {
    type V = RuntimeRowView;

    open spec fn view(&self) -> RuntimeRowView {
        RuntimeRowView {
            saved_connection_id: match self.saved_connection_id {
                Some(id) => Some(id@),
                None => None,
            },
            host: self.host@,
            username: self.username@,
            port: self.port,
        }
    }
}

/// The endpoint of a saved connection.
#[derive(Clone, Debug)]
pub struct SavedConnectionEndpoint {
    pub id: String,
    pub host: String,
    pub port: u16,
    pub username: String,
}

/// The rows as views.
pub open spec fn row_views(rows: Seq<RuntimeRowClaimIdentity>) -> Seq<RuntimeRowView> {
    rows.map_values(|r: RuntimeRowClaimIdentity| r@)
}

/// Row `i` is free and owned by the saved connection `id`.
pub open spec fn owned_by(rows: Seq<RuntimeRowView>, consumed: Seq<bool>, id: Seq<char>, i: int) -> bool {
    !consumed[i] && rows[i].saved_connection_id == Some(id)
}

/// Row `i` is free, has no saved owner, and has the connection's endpoint.
pub open spec fn same_endpoint(
    rows: Seq<RuntimeRowView>,
    consumed: Seq<bool>,
    host: Seq<char>,
    port: u16,
    username: Seq<char>,
    i: int,
) -> bool {
    &&& !consumed[i]
    &&& rows[i].saved_connection_id is None
    &&& rows[i].host.len() > 0
    &&& rows[i].host == host
    &&& rows[i].port == port
    &&& rows[i].username == username
}

/// The predicate "row is free and owned by `id`".
pub open spec fn owned_pred(rows: Seq<RuntimeRowView>, consumed: Seq<bool>, id: Seq<char>) -> spec_fn(int) -> bool {
    |i: int| owned_by(rows, consumed, id, i)
}

/// The predicate "row is a free ad-hoc row with this endpoint".
pub open spec fn endpoint_pred(
    rows: Seq<RuntimeRowView>,
    consumed: Seq<bool>,
    host: Seq<char>,
    port: u16,
    username: Seq<char>,
) -> spec_fn(int) -> bool {
    |i: int| same_endpoint(rows, consumed, host, port, username, i)
}

/// The row a saved connection claims: the first free row it owns, else the
/// first free ad-hoc row with its endpoint.
pub open spec fn claimed_row(
    rows: Seq<RuntimeRowView>,
    consumed: Seq<bool>,
    id: Seq<char>,
    host: Seq<char>,
    port: u16,
    username: Seq<char>,
) -> Option<int> {
    match first_index(rows.len(), owned_pred(rows, consumed, id)) {
        Some(i) => Some(i),
        None => first_index(rows.len(), endpoint_pred(rows, consumed, host, port, username)),
    }
}

/// A saved connection only claims a free row that it owns or that no saved
/// connection owns: a row owned by another saved id never lends it its
/// identity, and an owned row is preferred to any endpoint match.
pub proof fn lemma_claimed_row_is_never_foreign(
    rows: Seq<RuntimeRowView>,
    consumed: Seq<bool>,
    id: Seq<char>,
    host: Seq<char>,
    port: u16,
    username: Seq<char>,
)
    requires
        consumed.len() >= rows.len(),
    ensures
        claimed_row(rows, consumed, id, host, port, username) matches Some(i) ==> {
            &&& 0 <= i < rows.len()
            &&& !consumed[i]
            &&& (rows[i].saved_connection_id == Some(id) || (rows[i].saved_connection_id is None
                && rows[i].host == host && rows[i].port == port && rows[i].username == username))
        },
        (exists|k: int| 0 <= k < rows.len() && owned_by(rows, consumed, id, k)) ==> (claimed_row(
            rows,
            consumed,
            id,
            host,
            port,
            username,
        ) matches Some(i) && rows[i].saved_connection_id == Some(id)),
{
    let owned = owned_pred(rows, consumed, id);
    let endpoint = endpoint_pred(rows, consumed, host, port, username);
    lemma_first_index(rows.len(), owned);
    lemma_first_index(rows.len(), endpoint);
    if exists|k: int| 0 <= k < rows.len() && owned_by(rows, consumed, id, k) {
        let k = choose|k: int| 0 <= k < rows.len() && owned_by(rows, consumed, id, k);
        assert(owned(k));
    }
}

/// Whether two optional strings are equal.
fn opt_str_is(a: &Option<String>, b: &str) -> (r: bool)
    ensures
        r == (a matches Some(x) && x@ == b@),
{
    match a {
        Some(x) => str_eq(x.as_str(), b),
        None => false,
    }
}

/// The row a saved connection claims (see `claimed_row`).
pub fn runtime_row_claim_index(
    runtime_rows: &[RuntimeRowClaimIdentity],
    consumed: &[bool],
    connection: &SavedConnectionEndpoint,
) -> (r: Option<usize>)
    requires
        consumed@.len() >= runtime_rows@.len(),
    ensures
        r == match claimed_row(
            row_views(runtime_rows@),
            consumed@,
            connection.id@,
            connection.host@,
            connection.port,
            connection.username@,
        ) {
            Some(i) => Some(i as usize),
            None => None::<usize>,
        },
{
    let ghost rows = row_views(runtime_rows@);
    let ghost owned = owned_pred(rows, consumed@, connection.id@);
    let ghost endpoint = endpoint_pred(rows, consumed@, connection.host@, connection.port, connection.username@);
    let mut i: usize = 0;
    while i < runtime_rows.len()
        invariant
            i <= runtime_rows@.len(),
            consumed@.len() >= runtime_rows@.len(),
            rows == row_views(runtime_rows@),
            owned == owned_pred(rows, consumed@, connection.id@),
            first_index(i as nat, owned) is None,
        decreases runtime_rows.len() - i,
    {
        let row = &runtime_rows[i];
        assert(rows[i as int] == row@);
        if !consumed[i] && opt_str_is(&row.saved_connection_id, connection.id.as_str()) {
            assert(owned(i as int));
            assert(first_index(i as nat + 1, owned) == Some(i as int));
            proof {
                lemma_first_index_prefix(i as nat + 1, rows.len(), owned);
            }
            return Some(i);
        }
        i += 1;
    }
    assert(rows.len() == runtime_rows@.len());
    let mut j: usize = 0;
    while j < runtime_rows.len()
        invariant
            j <= runtime_rows@.len(),
            consumed@.len() >= runtime_rows@.len(),
            rows == row_views(runtime_rows@),
            rows.len() == runtime_rows@.len(),
            owned == owned_pred(rows, consumed@, connection.id@),
            first_index(rows.len(), owned) is None,
            endpoint == endpoint_pred(rows, consumed@, connection.host@, connection.port, connection.username@),
            first_index(j as nat, endpoint) is None,
        decreases runtime_rows.len() - j,
    {
        let row = &runtime_rows[j];
        assert(rows[j as int] == row@);
        if !consumed[j] && row.saved_connection_id.is_none() && !row.host.as_str().is_empty() && str_eq(
            row.host.as_str(),
            connection.host.as_str(),
        ) && row.port == connection.port && str_eq(row.username.as_str(), connection.username.as_str()) {
            assert(endpoint(j as int));
            assert(first_index(j as nat + 1, endpoint) == Some(j as int));
            proof {
                lemma_first_index_prefix(j as nat + 1, rows.len(), endpoint);
            }
            return Some(j);
        }
        j += 1;
    }
    None
}

/// The runtime rows that saved connections claim, in catalog order: each
/// connection takes its row (see `claimed_row`) out of the free ones. Gives
/// the claim of every connection and which rows are taken.
pub open spec fn catalog_claims(rows: Seq<RuntimeRowView>, connections: Seq<SavedConnectionEndpoint>) -> (
    Seq<Option<int>>,
    Seq<bool>,
)
    decreases connections.len(),
{
    if connections.len() == 0 {
        (Seq::empty(), Seq::new(rows.len(), |i: int| false))
    } else {
        let (claims, consumed) = catalog_claims(rows, connections.drop_last());
        let c = connections.last();
        match claimed_row(rows, consumed, c.id@, c.host@, c.port, c.username@) {
            Some(i) => (claims.push(Some(i)), consumed.update(i, true)),
            None => (claims.push(None), consumed),
        }
    }
}

/// Claims as integers.
pub open spec fn claim_views(claims: Seq<Option<usize>>) -> Seq<Option<int>> {
    claims.map_values(
        |c: Option<usize>|
            match c {
                Some(i) => Some(i as int),
                None => None,
            },
    )
}

/// Runs the catalog claim pass (see `catalog_claims`).
pub fn claim_runtime_rows(rows: &[RuntimeRowClaimIdentity], connections: &[SavedConnectionEndpoint]) -> (r: (
    Vec<Option<usize>>,
    Vec<bool>,
))
    ensures
        claim_views(r.0@) == catalog_claims(row_views(rows@), connections@).0,
        r.1@ == catalog_claims(row_views(rows@), connections@).1,
{
    let ghost rv = row_views(rows@);
    let n = rows.len();
    let mut consumed: Vec<bool> = Vec::new();
    let mut k: usize = 0;
    while k < n
        invariant
            n == rows@.len(),
            k <= rows@.len(),
            consumed@.len() == k,
            forall|m: int| 0 <= m < k ==> !#[trigger] consumed@[m],
        decreases n - k,
    {
        consumed.push(false);
        k += 1;
    }
    let mut claims: Vec<Option<usize>> = Vec::new();
    let mut j: usize = 0;
    assert(connections@.take(0) =~= Seq::<SavedConnectionEndpoint>::empty());
    assert(consumed@ =~= Seq::new(rv.len(), |i: int| false));
    assert(claim_views(claims@) =~= Seq::<Option<int>>::empty());
    while j < connections.len()
        invariant
            j <= connections@.len(),
            rv == row_views(rows@),
            rv.len() == rows@.len(),
            n == rows@.len(),
            consumed@.len() == rows@.len(),
            claim_views(claims@) == catalog_claims(rv, connections@.take(j as int)).0,
            consumed@ == catalog_claims(rv, connections@.take(j as int)).1,
        decreases connections.len() - j,
    {
        let ghost before = connections@.take(j as int);
        let ghost after = connections@.take(j as int + 1);
        assert(after.drop_last() =~= before);
        assert(after.last() == connections@[j as int]);
        let c = &connections[j];
        proof {
            lemma_claimed_row_is_never_foreign(rv, consumed@, c.id@, c.host@, c.port, c.username@);
        }
        let ghost old_claims = claims@;
        let ghost prev = catalog_claims(rv, before);
        let ghost next = catalog_claims(rv, after);
        let ghost claimed = claimed_row(rv, prev.1, c.id@, c.host@, c.port, c.username@);
        assert(next == match claimed {
            Some(i) => (prev.0.push(Some(i)), prev.1.update(i, true)),
            None => (prev.0.push(None), prev.1),
        });
        let found = runtime_row_claim_index(rows, consumed.as_slice(), c);
        proof {
            assert(prev.1 == consumed@);
            if let Some(k) = claimed {
                assert(0 <= k < rows@.len());
                assert(rows@.len() <= usize::MAX);
                assert((k as usize) as int == k);
                assert(found == Some(k as usize));
            } else {
                assert(found is None);
            }
        }
        match found {
            Some(i) => {
                assert(claimed == Some(i as int));
                consumed.set(i, true);
                claims.push(Some(i));
                assert(claim_views(claims@) =~= claim_views(old_claims).push(Some(i as int)));
            },
            None => {
                assert(claimed is None);
                claims.push(None);
                assert(claim_views(claims@) =~= claim_views(old_claims).push(None));
            },
        }
        j += 1;
    }
    assert(connections@.take(connections@.len() as int) =~= connections@);
    (claims, consumed)
}

/// Every connection claims a different runtime row, and the rows taken are
/// exactly the claimed ones: one row never shows two saved connections, and
/// an unclaimed row stays free for the runtime tail.
pub proof fn lemma_runtime_rows_claimed_once(rows: Seq<RuntimeRowView>, connections: Seq<SavedConnectionEndpoint>)
    ensures
        ({
            let (claims, consumed) = catalog_claims(rows, connections);
            &&& claims.len() == connections.len()
            &&& consumed.len() == rows.len()
            &&& forall|a: int| #![trigger claims[a]] 0 <= a < claims.len() && claims[a] is Some ==> {
                let i = claims[a]->0;
                0 <= i < rows.len() && consumed[i]
            }
            &&& forall|a: int, b: int| #![trigger claims[a], claims[b]]
                0 <= a < b < claims.len() && claims[a] is Some && claims[b] is Some ==> claims[a] != claims[b]
            &&& forall|i: int| #![trigger consumed[i]]
                0 <= i < rows.len() && consumed[i] ==> exists|a: int| 0 <= a < claims.len() && claims[a] == Some(i)
        }),
    decreases connections.len(),
{
    if connections.len() > 0 {
        let init = connections.drop_last();
        lemma_runtime_rows_claimed_once(rows, init);
        let (claims, consumed) = catalog_claims(rows, init);
        let c = connections.last();
        lemma_claimed_row_is_never_foreign(rows, consumed, c.id@, c.host@, c.port, c.username@);
        let (claims2, consumed2) = catalog_claims(rows, connections);
        match claimed_row(rows, consumed, c.id@, c.host@, c.port, c.username@) {
            Some(n) => {
                assert forall|a: int| #![trigger claims2[a]] 0 <= a < claims2.len() && claims2[a] is Some implies {
                    let i = claims2[a]->0;
                    0 <= i < rows.len() && consumed2[i]
                } by {
                    if a < claims.len() {
                        assert(claims2[a] == claims[a]);
                    }
                }
                assert forall|a: int, b: int| #![trigger claims2[a], claims2[b]]
                    0 <= a < b < claims2.len() && claims2[a] is Some && claims2[b] is Some implies claims2[a] != claims2[b] by {
                    assert(claims2[a] == claims[a]);
                    if b < claims.len() {
                        assert(claims2[b] == claims[b]);
                    } else {
                        assert(claims[a] is Some);
                        let i = claims[a]->0;
                        assert(consumed[i]);
                    }
                }
                assert forall|i: int| #![trigger consumed2[i]]
                    0 <= i < rows.len() && consumed2[i] implies exists|a: int| 0 <= a < claims2.len() && claims2[a] == Some(i) by {
                    if i == n {
                        assert(claims2[claims.len() as int] == Some(i));
                    } else {
                        assert(consumed[i]);
                        let a = choose|a: int| 0 <= a < claims.len() && claims[a] == Some(i);
                        assert(claims2[a] == claims[a]);
                    }
                }
            },
            None => {
                assert forall|a: int| #![trigger claims2[a]] 0 <= a < claims2.len() && claims2[a] is Some implies {
                    let i = claims2[a]->0;
                    0 <= i < rows.len() && consumed2[i]
                } by {
                    assert(claims2[a] == claims[a]);
                }
                assert forall|a: int, b: int| #![trigger claims2[a], claims2[b]]
                    0 <= a < b < claims2.len() && claims2[a] is Some && claims2[b] is Some implies claims2[a] != claims2[b] by {
                    assert(claims2[a] == claims[a]);
                    assert(claims2[b] == claims[b]);
                }
                assert forall|i: int| #![trigger consumed2[i]]
                    0 <= i < rows.len() && consumed2[i] implies exists|a: int| 0 <= a < claims2.len() && claims2[a] == Some(i) by {
                    let a = choose|a: int| 0 <= a < claims.len() && claims[a] == Some(i);
                    assert(claims2[a] == claims[a]);
                }
            },
        }
    }
}

/// The endpoint a claimed row occupies.
#[derive(Clone, Debug)]
pub struct EndpointKey {
    pub host: String,
    pub port: u16,
    pub username: String,
}

/// The endpoint is `host`, `port`, `username`.
pub open spec fn endpoint_is(e: EndpointKey, host: Seq<char>, port: u16, username: Seq<char>) -> bool {
    e.host@ == host && e.port == port && e.username@ == username
}

/// A top-level ad-hoc row whose endpoint a saved connection already claimed
/// duplicates that connection's row.
pub fn leftover_runtime_row_is_duplicate(
    depth: usize,
    saved_connection_id: Option<&str>,
    host: &str,
    port: u16,
    username: &str,
    claimed_endpoints: &[EndpointKey],
) -> (r: bool)
    ensures
        r == (depth == 0 && saved_connection_id is None && host@.len() > 0 && exists|k: int|
            0 <= k < claimed_endpoints@.len() && #[trigger] endpoint_is(claimed_endpoints@[k], host@, port, username@)),
{
    if depth != 0 || saved_connection_id.is_some() || host.is_empty() {
        return false;
    }
    let mut k: usize = 0;
    while k < claimed_endpoints.len()
        invariant
            k <= claimed_endpoints@.len(),
            depth == 0,
            saved_connection_id is None,
            host@.len() > 0,
            forall|m: int| 0 <= m < k ==> !#[trigger] endpoint_is(claimed_endpoints@[m], host@, port, username@),
        decreases claimed_endpoints.len() - k,
    {
        let e = &claimed_endpoints[k];
        if str_eq(e.host.as_str(), host) && e.port == port && str_eq(e.username.as_str(), username) {
            assert(endpoint_is(claimed_endpoints@[k as int], host@, port, username@));
            return true;
        }
        k += 1;
    }
    false
}

// ---------------------------------------------------------------------------
// Terminal command bar
// ---------------------------------------------------------------------------

/// A group of project tasks.
#[derive(Clone, Copy, Debug, PartialEq, Eq, Structural)]
pub enum ProjectTaskGroup {
    Develop,
    Test,
    Build,
    Run,
    Docker,
    Custom,
}

/// The message key of a project task group.
pub fn terminal_project_group_label_key(group: ProjectTaskGroup) -> (r: &'static str)
    ensures
        r@ == match group {
            ProjectTaskGroup::Develop => "terminal.project.group_develop"@,
            ProjectTaskGroup::Test => "terminal.project.group_test"@,
            ProjectTaskGroup::Build => "terminal.project.group_build"@,
            ProjectTaskGroup::Run => "terminal.project.group_run"@,
            ProjectTaskGroup::Docker => "terminal.project.group_docker"@,
            ProjectTaskGroup::Custom => "terminal.project.group_custom"@,
        },
{
    match group {
        ProjectTaskGroup::Develop => "terminal.project.group_develop",
        ProjectTaskGroup::Test => "terminal.project.group_test",
        ProjectTaskGroup::Build => "terminal.project.group_build",
        ProjectTaskGroup::Run => "terminal.project.group_run",
        ProjectTaskGroup::Docker => "terminal.project.group_docker",
        ProjectTaskGroup::Custom => "terminal.project.group_custom",
    }
}

/// The short label of a working directory: the last two path segments,
/// separated as the path is (backslash when it holds one), with `~/` kept for
/// a single segment under home. Roots, `~`, drive roots and empty paths are
/// shown as they are.
pub open spec fn cwd_chip_label(raw: Seq<char>) -> Seq<char> {
    let path = trim(raw);
    if path.len() == 0 || path == "/"@ || path == "~"@ || has_suffix(path, ":\\"@) || has_suffix(path, ":/"@) {
        path
    } else {
        let sep = if path.contains('\\') { '\\' } else { '/' };
        let segments = non_empty(split_char(path, sep));
        if segments.len() == 0 {
            path
        } else {
            let keep = if segments.len() >= 2 { 2int } else { 1int };
            let tail = segments.skip(segments.len() - keep);
            let label = joined(tail, seq![sep]);
            if has_prefix(path, "~/"@) && keep == 1 {
                "~/"@ + label
            } else {
                label
            }
        }
    }
}

/// Whether `s` equals the literal `lit`.
fn chars_are(s: &[char], lit: &str) -> (r: bool)
    ensures
        r == (s@ == lit@),
{
    let l = chars_of(lit);
    crate::text::chars_eq(s, &l)
}

/// The short working-directory label of the command bar.
pub fn terminal_cwd_chip_label(path: &str) -> (r: String)
    ensures
        r@ == cwd_chip_label(path@),
{
    let raw = chars_of(path);
    let p = trim_ws(&raw);
    let drive_back = chars_of(":\\");
    let drive_slash = chars_of(":/");
    if p.len() == 0 || chars_are(&p, "/") || chars_are(&p, "~") || crate::text::ends_with(&p, &drive_back)
        || crate::text::ends_with(&p, &drive_slash) {
        return string_from_chars(&p);
    }
    let sep = if contains_char(&p, '\\') {
        '\\'
    } else {
        '/'
    };
    let segments = keep_non_empty(split_on(&p, sep));
    if segments.len() == 0 {
        return string_from_chars(&p);
    }
    let keep: usize = if segments.len() >= 2 {
        2
    } else {
        1
    };
    let mut sep_v: Vec<char> = Vec::new();
    sep_v.push(sep);
    assert(sep_v@ =~= seq![sep]);
    let label = crate::text::join_pieces(&segments, segments.len() - keep, &sep_v);
    let home = chars_of("~/");
    if starts_with(&p, &home) && keep == 1 {
        let mut out = home;
        extend_chars(&mut out, &label);
        string_from_chars(&out)
    } else {
        string_from_chars(&label)
    }
}

/// Where a working directory was observed.
#[derive(Clone, Copy, Debug, PartialEq, Eq, Structural)]
pub enum CurrentDirectoryScope {
    Local,
    SshNode,
}

/// How a working directory was learned.
#[derive(Clone, Copy, Debug, PartialEq, Eq, Structural)]
pub enum CurrentDirectorySource {
    ProcessFallback,
    SessionDefault,
    UserAction,
    VisibleText,
    ShellIntegration,
}

/// A terminal's working directory and where it came from.
#[derive(Clone, Debug)]
pub struct CurrentDirectorySnapshot {
    pub path: String,
    pub scope: CurrentDirectoryScope,
    pub source: CurrentDirectorySource,
}

/// The message key naming a directory's scope.
pub open spec fn cwd_scope_key(scope: CurrentDirectoryScope) -> Seq<char> {
    match scope {
        CurrentDirectoryScope::Local => "terminal.cwd.scope_local"@,
        CurrentDirectoryScope::SshNode => "terminal.cwd.scope_ssh"@,
    }
}

/// The message key naming a directory's source.
pub open spec fn cwd_source_key(source: CurrentDirectorySource) -> Seq<char> {
    match source {
        CurrentDirectorySource::ProcessFallback => "terminal.cwd.source_process"@,
        CurrentDirectorySource::ShellIntegration => "terminal.cwd.source_shell"@,
        _ => "terminal.cwd.source_manual"@,
    }
}

/// The message key describing how far a directory can be trusted.
pub open spec fn cwd_quality_key(source: CurrentDirectorySource) -> Seq<char> {
    match source {
        CurrentDirectorySource::ProcessFallback => "terminal.cwd.quality_process"@,
        CurrentDirectorySource::ShellIntegration => "terminal.cwd.quality_cwd_only"@,
        _ => "terminal.cwd.quality_manual"@,
    }
}

/// The tooltip of the working-directory chip: the path, then scope, source
/// and quality separated by ` · `, then the host when one is known.
pub open spec fn cwd_chip_tooltip(
    snapshot: Option<(Seq<char>, CurrentDirectoryScope, CurrentDirectorySource)>,
    host: Option<Seq<char>>,
    i18n: I18n,
) -> Seq<char> {
    match snapshot {
        None => i18n.text_of("terminal.cwd.unavailable"@),
        Some((path, scope, source)) => {
            let summary = i18n.text_of(cwd_scope_key(scope)) + " · "@ + i18n.text_of(cwd_source_key(source))
                + " · "@ + i18n.text_of(cwd_quality_key(source));
            let base = seq![path, summary];
            let lines = match host {
                Some(h) => if trim(h).len() > 0 {
                    base.push(i18n.text_of("terminal.cwd.host"@) + ": "@ + h)
                } else {
                    base
                },
                None => base,
            };
            joined(lines, "\n"@)
        },
    }
}

/// The snapshot as plain values.
pub open spec fn snapshot_view(snapshot: Option<&CurrentDirectorySnapshot>) -> Option<
    (Seq<char>, CurrentDirectoryScope, CurrentDirectorySource),
> {
    match snapshot {
        Some(s) => Some((s.path@, s.scope, s.source)),
        None => None,
    }
}

/// The tooltip of the working-directory chip (see `cwd_chip_tooltip`).
pub fn terminal_cwd_chip_tooltip(snapshot: Option<&CurrentDirectorySnapshot>, host: Option<String>, i18n: &I18n) -> (r: String)
    requires
        i18n.well_formed(),
    ensures
        r@ == cwd_chip_tooltip(
            snapshot_view(snapshot),
            match host {
                Some(h) => Some(h@),
                None => None,
            },
            *i18n,
        ),
{
    let snapshot = match snapshot {
        Some(s) => s,
        None => {
            return i18n.t("terminal.cwd.unavailable");
        },
    };
    let scope = match snapshot.scope {
        CurrentDirectoryScope::Local => i18n.t("terminal.cwd.scope_local"),
        CurrentDirectoryScope::SshNode => i18n.t("terminal.cwd.scope_ssh"),
    };
    let source = match snapshot.source {
        CurrentDirectorySource::ProcessFallback => i18n.t("terminal.cwd.source_process"),
        CurrentDirectorySource::SessionDefault => i18n.t("terminal.cwd.source_manual"),
        CurrentDirectorySource::UserAction => i18n.t("terminal.cwd.source_manual"),
        CurrentDirectorySource::VisibleText => i18n.t("terminal.cwd.source_manual"),
        CurrentDirectorySource::ShellIntegration => i18n.t("terminal.cwd.source_shell"),
    };
    let quality = match snapshot.source {
        CurrentDirectorySource::ProcessFallback => i18n.t("terminal.cwd.quality_process"),
        CurrentDirectorySource::SessionDefault => i18n.t("terminal.cwd.quality_manual"),
        CurrentDirectorySource::UserAction => i18n.t("terminal.cwd.quality_manual"),
        CurrentDirectorySource::VisibleText => i18n.t("terminal.cwd.quality_manual"),
        CurrentDirectorySource::ShellIntegration => i18n.t("terminal.cwd.quality_cwd_only"),
    };
    let mut out = chars_of(snapshot.path.as_str());
    out.push('\n');
    extend_str(&mut out, scope.as_str());
    extend_str(&mut out, " · ");
    extend_str(&mut out, source.as_str());
    extend_str(&mut out, " · ");
    extend_str(&mut out, quality.as_str());
    let ghost two = out@;
    proof {
        reveal_strlit("\n");
        let summary = scope@ + " · "@ + source@ + " · "@ + quality@;
        let parts = seq![snapshot.path@, summary];
        assert(parts.drop_last() =~= seq![snapshot.path@]);
        assert(joined(parts.drop_last(), "\n"@) == snapshot.path@);
        assert(two =~= snapshot.path@ + "\n"@ + summary);
        assert(joined(parts, "\n"@) =~= two);
    }
    match host {
        Some(h) => {
            let hc = chars_of(h.as_str());
            if trim_ws(&hc).len() > 0 {
                let label = i18n.t("terminal.cwd.host");
                out.push('\n');
                extend_str(&mut out, label.as_str());
                extend_str(&mut out, ": ");
                extend_str(&mut out, h.as_str());
                proof {
                    let summary = scope@ + " · "@ + source@ + " · "@ + quality@;
                    let base = seq![snapshot.path@, summary];
                    let line = label@ + ": "@ + h@;
                    assert(base.push(line).drop_last() =~= base);
                    assert(out@ =~= joined(base, "\n"@) + "\n"@ + line);
                }
            }
        },
        None => {},
    }
    string_from_chars(&out)
}

/// `path` with trailing `/` removed, keeping a lone `/`.
pub open spec fn strip_trailing_slashes(path: Seq<char>) -> Seq<char>
    decreases path.len(),
{
    if path.len() > 1 && path.last() == '/' {
        strip_trailing_slashes(path.drop_last())
    } else {
        path
    }
}

/// The comparison key of a displayed path: trimmed, backslashes turned into
/// slashes, trailing slashes removed.
pub open spec fn display_path_key(path: Seq<char>) -> Seq<char> {
    strip_trailing_slashes(replace_all(trim(path), "\\"@, "/"@))
}

/// The comparison key of a displayed path (see `display_path_key`).
pub fn terminal_display_path_key(path: &str) -> (r: String)
    ensures
        r@ == display_path_key(path@),
{
    let raw = chars_of(path);
    let t = trim_ws(&raw);
    let back = chars_of("\\");
    let slash = chars_of("/");
    proof {
        reveal_strlit("\\");
    }
    let mut p = replace(&t, &back, &slash);
    while p.len() > 1 && p[p.len() - 1] == '/'
        invariant
            strip_trailing_slashes(p@) == display_path_key(path@),
        decreases p.len(),
    {
        p.pop();
    }
    string_from_chars(&p)
}

/// The Git root to show beside a project root, when their display keys differ.
pub open spec fn git_root_disagreement(project_root: Seq<char>, git_root: Seq<char>) -> Option<Seq<char>> {
    let p = trim(project_root);
    let g = trim(git_root);
    if p.len() == 0 || g.len() == 0 {
        None
    } else if display_path_key(p) != display_path_key(g) {
        Some(g)
    } else {
        None
    }
}

/// The Git root when it differs from the project root (see `git_root_disagreement`).
pub fn terminal_project_git_root_disagreement(project_root: &str, git_root: &str) -> (r: Option<String>)
    ensures
        match r {
            Some(s) => git_root_disagreement(project_root@, git_root@) == Some(s@),
            None => git_root_disagreement(project_root@, git_root@) is None,
        },
{
    let pr = chars_of(project_root);
    let p = string_from_chars(&trim_ws(&pr));
    let gr = chars_of(git_root);
    let g = string_from_chars(&trim_ws(&gr));
    if p.as_str().is_empty() || g.as_str().is_empty() {
        return None;
    }
    let pk = terminal_display_path_key(p.as_str());
    let gk = terminal_display_path_key(g.as_str());
    if str_eq(pk.as_str(), gk.as_str()) {
        None
    } else {
        Some(g)
    }
}

/// Replacing a one-character pattern works piecewise over a concatenation.
proof fn lemma_replace_char_concat(a: Seq<char>, b: Seq<char>, c: char, to: Seq<char>)
    ensures
        replace_all(a + b, seq![c], to) == replace_all(a, seq![c], to) + replace_all(b, seq![c], to),
    decreases a.len(),
{
    let from = seq![c];
    if a.len() == 0 {
        assert(a + b =~= b);
        assert(replace_all(a, from, to) =~= Seq::<char>::empty());
    } else {
        let ab = a + b;
        assert(ab[0] == a[0]);
        assert(has_prefix(ab, from) == has_prefix(a, from)) by {
            assert(ab.take(1) =~= seq![ab[0]]);
            assert(a.take(1) =~= seq![a[0]]);
        }
        assert(ab.skip(1) =~= a.skip(1) + b);
        assert(ab.drop_first() =~= a.drop_first() + b);
        lemma_replace_char_concat(a.drop_first(), b, c, to);
        assert(a.skip(1) =~= a.drop_first());
    }
}

/// Project and Git roots that differ only by trailing separators never
/// disagree: for a root without surrounding whitespace, the same root with a
/// `/` appended is no different Git root.
pub proof fn lemma_trailing_separator_is_no_disagreement(root: Seq<char>)
    requires
        root.len() > 0,
        !crate::text::is_ws(root[0]),
        !crate::text::is_ws(root.last()),
    ensures
        git_root_disagreement(root + "/"@, root) is None,
        git_root_disagreement(root, root + "/"@) is None,
{
    reveal_strlit("/");
    reveal_strlit("\\");
    let slashed = root + "/"@;
    assert(slashed[0] == root[0]);
    assert(slashed.last() == '/');
    assert(trim(root) == root);
    assert(trim(slashed) == slashed);
    let back = "\\"@;
    assert(back =~= seq!['\\']);
    lemma_replace_char_concat(root, "/"@, '\\', "/"@);
    let r = replace_all(root, back, "/"@);
    assert("/"@ =~= seq!['/']);
    assert(replace_all("/"@, back, "/"@) =~= "/"@) by {
        assert("/"@.drop_first() =~= Seq::<char>::empty());
        assert(replace_all(Seq::<char>::empty(), back, "/"@) =~= Seq::<char>::empty());
        assert("/"@.take(1)[0] != back[0]);
        assert(!has_prefix("/"@, back));
    }
    assert(r.len() > 0) by {
        assert(has_prefix(root, back) || !has_prefix(root, back));
    }
    assert(replace_all(slashed, back, "/"@) == r + "/"@);
    assert((r + "/"@).drop_last() =~= r);
    assert(strip_trailing_slashes(r + "/"@) == strip_trailing_slashes(r));
    assert(display_path_key(slashed) == display_path_key(root));
}

// ---------------------------------------------------------------------------
// Settings navigation and messages
// ---------------------------------------------------------------------------

/// The group contents as sequences.
pub open spec fn group_views(groups: Seq<Vec<SettingsTab>>) -> Seq<Seq<SettingsTab>> {
    groups.map_values(|g: Vec<SettingsTab>| g@)
}

/// The navigation row where the group after `groups` begins: one row per tab
/// and one separator row between neighbouring groups.
pub open spec fn nav_start(groups: Seq<Seq<SettingsTab>>) -> int
    decreases groups.len(),
{
    if groups.len() == 0 {
        0
    } else {
        nav_start(groups.drop_last()) + groups.last().len() + 1
    }
}

/// The predicate "position holds `tab`".
pub open spec fn tab_at(g: Seq<SettingsTab>, tab: SettingsTab) -> spec_fn(int) -> bool {
    |i: int| g[i] == tab
}

/// The navigation row of the first occurrence of `tab`.
pub open spec fn nav_position(groups: Seq<Seq<SettingsTab>>, tab: SettingsTab) -> Option<int>
    decreases groups.len(),
{
    if groups.len() == 0 {
        None
    } else {
        match nav_position(groups.drop_last(), tab) {
            Some(k) => Some(k),
            None => {
                let g = groups.last();
                match first_index(g.len(), tab_at(g, tab)) {
                    Some(i) => Some(nav_start(groups.drop_last()) + i),
                    None => None,
                }
            },
        }
    }
}

/// Later groups neither move a found row nor start before earlier ones.
proof fn lemma_nav_prefix(groups: Seq<Seq<SettingsTab>>, tab: SettingsTab, k: int, m: int)
    requires
        0 <= k <= m <= groups.len(),
    ensures
        nav_start(groups.take(k)) <= nav_start(groups.take(m)),
        nav_position(groups.take(k), tab) is Some ==> nav_position(groups.take(m), tab)
            == nav_position(groups.take(k), tab),
    decreases m - k,
{
    if k < m {
        lemma_nav_prefix(groups, tab, k, m - 1);
        assert(groups.take(m).drop_last() =~= groups.take(m - 1));
    }
}

/// The navigation row of a tab, or `None` when no group holds it.
#[verifier::spinoff_prover]
pub fn settings_nav_item_index(groups: &[Vec<SettingsTab>], tab: SettingsTab) -> (r: Option<usize>)
    requires
        nav_start(group_views(groups@)) <= usize::MAX,
    ensures
        r == match nav_position(group_views(groups@), tab) {
            Some(k) => Some(k as usize),
            None => None::<usize>,
        },
{
    let ghost gv = group_views(groups@);
    let mut item_index: usize = 0;
    let mut gi: usize = 0;
    assert(gv.take(0) =~= Seq::<Seq<SettingsTab>>::empty());
    while gi < groups.len()
        invariant
            gi <= groups@.len(),
            gv == group_views(groups@),
            gv.len() == groups@.len(),
            nav_start(gv) <= usize::MAX,
            nav_position(gv.take(gi as int), tab) is None,
            item_index + (if gi > 0 { 1int } else { 0int }) == nav_start(gv.take(gi as int)),
        decreases groups.len() - gi,
    {
        let ghost before = gv.take(gi as int);
        let ghost after = gv.take(gi as int + 1);
        assert(after.drop_last() =~= before);
        assert(after.last() == groups@[gi as int]@);
        proof {
            lemma_nav_prefix(gv, tab, gi as int + 1, gv.len() as int);
            assert(gv.take(gv.len() as int) =~= gv);
        }
        if gi > 0 {
            item_index += 1;
        }
        let group = &groups[gi];
        let ghost g = group@;
        let ghost p = tab_at(g, tab);
        let mut j: usize = 0;
        while j < group.len()
            invariant
                j <= group@.len(),
                gi < groups@.len(),
                gv == group_views(groups@),
                gv.len() == groups@.len(),
                before == gv.take(gi as int),
                after == gv.take(gi as int + 1),
                after.drop_last() == before,
                after.last() == g,
                nav_position(before, tab) is None,
                g == group@,
                p == tab_at(g, tab),
                first_index(j as nat, p) is None,
                item_index == nav_start(before) + j,
                nav_start(after) == nav_start(before) + g.len() + 1,
                nav_start(after) <= usize::MAX,
            decreases group.len() - j,
        {
            if group[j] == tab {
                assert(p(j as int));
                assert(first_index(j as nat + 1, p) == Some(j as int));
                proof {
                    lemma_first_index_prefix(j as nat + 1, g.len(), p);
                    assert(first_index(g.len(), tab_at(after.last(), tab)) == Some(j as int));
                    assert(nav_position(after, tab) == Some(nav_start(before) + j));
                    lemma_nav_prefix(gv, tab, gi as int + 1, gv.len() as int);
                    assert(gv.take(gv.len() as int) =~= gv);
                }
                return Some(item_index);
            }
            item_index += 1;
            j += 1;
        }
        assert(first_index(g.len(), p) is None);
        gi += 1;
    }
    assert(gv.take(gv.len() as int) =~= gv);
    None
}

/// The label and hint keys of the close-to-background setting: macOS keeps
/// the application running, other platforms minimise it to the tray.
pub fn close_to_background_label_keys(macos: bool) -> (r: (&'static str, &'static str))
    ensures
        macos ==> r.0@ == "settings_view.general.keep_running_on_close"@
            && r.1@ == "settings_view.general.keep_running_on_close_hint"@,
        !macos ==> r.0@ == "settings_view.general.minimize_to_tray_on_close"@
            && r.1@ == "settings_view.general.minimize_to_tray_on_close_hint"@,
{
    if macos {
        ("settings_view.general.keep_running_on_close", "settings_view.general.keep_running_on_close_hint")
    } else {
        (
            "settings_view.general.minimize_to_tray_on_close",
            "settings_view.general.minimize_to_tray_on_close_hint",
        )
    }
}

/// A message template with `{{count}}` filled in by the decimal count.
pub fn sftp_i18n_count(template: String, count: usize) -> (r: String)
    ensures
        r@ == replace_all(template@, "{{count}}"@, radix_digits(count as nat, 10)),
{
    let t = chars_of(template.as_str());
    let pattern = chars_of("{{count}}");
    proof {
        reveal_strlit("{{count}}");
    }
    let digits = radix_string(count as u64, 10);
    string_from_chars(&replace(&t, &pattern, &digits))
}

/// A rename message template with `{{old}}` and then `{{new}}` filled in.
pub fn sftp_i18n_rename_detail(template: String, old_name: &str, new_name: &str) -> (r: String)
    ensures
        r@ == replace_all(replace_all(template@, "{{old}}"@, old_name@), "{{new}}"@, new_name@),
{
    let t = chars_of(template.as_str());
    let old_pattern = chars_of("{{old}}");
    let new_pattern = chars_of("{{new}}");
    proof {
        reveal_strlit("{{old}}");
        reveal_strlit("{{new}}");
    }
    let old_v = chars_of(old_name);
    let new_v = chars_of(new_name);
    let once = replace(&t, &old_pattern, &old_v);
    string_from_chars(&replace(&once, &new_pattern, &new_v))
}

}

//! Network diagnostics panel: the network state machine driven by relay
//! health reports, the relay badge, game connection tracking, the
//! connection test and the bootstrap relay configuration.
//!
//! Drawing the panel, the latency plots and the connection quality metrics
//! (floating-point averages) are done by the application; this module holds
//! the state they are drawn from and decides what the texts say.
use crate::chars::{chars_of, prefix_for_bytes, split_lines, string_of, take_bytes, trim, trim_bounds, utf8_len, utf8_len_exceeds};
use crate::clock::instant_now;
use crate::keyed::{keyed_map, keys_distinct, lemma_keyed_map_dom, lemma_keyed_map_push, lemma_keyed_map_remove, lemma_keyed_map_update};
use crate::text::{decimal, decimal_string, push_decimal, tenths_string, tenths_text};
use std::time::Instant;
use vstd::prelude::*;
use vstd::string::StringExecFns;

verus! {

/// Network connection state machine.
#[derive(Debug, Clone, Copy, PartialEq, Eq, Structural)]
pub enum NetworkState {
    /// No network connection.
    Offline,
    /// Starting or restarting the relay.
    StartingRelay,
    /// Synchronizing with the network.
    Syncing,
    /// Fully online with a healthy connection.
    Online,
    /// Online but with degraded performance.
    Degraded,
}

impl Default for NetworkState {
    fn default() -> (s: Self)
        ensures
            s == NetworkState::Offline,
    {
        NetworkState::Offline
    }
}

/// Health of the relay as the relay monitor reports it.
#[derive(Debug, Clone, Copy, PartialEq, Eq, Structural)]
pub enum RelayHealthStatus {
    Healthy,
    Degraded,
    Unreachable,
    Restarting,
    Failed,
}

/// The state after a relay health report: a healthy relay brings the
/// network online unless it is syncing; a degraded one degrades it; a
/// restart starts the relay; an unreachable or failed relay takes it
/// offline.
pub open spec fn state_after_health(s: NetworkState, h: RelayHealthStatus) -> NetworkState {
    match h {
        RelayHealthStatus::Healthy => if s == NetworkState::Syncing {
            NetworkState::Syncing
        } else {
            NetworkState::Online
        },
        RelayHealthStatus::Degraded => NetworkState::Degraded,
        RelayHealthStatus::Restarting => NetworkState::StartingRelay,
        RelayHealthStatus::Unreachable => NetworkState::Offline,
        RelayHealthStatus::Failed => NetworkState::Offline,
    }
}

/// A healthy relay report brings the network online from every state but
/// syncing, which it leaves as it is.
pub proof fn lemma_healthy_report_brings_online(s: NetworkState)
    ensures
        s != NetworkState::Syncing ==> state_after_health(s, RelayHealthStatus::Healthy)
            == NetworkState::Online,
        s == NetworkState::Syncing ==> state_after_health(s, RelayHealthStatus::Healthy)
            == NetworkState::Syncing,
{
}

/// The network recovers: after any relay report (but a healthy one while
/// syncing), the next healthy report brings it online, whether the relay
/// had been degraded, restarting, unreachable or failed.
pub proof fn lemma_network_recovers(s: NetworkState, h: RelayHealthStatus)
    requires
        !(s == NetworkState::Syncing && h == RelayHealthStatus::Healthy),
    ensures
        state_after_health(state_after_health(s, h), RelayHealthStatus::Healthy) == NetworkState::Online,
{
}

/// The message describing a network state.
pub open spec fn state_message(s: NetworkState) -> Seq<char> {
    match s {
        NetworkState::Offline => "Network offline"@,
        NetworkState::StartingRelay => "Starting relay..."@,
        NetworkState::Syncing => "Syncing with network..."@,
        NetworkState::Online => "Connected"@,
        NetworkState::Degraded => "Connected (degraded)"@,
    }
}

/// The name of a network state in the diagnostic report.
pub open spec fn state_name(s: NetworkState) -> Seq<char> {
    match s {
        NetworkState::Offline => "Offline"@,
        NetworkState::StartingRelay => "StartingRelay"@,
        NetworkState::Syncing => "Syncing"@,
        NetworkState::Online => "Online"@,
        NetworkState::Degraded => "Degraded"@,
    }
}

/// The icon of the relay badge and its colour as red, green and blue.
pub open spec fn badge_status(h: Option<RelayHealthStatus>, stats: Option<Seq<bool>>) -> (
    Seq<char>,
    (u8, u8, u8),
) {
    match h {
        Some(RelayHealthStatus::Healthy) => ("🟢"@, (0, 158, 115)),
        Some(RelayHealthStatus::Degraded) => ("🟠"@, (230, 159, 0)),
        Some(RelayHealthStatus::Unreachable) => ("🔴"@, (213, 94, 0)),
        Some(RelayHealthStatus::Restarting) => ("🔄"@, (0, 114, 178)),
        Some(RelayHealthStatus::Failed) => ("❌"@, (213, 94, 0)),
        None => match stats {
            Some(s) => counts_badge(s.len(), reachable_count(s)),
            None => ("❓"@, (160, 160, 160)),
        },
    }
}

/// How many relays are reachable.
pub open spec fn reachable_count(s: Seq<bool>) -> nat
    decreases s.len(),
{
    if s.len() == 0 {
        0
    } else {
        reachable_count(s.drop_last()) + if s.last() {
            1nat
        } else {
            0nat
        }
    }
}

/// The badge for `total` known relays of which `reachable` answer: yellow
/// while none is configured, red when none answers, green when all do,
/// orange otherwise.
pub open spec fn counts_badge(total: nat, reachable: nat) -> (Seq<char>, (u8, u8, u8)) {
    if total == 0 {
        ("🟡"@, (240, 228, 66))
    } else if reachable == 0 {
        ("🔴"@, (213, 94, 0))
    } else if reachable == total {
        ("🟢"@, (0, 158, 115))
    } else {
        ("🟠"@, (230, 159, 0))
    }
}

/// How many of the relays are reachable.
fn count_reachable(v: &Vec<bool>) -> (n: usize)
    ensures
        n == reachable_count(v@),
{
    let mut n: usize = 0;
    let mut i: usize = 0;
    while i < v.len()
        invariant
            0 <= i <= v@.len(),
            n == reachable_count(v@.take(i as int)),
            n <= i,
        decreases v@.len() - i,
    {
        assert(v@.take(i + 1).drop_last() =~= v@.take(i as int));
        if v[i] {
            n += 1;
        }
        i += 1;
    }
    assert(v@.take(i as int) =~= v@);
    n
}

/// The badge for `total` known relays of which `reachable` answer.
pub fn status_from_counts(total: usize, reachable: usize) -> (r: (&'static str, (u8, u8, u8)))
    ensures
        (r.0@, r.1) == counts_badge(total as nat, reachable as nat),
{
    proof {
        reveal_strlit("🟡");
        reveal_strlit("🔴");
        reveal_strlit("🟢");
        reveal_strlit("🟠");
    }
    if total == 0 {
        ("🟡", (240, 228, 66))
    } else if reachable == 0 {
        ("🔴", (213, 94, 0))
    } else if reachable == total {
        ("🟢", (0, 158, 115))
    } else {
        ("🟠", (230, 159, 0))
    }
}

/// The capitalised description of a relay health in the badge tooltip.
pub open spec fn health_title(h: RelayHealthStatus) -> Seq<char> {
    match h {
        RelayHealthStatus::Healthy => "Healthy"@,
        RelayHealthStatus::Degraded => "Degraded"@,
        RelayHealthStatus::Unreachable => "Unreachable"@,
        RelayHealthStatus::Restarting => "Restarting"@,
        RelayHealthStatus::Failed => "Failed"@,
    }
}

/// The lower-case description of a relay health in the status tooltip.
pub open spec fn health_word(h: RelayHealthStatus) -> Seq<char> {
    match h {
        RelayHealthStatus::Healthy => "healthy"@,
        RelayHealthStatus::Degraded => "degraded"@,
        RelayHealthStatus::Unreachable => "unreachable"@,
        RelayHealthStatus::Restarting => "restarting"@,
        RelayHealthStatus::Failed => "failed"@,
    }
}

/// Tabs of the diagnostics window.
#[derive(Debug, Clone, Copy, PartialEq, Eq, Structural)]
pub enum DiagnosticsTab {
    Overview,
    ConnectionQuality,
    GameNetwork,
    Troubleshooting,
}

/// A game whose network connection is tracked.
pub struct GameConnectionInfo {
    pub game_id: String,
    pub peer_count: usize,
    pub last_sync: Instant,
    pub is_synced: bool,
}

impl View for GameConnectionInfo {
    type V = (Seq<char>, (usize, bool));

    open spec fn view(&self) -> (Seq<char>, (usize, bool)) {
        (self.game_id@, (self.peer_count, self.is_synced))
    }
}

/// Network diagnostics panel.
pub struct NetworkPanel {
    relay_port: Option<u16>,
    network_state: NetworkState,
    state_start_time: Instant,
    visible: bool,
    bootstrap_relays: String,
    last_update: Instant,
    relay_health_status: Option<RelayHealthStatus>,
    /// The reachability of each known relay, once relay statistics are read.
    relay_stats: Option<Vec<bool>>,
    is_relay_node: bool,
    relay_active_connections: Option<usize>,
    relay_connection_limit: Option<usize>,
    game_connections: Vec<GameConnectionInfo>,
    diagnostics_tab: DiagnosticsTab,
    connection_test_in_progress: bool,
    last_connection_test: Option<Instant>,
    test_results: Vec<String>,
}

/// Abstract state of the panel.
pub struct PanelView {
    pub relay_port: Option<u16>,
    pub network_state: NetworkState,
    pub visible: bool,
    pub bootstrap_relays: Seq<char>,
    pub relay_health_status: Option<RelayHealthStatus>,
    pub relay_stats: Option<Seq<bool>>,
    pub is_relay_node: bool,
    pub relay_active_connections: Option<usize>,
    pub relay_connection_limit: Option<usize>,
    pub games: Seq<(Seq<char>, (usize, bool))>,
    pub diagnostics_tab: DiagnosticsTab,
    pub test_in_progress: bool,
    pub tested_before: bool,
    pub test_results: Seq<Seq<char>>,
}

impl View for NetworkPanel {
    type V = PanelView;

    closed spec fn view(&self) -> PanelView {
        PanelView {
            relay_port: self.relay_port,
            network_state: self.network_state,
            visible: self.visible,
            bootstrap_relays: self.bootstrap_relays@,
            relay_health_status: self.relay_health_status,
            relay_stats: match &self.relay_stats {
                Some(v) => Some(v@),
                None => None,
            },
            is_relay_node: self.is_relay_node,
            relay_active_connections: self.relay_active_connections,
            relay_connection_limit: self.relay_connection_limit,
            games: self.game_connections@.map_values(|g: GameConnectionInfo| g@),
            diagnostics_tab: self.diagnostics_tab,
            test_in_progress: self.connection_test_in_progress,
            tested_before: self.last_connection_test is Some,
            test_results: self.test_results@.map_values(|r: String| r@),
        }
    }
}

impl NetworkPanel {
    /// No game id is tracked twice.
    pub closed spec fn wf(&self) -> bool {
        keys_distinct(self@.games)
    }

    /// Hidden, offline, with nothing known of the relay, no games and no
    /// connection test run.
    pub fn new() -> (p: Self)
        ensures
            p.wf(),
            !p@.visible,
            p@.network_state == NetworkState::Offline,
            p@.relay_port is None,
            p@.relay_health_status is None,
            p@.relay_stats is None,
            !p@.is_relay_node,
            p@.relay_active_connections is None,
            p@.relay_connection_limit is None,
            p@.bootstrap_relays == Seq::<char>::empty(),
            p@.games == Seq::<(Seq<char>, (usize, bool))>::empty(),
            p@.diagnostics_tab == DiagnosticsTab::Overview,
            !p@.test_in_progress,
            !p@.tested_before,
            p@.test_results == Seq::<Seq<char>>::empty(),
    {
        let p = NetworkPanel {
            relay_port: None,
            network_state: NetworkState::Offline,
            state_start_time: instant_now(),
            visible: false,
            bootstrap_relays: String::new(),
            last_update: instant_now(),
            relay_health_status: None,
            relay_stats: None,
            is_relay_node: false,
            relay_active_connections: None,
            relay_connection_limit: None,
            game_connections: Vec::new(),
            diagnostics_tab: DiagnosticsTab::Overview,
            connection_test_in_progress: false,
            last_connection_test: None,
            test_results: Vec::new(),
        };
        assert(p@.games =~= Seq::<(Seq<char>, (usize, bool))>::empty());
        assert(p@.test_results =~= Seq::<Seq<char>>::empty());
        p
    }

    /// Show or hide the panel.
    pub fn toggle_visibility(&mut self)
        ensures
            final(self)@ == (PanelView { visible: !old(self)@.visible, ..old(self)@ }),
            final(self).wf() == old(self).wf(),
            final(self).state_entered_at() == old(self).state_entered_at(),
    {
        self.visible = !self.visible;
    }

    /// Whether the panel is shown.
    pub fn is_visible(&self) -> (r: bool)
        ensures
            r == self@.visible,
    {
        self.visible
    }

    /// Follow a relay health report: record the health and the relay port,
    /// and move the network state accordingly.
    pub fn update_relay_health(&mut self, status: RelayHealthStatus, port: Option<u16>)
        ensures
            final(self)@ == (PanelView {
                relay_health_status: Some(status),
                relay_port: port,
                network_state: state_after_health(old(self)@.network_state, status),
                ..old(self)@
            }),
            status == RelayHealthStatus::Healthy && old(self)@.network_state != NetworkState::Syncing
                ==> final(self)@.network_state == NetworkState::Online,
            final(self).wf() == old(self).wf(),
            !(status is Restarting) ==> final(self).state_entered_at() == old(self).state_entered_at(),
    {
        self.relay_health_status = Some(status);
        self.relay_port = port;
        match status {
            RelayHealthStatus::Healthy => {
                if self.network_state != NetworkState::Syncing {
                    self.network_state = NetworkState::Online;
                }
            },
            RelayHealthStatus::Degraded => {
                self.network_state = NetworkState::Degraded;
            },
            RelayHealthStatus::Restarting => {
                self.network_state = NetworkState::StartingRelay;
                self.state_start_time = instant_now();
            },
            RelayHealthStatus::Unreachable | RelayHealthStatus::Failed => {
                self.network_state = NetworkState::Offline;
            },
        }
    }

    /// Record whether this node acts as a relay.
    pub fn set_is_relay_node(&mut self, is_relay: bool)
        ensures
            final(self)@ == (PanelView { is_relay_node: is_relay, ..old(self)@ }),
            final(self).wf() == old(self).wf(),
            final(self).state_entered_at() == old(self).state_entered_at(),
    {
        self.is_relay_node = is_relay;
    }

    /// Record the relay's active connections and connection limit.
    pub fn update_relay_capacity(&mut self, active_connections: usize, connection_limit: usize)
        ensures
            final(self)@ == (PanelView {
                relay_active_connections: Some(active_connections),
                relay_connection_limit: Some(connection_limit),
                ..old(self)@
            }),
            final(self).wf() == old(self).wf(),
            final(self).state_entered_at() == old(self).state_entered_at(),
    {
        self.relay_active_connections = Some(active_connections);
        self.relay_connection_limit = Some(connection_limit);
    }

    /// The current network state.
    pub fn network_state(&self) -> (s: &NetworkState)
        ensures
            *s == self@.network_state,
    {
        &self.network_state
    }

    /// Enter the syncing state.
    pub fn set_syncing(&mut self)
        ensures
            final(self)@ == (PanelView { network_state: NetworkState::Syncing, ..old(self)@ }),
            final(self).wf() == old(self).wf(),
    {
        self.network_state = NetworkState::Syncing;
        self.state_start_time = instant_now();
    }

    /// Whether this node acts as a relay.
    pub fn is_relay_node(&self) -> (r: bool)
        ensures
            r == self@.is_relay_node,
    {
        self.is_relay_node
    }

    /// Enter the online state.
    pub fn set_online(&mut self)
        ensures
            final(self)@ == (PanelView { network_state: NetworkState::Online, ..old(self)@ }),
            final(self).wf() == old(self).wf(),
            final(self).state_entered_at() == old(self).state_entered_at(),
    {
        self.network_state = NetworkState::Online;
    }

    /// When the current network state was entered: the clock reading taken
    /// at construction, on entering the syncing state, or on a report that
    /// the relay is restarting.
    pub closed spec fn state_entered_at(&self) -> Instant {
        self.state_start_time
    }

    /// When the current state was entered.
    pub fn state_start_time(&self) -> (t: &Instant)
        ensures
            *t == self.state_entered_at(),
    {
        &self.state_start_time
    }

    /// A message describing the network state.
    pub fn network_state_message(&self) -> (s: &'static str)
        ensures
            s@ == state_message(self@.network_state),
    {
        proof {
            reveal_strlit("Network offline");
            reveal_strlit("Starting relay...");
            reveal_strlit("Syncing with network...");
            reveal_strlit("Connected");
            reveal_strlit("Connected (degraded)");
        }
        match self.network_state {
            NetworkState::Offline => "Network offline",
            NetworkState::StartingRelay => "Starting relay...",
            NetworkState::Syncing => "Syncing with network...",
            NetworkState::Online => "Connected",
            NetworkState::Degraded => "Connected (degraded)",
        }
    }

    /// The icon and colour of the relay badge.
    pub fn overall_status(&self) -> (r: (&'static str, (u8, u8, u8)))
        ensures
            (r.0@, r.1) == badge_status(self@.relay_health_status, self@.relay_stats),
    {
        proof {
            reveal_strlit("🟢");
            reveal_strlit("🟠");
            reveal_strlit("🔴");
            reveal_strlit("🔄");
            reveal_strlit("❌");
            reveal_strlit("❓");
        }
        match self.relay_health_status {
            Some(RelayHealthStatus::Healthy) => ("🟢", (0, 158, 115)),
            Some(RelayHealthStatus::Degraded) => ("🟠", (230, 159, 0)),
            Some(RelayHealthStatus::Unreachable) => ("🔴", (213, 94, 0)),
            Some(RelayHealthStatus::Restarting) => ("🔄", (0, 114, 178)),
            Some(RelayHealthStatus::Failed) => ("❌", (213, 94, 0)),
            None => match &self.relay_stats {
                Some(v) => status_from_counts(v.len(), count_reachable(v)),
                None => ("❓", (160, 160, 160)),
            },
        }
    }

    /// Take the relay statistics: whether each known relay is reachable.
    pub fn set_relay_stats(&mut self, reachable: Vec<bool>)
        ensures
            final(self)@ == (PanelView { relay_stats: Some(reachable@), ..old(self)@ }),
            final(self).wf() == old(self).wf(),
            final(self).state_entered_at() == old(self).state_entered_at(),
    {
        self.relay_stats = Some(reachable);
    }
}

/// The text of the relay badge: the relay port, when this node is a relay
/// listening on a known port, then the status icon.
pub open spec fn badge_label(v: PanelView) -> Seq<char> {
    let icon = badge_status(v.relay_health_status, v.relay_stats).0;
    if v.is_relay_node && v.relay_port is Some {
        "Relay:"@ + decimal(v.relay_port->0 as nat) + " "@ + icon
    } else {
        "Relay: "@ + icon
    }
}

/// The badge tooltip, once the relay health is known.
pub open spec fn badge_tooltip_text(v: PanelView) -> Option<Seq<char>> {
    match v.relay_health_status {
        Some(h) => {
            let head = "Relay status: "@ + health_title(h) + "\n"@;
            let with_port = match v.relay_port {
                Some(p) => head + "Port: "@ + decimal(p as nat) + "\n"@,
                None => head,
            };
            Some(
                with_port + if v.is_relay_node {
                    "Mode: Embedded relay\nClick for detailed status"@
                } else {
                    "Mode: Client\nClick for relay diagnostics"@
                },
            )
        },
        None => None,
    }
}

/// The state is one that is still settling, shown with a spinner and the
/// time spent in it.
pub open spec fn is_transitional(s: NetworkState) -> bool {
    s == NetworkState::StartingRelay || s == NetworkState::Syncing
}

/// The status tooltip, with `tenths` the tenths of seconds spent in the
/// current state.
pub open spec fn network_tooltip_text(v: PanelView, tenths: nat) -> Seq<char> {
    match v.relay_health_status {
        Some(h) => {
            let head = "Network Status: "@ + health_word(h) + "\n"@ + if v.is_relay_node {
                "Mode: Self-Hosted Relay\n"@
            } else {
                "Mode: Client\n"@
            };
            let with_port = match v.relay_port {
                Some(p) => head + "Port: "@ + decimal(p as nat) + "\n"@,
                None => head,
            };
            if is_transitional(v.network_state) {
                with_port + "Time in state: "@ + tenths_text(tenths) + "s"@
            } else {
                with_port
            }
        },
        None => "Network Status: Unknown"@,
    }
}

/// The text of the network badge: the state message, with the relay port
/// after a colon when known.
pub open spec fn network_badge_label(v: PanelView) -> Seq<char> {
    match v.relay_port {
        Some(p) => state_message(v.network_state) + ":"@ + decimal(p as nat),
        None => state_message(v.network_state),
    }
}

/// The relay mode shown in the advanced panel.
pub open spec fn relay_mode(is_relay_node: bool) -> Seq<char> {
    if is_relay_node {
        "Self-Hosted Relay"@
    } else {
        "Client (Using External Relay)"@
    }
}

/// The relay addresses of the bootstrap text: each non-blank line trimmed
/// and quoted.
pub open spec fn quoted_relays(ls: Seq<Seq<char>>) -> Seq<Seq<char>>
    decreases ls.len(),
{
    if ls.len() == 0 {
        Seq::empty()
    } else {
        let rest = quoted_relays(ls.drop_last());
        let t = trim(ls.last());
        if t.len() == 0 {
            rest
        } else {
            rest.push("\""@ + t + "\""@)
        }
    }
}

/// The items joined by commas.
pub open spec fn join_commas(items: Seq<Seq<char>>) -> Seq<char>
    decreases items.len(),
{
    if items.len() == 0 {
        Seq::empty()
    } else if items.len() == 1 {
        items[0]
    } else {
        join_commas(items.drop_last()) + ","@ + items.last()
    }
}

/// The network configuration that uses the relays listed one per line in
/// `text`.
pub open spec fn relay_config(text: Seq<char>) -> Seq<char> {
    "{\n                                \"relay_mode\": \"CustomRelays\",\n                                \"relay_addrs\": ["@
        + join_commas(quoted_relays(crate::chars::lines(text)))
        + "]\n                            }"@
}

/// The text of a boolean as `{}` writes it.
pub open spec fn bool_text(b: bool) -> Seq<char> {
    if b {
        "true"@
    } else {
        "false"@
    }
}

/// The test results, each indented by two spaces on a line of its own.
pub open spec fn result_lines(rs: Seq<Seq<char>>) -> Seq<char>
    decreases rs.len(),
{
    if rs.len() == 0 {
        Seq::empty()
    } else {
        result_lines(rs.drop_last()) + "  "@ + rs.last() + "\n"@
    }
}

/// The diagnostic report, with `quality` the lines of connection quality
/// metrics.
pub open spec fn diagnostic_report_text(v: PanelView, quality: Seq<char>) -> Seq<char> {
    let head = "P2P Go Network Diagnostics Report\n"@ + "================================\n\n"@
        + "Network State: "@ + state_name(v.network_state) + "\n"@ + "Is Relay Node: "@ + bool_text(
        v.is_relay_node,
    ) + "\n"@;
    let with_port = match v.relay_port {
        Some(p) => head + "Relay Port: "@ + decimal(p as nat) + "\n"@,
        None => head,
    };
    let body = with_port + "\nConnection Quality:\n"@ + quality + "\nActive Games: "@ + decimal(
        v.games.len(),
    ) + "\n"@;
    if v.test_results.len() == 0 {
        body
    } else {
        body + "\nLast Connection Test:\n"@ + result_lines(v.test_results)
    }
}

/// The number of tracked games that are synced.
pub open spec fn synced_count(gs: Seq<(Seq<char>, (usize, bool))>) -> nat
    decreases gs.len(),
{
    if gs.len() == 0 {
        0
    } else {
        synced_count(gs.drop_last()) + if gs.last().1.1 {
            1nat
        } else {
            0nat
        }
    }
}

fn health_title_str(h: RelayHealthStatus) -> (s: &'static str)
    ensures
        s@ == health_title(h),
{
    proof {
        reveal_strlit("Healthy");
        reveal_strlit("Degraded");
        reveal_strlit("Unreachable");
        reveal_strlit("Restarting");
        reveal_strlit("Failed");
    }
    match h {
        RelayHealthStatus::Healthy => "Healthy",
        RelayHealthStatus::Degraded => "Degraded",
        RelayHealthStatus::Unreachable => "Unreachable",
        RelayHealthStatus::Restarting => "Restarting",
        RelayHealthStatus::Failed => "Failed",
    }
}

fn health_word_str(h: RelayHealthStatus) -> (s: &'static str)
    ensures
        s@ == health_word(h),
{
    proof {
        reveal_strlit("healthy");
        reveal_strlit("degraded");
        reveal_strlit("unreachable");
        reveal_strlit("restarting");
        reveal_strlit("failed");
    }
    match h {
        RelayHealthStatus::Healthy => "healthy",
        RelayHealthStatus::Degraded => "degraded",
        RelayHealthStatus::Unreachable => "unreachable",
        RelayHealthStatus::Restarting => "restarting",
        RelayHealthStatus::Failed => "failed",
    }
}

fn state_name_str(s: NetworkState) -> (t: &'static str)
    ensures
        t@ == state_name(s),
{
    proof {
        reveal_strlit("Offline");
        reveal_strlit("StartingRelay");
        reveal_strlit("Syncing");
        reveal_strlit("Online");
        reveal_strlit("Degraded");
    }
    match s {
        NetworkState::Offline => "Offline",
        NetworkState::StartingRelay => "StartingRelay",
        NetworkState::Syncing => "Syncing",
        NetworkState::Online => "Online",
        NetworkState::Degraded => "Degraded",
    }
}

impl NetworkPanel {
    /// The text of the relay badge.
    pub fn badge_text(&self) -> (s: String)
        ensures
            s@ == badge_label(self@),
    {
        let (icon, _) = self.overall_status();
        proof {
            reveal_strlit("Relay:");
            reveal_strlit(" ");
            reveal_strlit("Relay: ");
        }
        if self.is_relay_node {
            if let Some(port) = self.relay_port {
                let mut s = String::from_str("Relay:");
                push_decimal(&mut s, port as u64);
                s.append(" ");
                s.append(icon);
                return s;
            }
        }
        let mut s = String::from_str("Relay: ");
        s.append(icon);
        s
    }

    /// The tooltip of the relay badge, once the relay health is known.
    pub fn badge_tooltip(&self) -> (t: Option<String>)
        ensures
            match t {
                Some(s) => badge_tooltip_text(self@) == Some(s@),
                None => badge_tooltip_text(self@) is None,
            },
    {
        proof {
            reveal_strlit("Relay status: ");
            reveal_strlit("\n");
            reveal_strlit("Port: ");
            reveal_strlit("Mode: Embedded relay\nClick for detailed status");
            reveal_strlit("Mode: Client\nClick for relay diagnostics");
        }
        match self.relay_health_status {
            Some(h) => {
                let mut s = String::from_str("Relay status: ");
                s.append(health_title_str(h));
                s.append("\n");
                if let Some(p) = self.relay_port {
                    s.append("Port: ");
                    push_decimal(&mut s, p as u64);
                    s.append("\n");
                }
                if self.is_relay_node {
                    s.append("Mode: Embedded relay\nClick for detailed status");
                } else {
                    s.append("Mode: Client\nClick for relay diagnostics");
                }
                Some(s)
            },
            None => None,
        }
    }

    /// The status tooltip, with `tenths` the tenths of seconds spent in the
    /// current state.
    pub fn network_tooltip(&self, tenths: u64) -> (s: String)
        ensures
            s@ == network_tooltip_text(self@, tenths as nat),
    {
        proof {
            reveal_strlit("Network Status: ");
            reveal_strlit("\n");
            reveal_strlit("Mode: Self-Hosted Relay\n");
            reveal_strlit("Mode: Client\n");
            reveal_strlit("Port: ");
            reveal_strlit("Time in state: ");
            reveal_strlit("s");
            reveal_strlit("Network Status: Unknown");
        }
        match self.relay_health_status {
            Some(h) => {
                let mut s = String::from_str("Network Status: ");
                s.append(health_word_str(h));
                s.append("\n");
                if self.is_relay_node {
                    s.append("Mode: Self-Hosted Relay\n");
                } else {
                    s.append("Mode: Client\n");
                }
                if let Some(p) = self.relay_port {
                    s.append("Port: ");
                    push_decimal(&mut s, p as u64);
                    s.append("\n");
                }
                if self.network_state == NetworkState::StartingRelay || self.network_state
                    == NetworkState::Syncing {
                    s.append("Time in state: ");
                    let t = tenths_string(tenths);
                    s.append(t.as_str());
                    s.append("s");
                }
                s
            },
            None => String::from_str("Network Status: Unknown"),
        }
    }

    /// The text of the network badge.
    pub fn network_badge_text(&self) -> (s: String)
        ensures
            s@ == network_badge_label(self@),
    {
        let mut s = String::from_str(self.network_state_message());
        if let Some(p) = self.relay_port {
            s.append(":");
            push_decimal(&mut s, p as u64);
            proof {
                reveal_strlit(":");
            }
        }
        s
    }

    /// A spinner is shown while the state settles.
    pub fn shows_spinner(&self) -> (r: bool)
        ensures
            r == is_transitional(self@.network_state),
    {
        self.network_state == NetworkState::StartingRelay || self.network_state == NetworkState::Syncing
    }

    /// The relay mode shown in the advanced panel.
    pub fn relay_mode_text(&self) -> (s: &'static str)
        ensures
            s@ == relay_mode(self@.is_relay_node),
    {
        proof {
            reveal_strlit("Self-Hosted Relay");
            reveal_strlit("Client (Using External Relay)");
        }
        if self.is_relay_node {
            "Self-Hosted Relay"
        } else {
            "Client (Using External Relay)"
        }
    }

    /// The selected tab of the diagnostics window.
    pub fn diagnostics_tab(&self) -> (t: DiagnosticsTab)
        ensures
            t == self@.diagnostics_tab,
    {
        self.diagnostics_tab
    }

    /// Select a tab of the diagnostics window.
    pub fn select_tab(&mut self, tab: DiagnosticsTab)
        ensures
            final(self)@ == (PanelView { diagnostics_tab: tab, ..old(self)@ }),
            final(self).wf() == old(self).wf(),
            final(self).state_entered_at() == old(self).state_entered_at(),
    {
        self.diagnostics_tab = tab;
    }

    /// The bootstrap relay text, one address per line.
    pub fn bootstrap_relays(&self) -> (s: &String)
        ensures
            s@ == self@.bootstrap_relays,
    {
        &self.bootstrap_relays
    }

    /// Replace the bootstrap relay text.
    pub fn set_bootstrap_relays(&mut self, text: String)
        ensures
            final(self)@ == (PanelView { bootstrap_relays: text@, ..old(self)@ }),
            final(self).wf() == old(self).wf(),
            final(self).state_entered_at() == old(self).state_entered_at(),
    {
        self.bootstrap_relays = text;
    }

    /// The network configuration that uses the bootstrap relays.
    pub fn bootstrap_config_json(&self) -> (s: String)
        ensures
            s@ == relay_config(self@.bootstrap_relays),
    {
        let ls = split_lines(self.bootstrap_relays.as_str());
        let ghost lv = ls@.map_values(|l: String| l@);
        let mut joined = String::new();
        let mut count: usize = 0;
        let mut i: usize = 0;
        while i < ls.len()
            invariant
                0 <= i <= ls@.len(),
                lv == ls@.map_values(|l: String| l@),
                count <= i,
                quoted_relays(lv.take(i as int)).len() == count,
                joined@ == join_commas(quoted_relays(lv.take(i as int))),
            decreases ls@.len() - i,
        {
            let v = chars_of(ls[i].as_str());
            let (a, b) = trim_bounds(&v, 0, v.len());
            proof {
                assert(v@.subrange(0, v@.len() as int) =~= v@);
                assert(lv.take(i + 1).drop_last() =~= lv.take(i as int));
                assert(lv.take(i + 1).last() == lv[i as int]);
            }
            if a < b {
                let t = string_of(&v, a, b);
                if count > 0 {
                    joined.append(",");
                }
                joined.append("\"");
                joined.append(t.as_str());
                joined.append("\"");
                proof {
                    reveal_strlit(",");
                    reveal_strlit("\"");
                    let q = quoted_relays(lv.take(i as int));
                    let item = "\""@ + t@ + "\""@;
                    assert(q.push(item).drop_last() =~= q);
                    if count == 0 {
                        assert(q.push(item) =~= seq![item]);
                    }
                }
                count = count + 1;
            }
            i += 1;
        }
        assert(lv.take(i as int) =~= lv);
        let mut s = String::from_str(
            "{\n                                \"relay_mode\": \"CustomRelays\",\n                                \"relay_addrs\": [",
        );
        s.append(joined.as_str());
        s.append("]\n                            }");
        proof {
            reveal_strlit(
                "{\n                                \"relay_mode\": \"CustomRelays\",\n                                \"relay_addrs\": [",
            );
            reveal_strlit("]\n                            }");
        }
        s
    }
}

/// A tracked game's id shortened for the table: ids of more than 12 bytes
/// cut to their first 12 bytes and an ellipsis.
pub open spec fn short_game_id_text(id: Seq<char>) -> Seq<char> {
    if utf8_len(id) > 12 {
        take_bytes(id, 12) + "..."@
    } else {
        id
    }
}

/// Shortening `id` would cut through a multi-byte character.
pub open spec fn game_id_cut_splits_char(id: Seq<char>) -> bool {
    utf8_len(id) > 12 && utf8_len(take_bytes(id, 12)) != 12
}

/// A tracked game's id as the game table shows it.
pub fn short_game_id(id: &str) -> (s: String)
    requires
        !game_id_cut_splits_char(id@),
    ensures
        s@ == short_game_id_text(id@),
{
    let v = chars_of(id);
    assert(v@.subrange(0, v@.len() as int) =~= v@);
    if !utf8_len_exceeds(&v, 0, v.len(), 12) {
        return String::from_str(id);
    }
    let (k, _) = prefix_for_bytes(&v, 12);
    let mut s = string_of(&v, 0, k);
    s.append("...");
    proof {
        reveal_strlit("...");
        assert(v@.subrange(0, k as int) =~= v@.take(k as int));
    }
    s
}

impl NetworkPanel {
    /// The position of the game with id `game_id`, if tracked.
    fn find_game(&self, game_id: &String) -> (r: Option<usize>)
        ensures
            match r {
                Some(i) => i < self@.games.len() && self@.games[i as int].0 == game_id@,
                None => forall|j: int| 0 <= j < self@.games.len() ==> #[trigger] self@.games[j].0 != game_id@,
            },
    {
        let mut i: usize = 0;
        while i < self.game_connections.len()
            invariant
                0 <= i <= self.game_connections@.len(),
                forall|j: int| 0 <= j < i ==> #[trigger] self@.games[j].0 != game_id@,
            decreases self.game_connections@.len() - i,
        {
            if self.game_connections[i].game_id == *game_id {
                return Some(i);
            }
            i += 1;
        }
        None
    }

    /// Track game `game_id` with `peer_count` peers, synced or not, marking
    /// it synced just now.
    pub fn update_game_connection(&mut self, game_id: String, peer_count: usize, is_synced: bool)
        requires
            old(self).wf(),
        ensures
            final(self).wf(),
            keyed_map(final(self)@.games) == keyed_map(old(self)@.games).insert(
                game_id@,
                (peer_count, is_synced),
            ),
            final(self)@.games.len() == old(self)@.games.len() + if keyed_map(
                old(self)@.games,
            ).dom().contains(game_id@) {
                0int
            } else {
                1int
            },
            final(self)@ == (PanelView { games: final(self)@.games, ..old(self)@ }),
            final(self).state_entered_at() == old(self).state_entered_at(),
    {
        let ghost gs = self@.games;
        let ghost x = (game_id@, (peer_count, is_synced));
        let found = self.find_game(&game_id);
        let entry = GameConnectionInfo { game_id, peer_count, last_sync: instant_now(), is_synced };
        proof {
            lemma_keyed_map_dom(gs, x.0);
        }
        match found {
            Some(i) => {
                self.game_connections.set(i, entry);
                proof {
                    assert(self@.games =~= gs.update(i as int, x));
                    lemma_keyed_map_update(gs, i as int, x);
                }
            },
            None => {
                self.game_connections.push(entry);
                proof {
                    assert(self@.games =~= gs.push(x));
                    lemma_keyed_map_push(gs, x);
                }
            },
        }
    }

    /// Stop tracking game `game_id`.
    pub fn remove_game_connection(&mut self, game_id: &str)
        requires
            old(self).wf(),
        ensures
            final(self).wf(),
            keyed_map(final(self)@.games) == keyed_map(old(self)@.games).remove(game_id@),
            final(self)@ == (PanelView { games: final(self)@.games, ..old(self)@ }),
            final(self).state_entered_at() == old(self).state_entered_at(),
    {
        let ghost gs = self@.games;
        let id = String::from_str(game_id);
        match self.find_game(&id) {
            Some(i) => {
                self.game_connections.remove(i);
                proof {
                    assert(self@.games =~= gs.remove(i as int));
                    lemma_keyed_map_remove(gs, i as int);
                }
            },
            None => {
                proof {
                    lemma_keyed_map_dom(gs, game_id@);
                    assert(keyed_map(gs).remove(game_id@) =~= keyed_map(gs));
                }
            },
        }
    }

    /// The tracked games.
    pub fn game_connections(&self) -> (v: &Vec<GameConnectionInfo>)
        ensures
            v@.map_values(|g: GameConnectionInfo| g@) == self@.games,
    {
        &self.game_connections
    }

    /// The number of tracked games that are synced.
    pub fn synced_game_count(&self) -> (n: usize)
        ensures
            n == synced_count(self@.games),
    {
        let ghost gs = self@.games;
        let mut n: usize = 0;
        let mut i: usize = 0;
        while i < self.game_connections.len()
            invariant
                0 <= i <= self.game_connections@.len(),
                gs == self@.games,
                n <= i,
                n == synced_count(gs.take(i as int)),
            decreases self.game_connections@.len() - i,
        {
            proof {
                assert(gs.take(i + 1).drop_last() =~= gs.take(i as int));
            }
            if self.game_connections[i].is_synced {
                n = n + 1;
            }
            i += 1;
        }
        assert(gs.take(i as int) =~= gs);
        n
    }

    /// Whether the connection test can be run, `secs_since_last_test` seconds
    /// after the last one: not while one runs, and not within ten seconds
    /// of the last.
    pub fn can_run_connection_test(&self, secs_since_last_test: u64) -> (r: bool)
        ensures
            r == (!self@.test_in_progress && (!self@.tested_before || secs_since_last_test > 10)),
    {
        !self.connection_test_in_progress && (self.last_connection_test.is_none()
            || secs_since_last_test > 10)
    }

    /// When the last connection test finished.
    pub fn last_connection_test(&self) -> (t: Option<&Instant>)
        ensures
            t is Some == self@.tested_before,
    {
        match &self.last_connection_test {
            Some(t) => Some(t),
            None => None,
        }
    }

    /// Start a connection test: the results so far are replaced by a note
    /// that it started.
    pub fn start_connection_test(&mut self)
        ensures
            final(self)@ == (PanelView {
                test_in_progress: true,
                test_results: seq!["Starting connection test..."@],
                ..old(self)@
            }),
            final(self).wf() == old(self).wf(),
            final(self).state_entered_at() == old(self).state_entered_at(),
    {
        self.connection_test_in_progress = true;
        self.test_results.clear();
        self.test_results.push(String::from_str("Starting connection test..."));
        proof {
            reveal_strlit("Starting connection test...");
            assert(self@.test_results =~= seq!["Starting connection test..."@]);
        }
    }

    /// Record the results of a finished connection test.
    pub fn update_test_results(&mut self, results: Vec<String>)
        ensures
            final(self)@ == (PanelView {
                test_results: results@.map_values(|r: String| r@),
                test_in_progress: false,
                tested_before: true,
                ..old(self)@
            }),
            final(self).wf() == old(self).wf(),
            final(self).state_entered_at() == old(self).state_entered_at(),
    {
        self.test_results = results;
        self.connection_test_in_progress = false;
        self.last_connection_test = Some(instant_now());
    }

    /// The results of the last connection test.
    pub fn test_results(&self) -> (v: &Vec<String>)
        ensures
            v@.map_values(|r: String| r@) == self@.test_results,
    {
        &self.test_results
    }

    /// The diagnostic report, with `quality` the lines of connection quality
    /// metrics.
    pub fn diagnostic_report(&self, quality: &str) -> (s: String)
        ensures
            s@ == diagnostic_report_text(self@, quality@),
    {
        proof {
            reveal_strlit("P2P Go Network Diagnostics Report\n");
            reveal_strlit("================================\n\n");
            reveal_strlit("Network State: ");
            reveal_strlit("\n");
            reveal_strlit("Is Relay Node: ");
            reveal_strlit("true");
            reveal_strlit("false");
            reveal_strlit("Relay Port: ");
            reveal_strlit("\nConnection Quality:\n");
            reveal_strlit("\nActive Games: ");
            reveal_strlit("\nLast Connection Test:\n");
            reveal_strlit("  ");
        }
        let mut s = String::from_str("P2P Go Network Diagnostics Report\n");
        s.append("================================\n\n");
        s.append("Network State: ");
        s.append(state_name_str(self.network_state));
        s.append("\n");
        s.append("Is Relay Node: ");
        s.append(if self.is_relay_node {
            "true"
        } else {
            "false"
        });
        s.append("\n");
        if let Some(p) = self.relay_port {
            s.append("Relay Port: ");
            push_decimal(&mut s, p as u64);
            s.append("\n");
        }
        s.append("\nConnection Quality:\n");
        s.append(quality);
        s.append("\nActive Games: ");
        push_decimal(&mut s, self.game_connections.len() as u64);
        s.append("\n");
        if self.test_results.len() > 0 {
            s.append("\nLast Connection Test:\n");
            let ghost rs = self@.test_results;
            let ghost base = s@;
            let mut i: usize = 0;
            while i < self.test_results.len()
                invariant
                    0 <= i <= self.test_results@.len(),
                    rs == self@.test_results,
                    s@ == base + result_lines(rs.take(i as int)),
                decreases self.test_results@.len() - i,
            {
                proof {
                    assert(rs.take(i + 1).drop_last() =~= rs.take(i as int));
                }
                s.append("  ");
                s.append(self.test_results[i].as_str());
                s.append("\n");
                i += 1;
            }
            assert(rs.take(i as int) =~= rs);
        }
        s
    }
}

/// Toggling the panel twice leaves it as it was.
pub proof fn lemma_toggle_twice(v: PanelView)
    ensures
        (PanelView { visible: !(PanelView { visible: !v.visible, ..v }).visible, ..v }) == v,
{
}

/// Tracking a game and then removing it forgets it, leaving the other
/// tracked games as they were before.
pub proof fn lemma_track_then_remove(
    games: Seq<(Seq<char>, (usize, bool))>,
    id: Seq<char>,
    info: (usize, bool),
)
    ensures
        keyed_map(games).insert(id, info).remove(id) == keyed_map(games).remove(id),
{
    assert(keyed_map(games).insert(id, info).remove(id) =~= keyed_map(games).remove(id));
}

} // verus!

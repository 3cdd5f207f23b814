//! How the application reacts to reports from the network worker: which
//! parts of its state each report changes, what it logs, which
//! notifications it shows and which requests it sends back.
//!
//! Receiving the reports, applying moves to the game state and performing
//! the effects (notifications, requests, screen changes, log file lines)
//! are done by the application; this module decides them.
use crate::chars::{chars_of, contains, find_from_exec, prefix_for_bytes, string_of, take_bytes, trim, trim_bounds, utf8_len, utf8_len_exceeds};
use crate::connection_status::{after_connection_report, after_relay_report, ConnectionStatusWidget};
use crate::error_logger::{log_outcome, ErrorLevel, ErrorLogger};
use crate::keyed::keyed_map;
use crate::network_panel::{NetworkPanel, PanelView, RelayHealthStatus, state_after_health};
use crate::text::{decimal, push_decimal, tenths_string, tenths_text};
use vstd::prelude::*;
use vstd::string::StringExecFns;

verus! {

/// Application configuration settings.
#[derive(Debug, Clone, Copy, PartialEq, Eq, Structural)]
pub struct AppConfig {
    /// Whether to refresh the lobby automatically.
    pub auto_refresh: bool,
    /// Number of completed games.
    pub games_finished: u32,
}

impl Default for AppConfig {
    fn default() -> (c: Self)
        ensures
            c == (AppConfig { auto_refresh: true, games_finished: 0 }),
    {
        AppConfig { auto_refresh: true, games_finished: 0 }
    }
}

/// Kind of an on-screen notification.
#[derive(Debug, Clone, Copy, PartialEq, Eq, Structural)]
pub enum ToastKind {
    Info,
    Success,
    Warning,
    Error,
}

/// A request sent back to the network worker.
#[derive(Debug, Clone, Copy, PartialEq, Eq, Structural)]
pub enum NetRequest {
    RefreshGames,
    GetTicket,
    GetNodeId,
    GetGhostMoves,
}

/// Something the application does in answer to a report.
#[derive(Debug, Clone)]
pub enum AppEffect {
    /// Show a notification.
    Toast { kind: ToastKind, text: String },
    /// Send a request to the network worker.
    Send(NetRequest),
    /// Show the lobby of a game, waiting for the opponent.
    ShowLobby(String),
    /// Go back to the main menu.
    ShowMainMenu,
    /// Apply the reported move to the game on screen; a game that has just
    /// begun starts from an empty board of the board widget's size.
    ApplyMove,
}

/// An effect as the contracts speak of it.
pub enum EffectView {
    Toast(ToastKind, Seq<char>),
    Send(NetRequest),
    ShowLobby(Seq<char>),
    ShowMainMenu,
    ApplyMove,
}

impl View for AppEffect {
    type V = EffectView;

    open spec fn view(&self) -> EffectView {
        match self {
            AppEffect::Toast { kind, text } => EffectView::Toast(*kind, text@),
            AppEffect::Send(r) => EffectView::Send(*r),
            AppEffect::ShowLobby(g) => EffectView::ShowLobby(g@),
            AppEffect::ShowMainMenu => EffectView::ShowMainMenu,
            AppEffect::ApplyMove => EffectView::ApplyMove,
        }
    }
}

/// The effects of a list, as the contracts speak of them.
pub open spec fn effects_of(v: Seq<AppEffect>) -> Seq<EffectView> {
    v.map_values(|e: AppEffect| e@)
}

/// The text of an optional string.
pub open spec fn opt_chars(o: Option<String>) -> Option<Seq<char>> {
    match o {
        Some(s) => Some(s@),
        None => None,
    }
}

/// The notice the worker sends while ghost moves are not yet available; it
/// is shown once per session as information, not as an error.
pub open spec fn ghost_notice() -> Seq<char> {
    "Ghost moves will be available"@
}

/// The error shown when the opponent did not accept the score in time.
pub open spec fn score_timeout_text(board_size: u8) -> Seq<char> {
    "Score acceptance timed out for "@ + decimal(board_size as nat) + "×"@ + decimal(board_size as nat)
        + " game. Game will be discarded."@
}

/// When a relay restart happened: `secs` seconds ago, if known.
pub open spec fn restart_when(secs: Option<u64>) -> Seq<char> {
    match secs {
        None => "now"@,
        Some(s) => if s < 5 {
            "just now"@
        } else {
            decimal(s as nat) + " sec ago"@
        },
    }
}

/// The notification for a relay health report, if any.
pub open spec fn relay_toast(
    status: RelayHealthStatus,
    port: Option<u16>,
    is_relay_node: bool,
    secs_since_restart: Option<u64>,
) -> Seq<EffectView> {
    match status {
        RelayHealthStatus::Healthy => if is_relay_node {
            seq![
                EffectView::Toast(
                    ToastKind::Success,
                    "Relay active"@ + match port {
                        Some(p) => " on port "@ + decimal(p as nat),
                        None => Seq::empty(),
                    },
                ),
            ]
        } else {
            Seq::empty()
        },
        RelayHealthStatus::Restarting => seq![
            EffectView::Toast(ToastKind::Warning, "Relay restarting "@ + restart_when(secs_since_restart)),
        ],
        RelayHealthStatus::Failed => seq![
            EffectView::Toast(ToastKind::Error, "Relay service failed to start"@),
        ],
        _ => Seq::empty(),
    }
}

/// The application state that network reports change.
pub struct NetSession {
    /// The network diagnostics panel.
    pub panel: NetworkPanel,
    /// The connection indicator.
    pub connection: ConnectionStatusWidget,
    /// The error log.
    pub logger: ErrorLogger,
    /// The error shown to the user.
    pub error_msg: Option<String>,
    /// This node's id, once reported.
    pub node_id: Option<String>,
    /// The connection ticket, once reported.
    pub current_ticket: Option<String>,
    /// The NAT report, once received.
    pub nat_report: Option<String>,
    /// The ghost move notice was shown this session.
    pub ghost_moves_error_shown: bool,
    /// Games finished so far; from five on, ghost moves are asked for.
    pub games_finished: u32,
}

/// Two sessions agree on what the worker reported of this node (its id,
/// ticket and NAT report) and on the games finished.
pub open spec fn same_reports(a: NetSession, b: NetSession) -> bool {
    &&& a.node_id == b.node_id
    &&& a.current_ticket == b.current_ticket
    &&& a.nat_report == b.nat_report
    &&& a.games_finished == b.games_finished
}

impl NetSession {
    /// The panel and the log are well formed.
    pub open spec fn wf(&self) -> bool {
        self.panel.wf() && self.logger.wf()
    }

    /// A session with the given panel, indicator and log, nothing reported
    /// yet.
    pub fn new(
        panel: NetworkPanel,
        connection: ConnectionStatusWidget,
        logger: ErrorLogger,
        games_finished: u32,
    ) -> (s: Self)
        ensures
            s.panel == panel,
            s.connection == connection,
            s.logger == logger,
            s.error_msg is None,
            s.node_id is None,
            s.current_ticket is None,
            s.nat_report is None,
            !s.ghost_moves_error_shown,
            s.games_finished == games_finished,
    {
        NetSession {
            panel,
            connection,
            logger,
            error_msg: None,
            node_id: None,
            current_ticket: None,
            nat_report: None,
            ghost_moves_error_shown: false,
            games_finished,
        }
    }

    /// The connection went up or down.
    pub fn on_connection_status(&mut self, connected: bool)
        ensures
            final(self).connection.state() == after_connection_report(connected),
            final(self).panel == old(self).panel,
            final(self).logger == old(self).logger,
            final(self).error_msg == old(self).error_msg,
            final(self).ghost_moves_error_shown == old(self).ghost_moves_error_shown,
            same_reports(*final(self), *old(self)),
    {
        self.connection.on_connection_status(connected);
    }

    /// A game was created or joined: the panel tracks it and the lobby
    /// waits for the opponent; experienced players get ghost moves.
    pub fn on_game_joined(&mut self, game_id: String) -> (effects: Vec<AppEffect>)
        requires
            old(self).wf(),
        ensures
            final(self).wf(),
            keyed_map(final(self).panel@.games) == keyed_map(old(self).panel@.games).insert(
                game_id@,
                (1usize, true),
            ),
            final(self).panel@ == (PanelView { games: final(self).panel@.games, ..old(self).panel@ }),
            final(self).logger == old(self).logger,
            final(self).connection == old(self).connection,
            final(self).error_msg == old(self).error_msg,
            final(self).ghost_moves_error_shown == old(self).ghost_moves_error_shown,
            same_reports(*final(self), *old(self)),
            effects_of(effects@) == seq![EffectView::ShowLobby(game_id@)] + if old(self).games_finished
                >= 5 {
                seq![EffectView::Send(NetRequest::GetGhostMoves)]
            } else {
                Seq::empty()
            },
    {
        self.panel.update_game_connection(game_id.clone(), 1, true);
        let mut effects: Vec<AppEffect> = Vec::new();
        effects.push(AppEffect::ShowLobby(game_id));
        if self.games_finished >= 5 {
            effects.push(AppEffect::Send(NetRequest::GetGhostMoves));
        }
        proof {
            if old(self).games_finished >= 5 {
                assert(effects_of(effects@) =~= seq![EffectView::ShowLobby(game_id@)] + seq![
                    EffectView::Send(NetRequest::GetGhostMoves),
                ]);
            } else {
                assert(effects_of(effects@) =~= seq![EffectView::ShowLobby(game_id@)]
                    + Seq::<EffectView>::empty());
            }
        }
        effects
    }

    /// The current game was left; `game_in_view` is the game on screen, if
    /// one is being played.
    pub fn on_game_left(&mut self, game_in_view: Option<String>) -> (effects: Vec<AppEffect>)
        requires
            old(self).wf(),
        ensures
            final(self).wf(),
            keyed_map(final(self).panel@.games) == match game_in_view {
                Some(g) => keyed_map(old(self).panel@.games).remove(g@),
                None => keyed_map(old(self).panel@.games),
            },
            final(self).panel@ == (PanelView { games: final(self).panel@.games, ..old(self).panel@ }),
            final(self).logger == old(self).logger,
            final(self).error_msg == old(self).error_msg,
            final(self).connection == old(self).connection,
            final(self).ghost_moves_error_shown == old(self).ghost_moves_error_shown,
            same_reports(*final(self), *old(self)),
            effects_of(effects@) == seq![EffectView::ShowMainMenu],
    {
        if let Some(g) = game_in_view {
            self.panel.remove_game_connection(g.as_str());
        }
        let mut effects: Vec<AppEffect> = Vec::new();
        effects.push(AppEffect::ShowMainMenu);
        assert(effects_of(effects@) =~= seq![EffectView::ShowMainMenu]);
        effects
    }

    /// The worker reported an error. The ghost move notice is logged as
    /// information and shown once per session; any other error is logged
    /// and shown as the current error. Returns the notifications and the
    /// line to append to the log file, if any.
    pub fn on_error(&mut self, message: String) -> (r: (Vec<AppEffect>, Option<String>))
        requires
            old(self).wf(),
        ensures
            final(self).wf(),
            final(self).panel == old(self).panel,
            final(self).connection == old(self).connection,
            same_reports(*final(self), *old(self)),
            contains(message@, ghost_notice()) ==> {
                &&& final(self).error_msg == old(self).error_msg
                &&& final(self).ghost_moves_error_shown
                &&& if old(self).ghost_moves_error_shown {
                    &&& final(self).logger@ == old(self).logger@
                    &&& r.1 is None
                    &&& effects_of(r.0@) == Seq::<EffectView>::empty()
                } else {
                    &&& log_outcome(
                        old(self).logger@,
                        final(self).logger@,
                        r.1,
                        ErrorLevel::Info,
                        "Network"@,
                        message@,
                        None,
                        None,
                    )
                    &&& effects_of(r.0@) == seq![EffectView::Toast(ToastKind::Info, message@)]
                }
            },
            !contains(message@, ghost_notice()) ==> {
                &&& log_outcome(
                    old(self).logger@,
                    final(self).logger@,
                    r.1,
                    ErrorLevel::Error,
                    "Network"@,
                    message@,
                    None,
                    None,
                )
                &&& opt_chars(final(self).error_msg) == Some(message@)
                &&& final(self).ghost_moves_error_shown == old(self).ghost_moves_error_shown
                &&& effects_of(r.0@) == Seq::<EffectView>::empty()
            },
    {
        let text = chars_of(message.as_str());
        let notice = chars_of("Ghost moves will be available");
        proof {
            reveal_strlit("Ghost moves will be available");
            reveal_strlit("Network");
        }
        let mut effects: Vec<AppEffect> = Vec::new();
        if find_from_exec(&text, &notice, 0).is_some() {
            if !self.ghost_moves_error_shown {
                self.ghost_moves_error_shown = true;
                let line = self.logger.log(ErrorLevel::Info, "Network", message.as_str());
                effects.push(AppEffect::Toast { kind: ToastKind::Info, text: message });
                assert(effects_of(effects@) =~= seq![EffectView::Toast(ToastKind::Info, text@)]);
                (effects, line)
            } else {
                assert(effects_of(effects@) =~= Seq::<EffectView>::empty());
                (effects, None)
            }
        } else {
            let line = self.logger.log(ErrorLevel::Error, "Network", message.as_str());
            self.error_msg = Some(message);
            assert(effects_of(effects@) =~= Seq::<EffectView>::empty());
            (effects, line)
        }
    }

    /// This node's id was reported.
    pub fn on_node_id(&mut self, node_id: String)
        ensures
            final(self).node_id == Some(node_id),
            final(self).panel == old(self).panel,
            final(self).logger == old(self).logger,
            final(self).error_msg == old(self).error_msg,
            final(self).current_ticket == old(self).current_ticket,
            final(self).connection == old(self).connection,
            final(self).ghost_moves_error_shown == old(self).ghost_moves_error_shown,
            final(self).nat_report == old(self).nat_report,
            final(self).games_finished == old(self).games_finished,
    {
        self.node_id = Some(node_id);
    }

    /// The connection ticket was reported.
    pub fn on_ticket(&mut self, ticket: String)
        ensures
            final(self).current_ticket == Some(ticket),
            final(self).panel == old(self).panel,
            final(self).logger == old(self).logger,
            final(self).error_msg == old(self).error_msg,
            final(self).node_id == old(self).node_id,
            final(self).connection == old(self).connection,
            final(self).ghost_moves_error_shown == old(self).ghost_moves_error_shown,
            final(self).nat_report == old(self).nat_report,
            final(self).games_finished == old(self).games_finished,
    {
        self.current_ticket = Some(ticket);
    }

    /// A NAT report arrived.
    pub fn on_net_report(&mut self, report: String)
        ensures
            final(self).nat_report == Some(report),
            final(self).panel == old(self).panel,
            final(self).logger == old(self).logger,
            final(self).error_msg == old(self).error_msg,
            final(self).connection == old(self).connection,
            final(self).ghost_moves_error_shown == old(self).ghost_moves_error_shown,
            final(self).node_id == old(self).node_id,
            final(self).current_ticket == old(self).current_ticket,
            final(self).games_finished == old(self).games_finished,
    {
        self.nat_report = Some(report);
    }

    /// The opponent did not accept the score in time: the game is dropped
    /// and the main menu shown with an explanation.
    pub fn on_score_timeout(&mut self, board_size: u8) -> (effects: Vec<AppEffect>)
        ensures
            opt_chars(final(self).error_msg) == Some(score_timeout_text(board_size)),
            final(self).panel == old(self).panel,
            final(self).logger == old(self).logger,
            final(self).ghost_moves_error_shown == old(self).ghost_moves_error_shown,
            final(self).connection == old(self).connection,
            same_reports(*final(self), *old(self)),
            effects_of(effects@) == seq![EffectView::ShowMainMenu],
    {
        let mut m = String::from_str("Score acceptance timed out for ");
        push_decimal(&mut m, board_size as u64);
        m.append("×");
        push_decimal(&mut m, board_size as u64);
        m.append(" game. Game will be discarded.");
        proof {
            reveal_strlit("Score acceptance timed out for ");
            reveal_strlit("×");
            reveal_strlit(" game. Game will be discarded.");
        }
        self.error_msg = Some(m);
        let mut effects: Vec<AppEffect> = Vec::new();
        effects.push(AppEffect::ShowMainMenu);
        assert(effects_of(effects@) =~= seq![EffectView::ShowMainMenu]);
        effects
    }
}

impl NetSession {
    /// A relay health report: the panel follows the relay's health and
    /// role, the indicator shows a connection when this node is a relay, and
    /// important changes are announced; `secs_since_restart` is how long ago
    /// the relay restarted, when known.
    pub fn on_relay_health(
        &mut self,
        status: RelayHealthStatus,
        port: Option<u16>,
        is_relay_node: bool,
        secs_since_restart: Option<u64>,
    ) -> (effects: Vec<AppEffect>)
        requires
            old(self).wf(),
        ensures
            final(self).wf(),
            final(self).panel@ == (PanelView {
                relay_health_status: Some(status),
                relay_port: port,
                network_state: state_after_health(old(self).panel@.network_state, status),
                is_relay_node: is_relay_node,
                ..old(self).panel@
            }),
            final(self).connection.state() == after_relay_report(old(self).connection.state(), is_relay_node),
            final(self).logger == old(self).logger,
            final(self).error_msg == old(self).error_msg,
            final(self).ghost_moves_error_shown == old(self).ghost_moves_error_shown,
            same_reports(*final(self), *old(self)),
            effects_of(effects@) == relay_toast(status, port, is_relay_node, secs_since_restart),
    {
        self.connection.on_relay_health(is_relay_node);
        self.panel.update_relay_health(status, port);
        self.panel.set_is_relay_node(is_relay_node);
        let mut effects: Vec<AppEffect> = Vec::new();
        match status {
            RelayHealthStatus::Healthy => {
                if is_relay_node {
                    let mut t = String::from_str("Relay active");
                    if let Some(p) = port {
                        t.append(" on port ");
                        push_decimal(&mut t, p as u64);
                        assert(t@ =~= "Relay active"@ + (" on port "@ + decimal(p as nat)));
                    }
                    proof {
                        reveal_strlit("Relay active");
                        reveal_strlit(" on port ");
                        if port is None {
                            assert(t@ =~= "Relay active"@ + Seq::<char>::empty());
                        }
                    }
                    let ghost tv = t@;
                    effects.push(toast(ToastKind::Success, t));
                    assert(effects_of(effects@) =~= seq![EffectView::Toast(ToastKind::Success, tv)]);
                } else {
                    assert(effects_of(effects@) =~= Seq::<EffectView>::empty());
                }
            },
            RelayHealthStatus::Restarting => {
                let mut t = String::from_str("Relay restarting ");
                proof {
                    reveal_strlit("Relay restarting ");
                    reveal_strlit("now");
                    reveal_strlit("just now");
                    reveal_strlit(" sec ago");
                }
                match secs_since_restart {
                    None => {
                        t.append("now");
                    },
                    Some(secs) => {
                        if secs < 5 {
                            t.append("just now");
                        } else {
                            push_decimal(&mut t, secs);
                            t.append(" sec ago");
                            assert(t@ =~= "Relay restarting "@ + (decimal(secs as nat) + " sec ago"@));
                        }
                    },
                }
                let ghost tv = t@;
                assert(tv == "Relay restarting "@ + restart_when(secs_since_restart));
                effects.push(toast(ToastKind::Warning, t));
                assert(effects_of(effects@) =~= seq![EffectView::Toast(ToastKind::Warning, tv)]);
            },
            RelayHealthStatus::Failed => {
                proof {
                    reveal_strlit("Relay service failed to start");
                }
                effects.push(toast(ToastKind::Error, String::from_str("Relay service failed to start")));
                assert(effects_of(effects@) =~= seq![
                    EffectView::Toast(ToastKind::Error, "Relay service failed to start"@),
                ]);
            },
            _ => {
                assert(effects_of(effects@) =~= Seq::<EffectView>::empty());
            },
        }
        effects
    }

    /// A relay capacity report.
    pub fn on_relay_capacity(&mut self, current_connections: usize, max_connections: usize)
        requires
            old(self).wf(),
        ensures
            final(self).wf(),
            final(self).panel@ == (PanelView {
                relay_active_connections: Some(current_connections),
                relay_connection_limit: Some(max_connections),
                ..old(self).panel@
            }),
            final(self).logger == old(self).logger,
            final(self).connection == old(self).connection,
            final(self).error_msg == old(self).error_msg,
            final(self).ghost_moves_error_shown == old(self).ghost_moves_error_shown,
            same_reports(*final(self), *old(self)),
    {
        self.panel.update_relay_capacity(current_connections, max_connections);
    }

    /// The results of a connection test arrived.
    pub fn on_connection_test_results(&mut self, results: Vec<String>)
        requires
            old(self).wf(),
        ensures
            final(self).wf(),
            final(self).panel@ == (PanelView {
                test_results: results@.map_values(|r: String| r@),
                test_in_progress: false,
                tested_before: true,
                ..old(self).panel@
            }),
            final(self).logger == old(self).logger,
            final(self).connection == old(self).connection,
            final(self).error_msg == old(self).error_msg,
            final(self).ghost_moves_error_shown == old(self).ghost_moves_error_shown,
            same_reports(*final(self), *old(self)),
    {
        self.panel.update_test_results(results);
    }

    /// Training failed: the failure is logged and announced. Returns the
    /// notification and the line to append to the log file, if any.
    pub fn on_training_error(&mut self, message: &str) -> (r: (Vec<AppEffect>, Option<String>))
        requires
            old(self).wf(),
        ensures
            final(self).wf(),
            log_outcome(
                old(self).logger@,
                final(self).logger@,
                r.1,
                ErrorLevel::Error,
                "Training"@,
                message@,
                None,
                None,
            ),
            final(self).panel == old(self).panel,
            final(self).connection == old(self).connection,
            final(self).error_msg == old(self).error_msg,
            final(self).ghost_moves_error_shown == old(self).ghost_moves_error_shown,
            same_reports(*final(self), *old(self)),
            effects_of(r.0@) == seq![EffectView::Toast(ToastKind::Error, "Training failed: "@ + message@)],
    {
        let line = self.logger.log(ErrorLevel::Error, "Training", message);
        let mut t = String::from_str("Training failed: ");
        t.append(message);
        proof {
            reveal_strlit("Training");
            reveal_strlit("Training failed: ");
        }
        let ghost tv = t@;
        let mut effects: Vec<AppEffect> = Vec::new();
        effects.push(toast(ToastKind::Error, t));
        assert(effects_of(effects@) =~= seq![EffectView::Toast(ToastKind::Error, tv)]);
        (effects, line)
    }
}

/// What the main menu says of the network, judging by the ticket.
#[derive(Debug, Clone, Copy, PartialEq, Eq, Structural)]
pub enum TicketStatus {
    /// The loop-back ticket of a local build.
    LocalMode,
    /// A full ticket: the network is ready.
    NetworkReady,
    /// Still connecting.
    Connecting,
}

/// The network status a ticket shows.
pub open spec fn ticket_status_for(t: Seq<char>) -> TicketStatus {
    if t == "loopback-ticket"@ {
        TicketStatus::LocalMode
    } else if utf8_len(t) > 50 {
        TicketStatus::NetworkReady
    } else {
        TicketStatus::Connecting
    }
}

/// A ticket as the lobby shows it: cut to its first 100 bytes and an
/// ellipsis when longer.
pub open spec fn ticket_shown(t: Seq<char>) -> Seq<char> {
    if utf8_len(t) > 100 {
        take_bytes(t, 100) + "..."@
    } else {
        t
    }
}

/// Cutting the ticket for display would split a multi-byte character.
pub open spec fn ticket_cut_splits_char(t: Seq<char>) -> bool {
    utf8_len(t) > 100 && utf8_len(take_bytes(t, 100)) != 100
}

/// A node id as the menus show it: its first 8 characters and an
/// ellipsis.
pub open spec fn node_id_shown(id: Seq<char>) -> Seq<char> {
    (if id.len() > 8 {
        id.take(8)
    } else {
        id
    }) + "..."@
}

impl NetSession {
    /// A game can be created once a ticket is known.
    pub fn can_create_game(&self) -> (r: bool)
        ensures
            r == (self.current_ticket is Some),
    {
        self.current_ticket.is_some()
    }

    /// The network status the main menu shows, once a ticket is known.
    pub fn ticket_status(&self) -> (r: Option<TicketStatus>)
        ensures
            match self.current_ticket {
                Some(t) => r == Some(ticket_status_for(t@)),
                None => r is None,
            },
    {
        match &self.current_ticket {
            Some(t) => {
                let loopback = String::from_str("loopback-ticket");
                proof {
                    reveal_strlit("loopback-ticket");
                }
                if *t == loopback {
                    Some(TicketStatus::LocalMode)
                } else {
                    let v = chars_of(t.as_str());
                    assert(v@.subrange(0, v@.len() as int) =~= v@);
                    if utf8_len_exceeds(&v, 0, v.len(), 50) {
                        Some(TicketStatus::NetworkReady)
                    } else {
                        Some(TicketStatus::Connecting)
                    }
                }
            },
            None => None,
        }
    }

    /// The ticket as the lobby shows it, once known.
    pub fn ticket_display(&self) -> (r: Option<String>)
        requires
            self.current_ticket matches Some(t) ==> !ticket_cut_splits_char(t@),
        ensures
            match self.current_ticket {
                Some(t) => opt_chars(r) == Some(ticket_shown(t@)),
                None => r is None,
            },
    {
        match &self.current_ticket {
            Some(t) => {
                let v = chars_of(t.as_str());
                assert(v@.subrange(0, v@.len() as int) =~= v@);
                if utf8_len_exceeds(&v, 0, v.len(), 100) {
                    let (k, _) = prefix_for_bytes(&v, 100);
                    let mut s = string_of(&v, 0, k);
                    s.append("...");
                    proof {
                        reveal_strlit("...");
                        assert(v@.subrange(0, k as int) =~= v@.take(k as int));
                    }
                    Some(s)
                } else {
                    Some(t.clone())
                }
            },
            None => None,
        }
    }

    /// The node id as the menus show it, once known.
    pub fn node_id_short(&self) -> (r: Option<String>)
        ensures
            match self.node_id {
                Some(id) => opt_chars(r) == Some(node_id_shown(id@)),
                None => r is None,
            },
    {
        match &self.node_id {
            Some(id) => {
                let v = chars_of(id.as_str());
                let n = if v.len() > 8 {
                    8
                } else {
                    v.len()
                };
                let mut s = string_of(&v, 0, n);
                s.append("...");
                proof {
                    reveal_strlit("...");
                    assert(v@.subrange(0, n as int) =~= (if v@.len() > 8 {
                        v@.take(8)
                    } else {
                        v@
                    }));
                }
                Some(s)
            },
            None => None,
        }
    }
}

/// The dialog for joining a friend's game with a connection ticket.
pub struct JoinDialog {
    /// Whether the dialog is shown.
    pub open: bool,
    /// The ticket typed or pasted so far.
    pub ticket_input: String,
}

impl JoinDialog {
    /// Closed, with nothing typed.
    pub fn new() -> (d: Self)
        ensures
            !d.open,
            d.ticket_input@ == Seq::<char>::empty(),
    {
        JoinDialog { open: false, ticket_input: String::new() }
    }

    /// Show the dialog.
    pub fn show(&mut self)
        ensures
            final(self).open,
            final(self).ticket_input == old(self).ticket_input,
    {
        self.open = true;
    }

    /// Connecting is possible once something other than blanks was typed.
    pub fn can_connect(&self) -> (r: bool)
        ensures
            r == (trim(self.ticket_input@).len() > 0),
    {
        let v = chars_of(self.ticket_input.as_str());
        let (a, b) = trim_bounds(&v, 0, v.len());
        assert(v@.subrange(0, v@.len() as int) =~= v@);
        a < b
    }

    /// Connect with the typed ticket: the dialog closes and empties, and
    /// the ticket to connect with is returned with a notification.
    pub fn connect(&mut self) -> (r: (String, Vec<AppEffect>))
        ensures
            r.0@ == old(self).ticket_input@,
            !final(self).open,
            final(self).ticket_input@ == Seq::<char>::empty(),
            effects_of(r.1@) == seq![EffectView::Toast(ToastKind::Info, "Connecting to game..."@)],
    {
        let ticket = self.ticket_input.clone();
        self.ticket_input = String::new();
        self.open = false;
        proof {
            reveal_strlit("Connecting to game...");
        }
        let mut effects: Vec<AppEffect> = Vec::new();
        effects.push(toast(ToastKind::Info, String::from_str("Connecting to game...")));
        assert(effects_of(effects@) =~= seq![
            EffectView::Toast(ToastKind::Info, "Connecting to game..."@),
        ]);
        (ticket, effects)
    }

    /// Close the dialog, forgetting what was typed.
    pub fn cancel(&mut self)
        ensures
            !final(self).open,
            final(self).ticket_input@ == Seq::<char>::empty(),
    {
        self.ticket_input = String::new();
        self.open = false;
    }
}

pub(crate) fn toast(kind: ToastKind, text: String) -> (e: AppEffect)
    ensures
        e@ == EffectView::Toast(kind, text@),
{
    AppEffect::Toast { kind, text }
}

/// A game was advertised: the game list is refreshed.
pub fn on_game_advertised() -> (effects: Vec<AppEffect>)
    ensures
        effects_of(effects@) == seq![EffectView::Send(NetRequest::RefreshGames)],
{
    let mut effects: Vec<AppEffect> = Vec::new();
    effects.push(AppEffect::Send(NetRequest::RefreshGames));
    assert(effects_of(effects@) =~= seq![EffectView::Send(NetRequest::RefreshGames)]);
    effects
}

/// The network layer is restarting for `reason`.
pub fn on_net_restarting(reason: &str) -> (effects: Vec<AppEffect>)
    ensures
        effects_of(effects@) == seq![EffectView::Toast(ToastKind::Warning, "Network restarting: "@ + reason@)],
{
    let mut t = String::from_str("Network restarting: ");
    t.append(reason);
    proof {
        reveal_strlit("Network restarting: ");
    }
    let mut effects: Vec<AppEffect> = Vec::new();
    effects.push(toast(ToastKind::Warning, t));
    assert(effects_of(effects@) =~= seq![
        EffectView::Toast(ToastKind::Warning, "Network restarting: "@ + reason@),
    ]);
    effects
}

/// The network layer restarted: say so, and ask again for the game list,
/// the ticket and the node id.
pub fn on_net_restart_completed() -> (effects: Vec<AppEffect>)
    ensures
        effects_of(effects@) == seq![
            EffectView::Toast(ToastKind::Success, "Network restarted successfully"@),
            EffectView::Send(NetRequest::RefreshGames),
            EffectView::Send(NetRequest::GetTicket),
            EffectView::Send(NetRequest::GetNodeId),
        ],
{
    proof {
        reveal_strlit("Network restarted successfully");
    }
    let mut effects: Vec<AppEffect> = Vec::new();
    effects.push(toast(ToastKind::Success, String::from_str("Network restarted successfully")));
    effects.push(AppEffect::Send(NetRequest::RefreshGames));
    effects.push(AppEffect::Send(NetRequest::GetTicket));
    effects.push(AppEffect::Send(NetRequest::GetNodeId));
    assert(effects_of(effects@) =~= seq![
        EffectView::Toast(ToastKind::Success, "Network restarted successfully"@),
        EffectView::Send(NetRequest::RefreshGames),
        EffectView::Send(NetRequest::GetTicket),
        EffectView::Send(NetRequest::GetNodeId),
    ]);
    effects
}

/// A game was restored from a snapshot.
pub fn on_game_restored(game_id: &str, move_count: u64) -> (effects: Vec<AppEffect>)
    ensures
        effects_of(effects@) == seq![
            EffectView::Toast(
                ToastKind::Info,
                "Restored game "@ + game_id@ + " with "@ + decimal(move_count as nat) + " moves"@,
            ),
        ],
{
    let mut t = String::from_str("Restored game ");
    t.append(game_id);
    t.append(" with ");
    push_decimal(&mut t, move_count);
    t.append(" moves");
    proof {
        reveal_strlit("Restored game ");
        reveal_strlit(" with ");
        reveal_strlit(" moves");
    }
    let ghost tv = t@;
    let mut effects: Vec<AppEffect> = Vec::new();
    effects.push(toast(ToastKind::Info, t));
    assert(effects_of(effects@) =~= seq![EffectView::Toast(ToastKind::Info, tv)]);
    effects
}

/// Training finished after `games_trained` games.
pub fn on_training_completed(games_trained: u64) -> (effects: Vec<AppEffect>)
    ensures
        effects_of(effects@) == seq![
            EffectView::Toast(
                ToastKind::Success,
                "Training completed! Games trained: "@ + decimal(games_trained as nat),
            ),
        ],
{
    let mut t = String::from_str("Training completed! Games trained: ");
    push_decimal(&mut t, games_trained);
    proof {
        reveal_strlit("Training completed! Games trained: ");
    }
    let ghost tv = t@;
    let mut effects: Vec<AppEffect> = Vec::new();
    effects.push(toast(ToastKind::Success, t));
    assert(effects_of(effects@) =~= seq![EffectView::Toast(ToastKind::Success, tv)]);
    effects
}

/// Training progressed to `tenths` tenths of a percent.
pub fn on_training_progress(tenths: u64) -> (effects: Vec<AppEffect>)
    ensures
        effects_of(effects@) == seq![
            EffectView::Toast(ToastKind::Info, "Training progress: "@ + tenths_text(tenths as nat) + "%"@),
        ],
{
    let mut t = String::from_str("Training progress: ");
    let p = tenths_string(tenths);
    t.append(p.as_str());
    t.append("%");
    proof {
        reveal_strlit("Training progress: ");
        reveal_strlit("%");
    }
    let ghost tv = t@;
    let mut effects: Vec<AppEffect> = Vec::new();
    effects.push(toast(ToastKind::Info, t));
    assert(effects_of(effects@) =~= seq![EffectView::Toast(ToastKind::Info, tv)]);
    effects
}

/// The relay changed to the mode named `mode`.
pub fn on_relay_mode_changed(mode: &str) -> (effects: Vec<AppEffect>)
    ensures
        effects_of(effects@) == seq![
            EffectView::Toast(ToastKind::Info, "Relay mode changed to: "@ + mode@),
        ],
{
    let mut t = String::from_str("Relay mode changed to: ");
    t.append(mode);
    proof {
        reveal_strlit("Relay mode changed to: ");
    }
    let ghost tv = t@;
    let mut effects: Vec<AppEffect> = Vec::new();
    effects.push(toast(ToastKind::Info, t));
    assert(effects_of(effects@) =~= seq![EffectView::Toast(ToastKind::Info, tv)]);
    effects
}

/// `credits` training credits were earned.
pub fn on_training_credits_earned(credits: u64) -> (effects: Vec<AppEffect>)
    ensures
        effects_of(effects@) == seq![
            EffectView::Toast(
                ToastKind::Success,
                "Earned "@ + decimal(credits as nat) + " training credits!"@,
            ),
        ],
{
    let mut t = String::from_str("Earned ");
    push_decimal(&mut t, credits);
    t.append(" training credits!");
    proof {
        reveal_strlit("Earned ");
        reveal_strlit(" training credits!");
    }
    let ghost tv = t@;
    let mut effects: Vec<AppEffect> = Vec::new();
    effects.push(toast(ToastKind::Success, t));
    assert(effects_of(effects@) =~= seq![EffectView::Toast(ToastKind::Success, tv)]);
    effects
}

} // verus!

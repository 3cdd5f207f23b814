use p2pgo_ui::connection_status::{ConnectionState, ConnectionStatusWidget};
use p2pgo_ui::error_logger::{ErrorLevel, ErrorLogger};
use p2pgo_ui::network_events::{
    on_game_advertised, on_game_restored, on_relay_mode_changed, on_training_progress, on_net_restart_completed, on_net_restarting, on_training_completed,
    on_training_credits_earned, AppConfig, AppEffect, JoinDialog, NetRequest, NetSession, TicketStatus, ToastKind,
};
use p2pgo_ui::network_panel::{NetworkPanel, NetworkState, RelayHealthStatus};

fn session(games_finished: u32) -> NetSession {
    NetSession::new(
        NetworkPanel::new(),
        ConnectionStatusWidget::new(),
        ErrorLogger::new("p2pgo.log".to_string()),
        games_finished,
    )
}

fn toast(kind: ToastKind, text: &str) -> (ToastKind, String) {
    (kind, text.to_string())
}

fn toasts(effects: &[AppEffect]) -> Vec<(ToastKind, String)> {
    effects
        .iter()
        .filter_map(|e| match e {
            AppEffect::Toast { kind, text } => Some((*kind, text.clone())),
            _ => None,
        })
        .collect()
}

fn sends(effects: &[AppEffect]) -> Vec<NetRequest> {
    effects
        .iter()
        .filter_map(|e| match e {
            AppEffect::Send(r) => Some(*r),
            _ => None,
        })
        .collect()
}

#[test]
fn app_config_defaults() {
    let c = AppConfig::default();
    assert!(c.auto_refresh);
    assert_eq!(c.games_finished, 0);
}

#[test]
fn joining_a_game_waits_in_the_lobby() {
    let mut s = session(0);
    let effects = s.on_game_joined("game-1".to_string());
    assert_eq!(effects.len(), 1);
    assert!(matches!(&effects[0], AppEffect::ShowLobby(g) if g == "game-1"));
    assert_eq!(s.panel.game_connections().len(), 1);
    assert!(s.panel.game_connections()[0].is_synced);

    let mut veteran = session(5);
    let effects = veteran.on_game_joined("game-2".to_string());
    assert_eq!(sends(&effects), vec![NetRequest::GetGhostMoves]);

    let effects = s.on_game_left(Some("game-1".to_string()));
    assert!(matches!(effects[0], AppEffect::ShowMainMenu));
    assert!(s.panel.game_connections().is_empty());
}

#[test]
fn ghost_move_notice_is_shown_once_as_information() {
    let mut s = session(0);
    let notice = "Ghost moves will be available after 5 games".to_string();
    let (effects, line) = s.on_error(notice.clone());
    assert_eq!(toasts(&effects), vec![toast(ToastKind::Info, &notice)]);
    assert!(line.unwrap().ends_with("] INFO [Network] Ghost moves will be available after 5 games"));
    assert!(s.error_msg.is_none());
    let (effects, line) = s.on_error(notice);
    assert!(effects.is_empty());
    assert!(line.is_none());
    assert_eq!(s.logger.get_entries(10).len(), 1);
}

#[test]
fn other_errors_are_logged_and_shown() {
    let mut s = session(0);
    let (effects, line) = s.on_error("relay unreachable".to_string());
    assert!(effects.is_empty());
    assert!(line.unwrap().ends_with("] ERROR [Network] relay unreachable"));
    assert_eq!(s.error_msg.as_deref(), Some("relay unreachable"));
    assert_eq!(s.logger.get_entries_by_level(ErrorLevel::Error, 5).len(), 1);
}

#[test]
fn reports_are_remembered() {
    let mut s = session(0);
    assert!(!s.can_create_game());
    assert_eq!(s.ticket_status(), None);
    s.on_node_id("12D3KooWnodeid".to_string());
    s.on_ticket("loopback-ticket".to_string());
    s.on_net_report("NAT: open".to_string());
    assert!(s.can_create_game());
    assert_eq!(s.ticket_status(), Some(TicketStatus::LocalMode));
    assert_eq!(s.node_id_short(), Some("12D3KooW...".to_string()));
    assert_eq!(s.nat_report.as_deref(), Some("NAT: open"));
    s.on_ticket("x".repeat(51));
    assert_eq!(s.ticket_status(), Some(TicketStatus::NetworkReady));
    s.on_ticket("short".to_string());
    assert_eq!(s.ticket_status(), Some(TicketStatus::Connecting));
    assert_eq!(s.ticket_display(), Some("short".to_string()));
    s.on_ticket("t".repeat(120));
    assert_eq!(s.ticket_display(), Some(format!("{}...", "t".repeat(100))));
}

#[test]
fn score_timeout_returns_to_the_menu() {
    let mut s = session(0);
    let effects = s.on_score_timeout(9);
    assert!(matches!(effects[0], AppEffect::ShowMainMenu));
    assert_eq!(
        s.error_msg.as_deref(),
        Some("Score acceptance timed out for 9×9 game. Game will be discarded.")
    );
}

#[test]
fn relay_health_reports() {
    let mut s = session(0);
    let e = s.on_relay_health(RelayHealthStatus::Healthy, Some(4001), true, None);
    assert_eq!(toasts(&e), vec![toast(ToastKind::Success, "Relay active on port 4001")]);
    assert_eq!(*s.panel.network_state(), NetworkState::Online);
    assert!(s.panel.is_relay_node());
    assert_eq!(*s.connection.current_state(), ConnectionState::Connected { relay_count: 1 });
    let e = s.on_relay_health(RelayHealthStatus::Healthy, None, false, None);
    assert!(e.is_empty());
    let e = s.on_relay_health(RelayHealthStatus::Restarting, None, false, Some(2));
    assert_eq!(toasts(&e), vec![toast(ToastKind::Warning, "Relay restarting just now")]);
    let e = s.on_relay_health(RelayHealthStatus::Restarting, None, false, Some(42));
    assert_eq!(toasts(&e), vec![toast(ToastKind::Warning, "Relay restarting 42 sec ago")]);
    let e = s.on_relay_health(RelayHealthStatus::Restarting, None, false, None);
    assert_eq!(toasts(&e), vec![toast(ToastKind::Warning, "Relay restarting now")]);
    assert_eq!(*s.panel.network_state(), NetworkState::StartingRelay);
    let e = s.on_relay_health(RelayHealthStatus::Failed, None, false, None);
    assert_eq!(toasts(&e), vec![toast(ToastKind::Error, "Relay service failed to start")]);
    assert_eq!(*s.panel.network_state(), NetworkState::Offline);
    assert!(s.on_relay_health(RelayHealthStatus::Degraded, None, false, None).is_empty());
}

#[test]
fn capacity_tests_and_training() {
    let mut s = session(0);
    s.on_relay_capacity(3, 100);
    s.on_connection_test_results(vec!["ok".to_string()]);
    assert_eq!(s.panel.test_results().len(), 1);
    let (e, line) = s.on_training_error("out of memory");
    assert_eq!(toasts(&e), vec![toast(ToastKind::Error, "Training failed: out of memory")]);
    assert!(line.unwrap().ends_with("] ERROR [Training] out of memory"));
    s.on_connection_status(true);
    assert_eq!(*s.connection.current_state(), ConnectionState::Connected { relay_count: 1 });
}

#[test]
fn notifications_and_requests() {
    assert_eq!(sends(&on_game_advertised()), vec![NetRequest::RefreshGames]);
    assert_eq!(toasts(&on_net_restarting("config change")), vec![toast(ToastKind::Warning, "Network restarting: config change")]);
    let e = on_net_restart_completed();
    assert_eq!(toasts(&e), vec![toast(ToastKind::Success, "Network restarted successfully")]);
    assert_eq!(sends(&e), vec![NetRequest::RefreshGames, NetRequest::GetTicket, NetRequest::GetNodeId]);
    assert_eq!(toasts(&on_game_restored("g9", 42)), vec![toast(ToastKind::Info, "Restored game g9 with 42 moves")]);
    assert_eq!(toasts(&on_training_completed(7)), vec![toast(ToastKind::Success, "Training completed! Games trained: 7")]);
    assert_eq!(toasts(&on_training_credits_earned(12)), vec![toast(ToastKind::Success, "Earned 12 training credits!")]);
}

#[test]
fn join_dialog() {
    let mut d = JoinDialog::new();
    d.show();
    assert!(d.open);
    d.ticket_input = "   \n ".to_string();
    assert!(!d.can_connect());
    d.ticket_input = "  abc  ".to_string();
    assert!(d.can_connect());
    let (ticket, effects) = d.connect();
    assert_eq!(ticket, "  abc  ");
    assert_eq!(toasts(&effects), vec![toast(ToastKind::Info, "Connecting to game...")]);
    assert!(!d.open);
    assert!(d.ticket_input.is_empty());
    d.show();
    d.ticket_input = "x".to_string();
    d.cancel();
    assert!(!d.open && d.ticket_input.is_empty());
}

#[test]
fn training_progress_and_relay_mode_notifications() {
    match &on_training_progress(425)[0] {
        AppEffect::Toast { kind, text } => {
            assert_eq!(*kind, ToastKind::Info);
            assert_eq!(text, "Training progress: 42.5%");
        }
        _ => panic!("expected a notification"),
    }
    match &on_relay_mode_changed("Normal")[0] {
        AppEffect::Toast { kind, text } => {
            assert_eq!(*kind, ToastKind::Info);
            assert_eq!(text, "Relay mode changed to: Normal");
        }
        _ => panic!("expected a notification"),
    }
}

use p2pgo_ui::network_panel::{
    short_game_id, status_from_counts, DiagnosticsTab, NetworkPanel, NetworkState, RelayHealthStatus,
};

#[test]
fn test_network_panel_creation() {
    let panel = NetworkPanel::new();
    assert!(!panel.is_visible());
}

#[test]
fn test_visibility_toggle() {
    let mut panel = NetworkPanel::new();
    assert!(!panel.is_visible());

    panel.toggle_visibility();
    assert!(panel.is_visible());

    panel.toggle_visibility();
    assert!(!panel.is_visible());
}

#[test]
fn default_state_is_offline() {
    assert_eq!(NetworkState::default(), NetworkState::Offline);
    let panel = NetworkPanel::new();
    assert_eq!(*panel.network_state(), NetworkState::Offline);
    assert_eq!(panel.network_state_message(), "Network offline");
}

#[test]
fn relay_health_drives_the_state_machine() {
    let mut panel = NetworkPanel::new();
    panel.update_relay_health(RelayHealthStatus::Healthy, Some(4001));
    assert_eq!(*panel.network_state(), NetworkState::Online);
    panel.update_relay_health(RelayHealthStatus::Degraded, Some(4001));
    assert_eq!(*panel.network_state(), NetworkState::Degraded);
    assert_eq!(panel.network_state_message(), "Connected (degraded)");
    panel.update_relay_health(RelayHealthStatus::Restarting, None);
    assert_eq!(*panel.network_state(), NetworkState::StartingRelay);
    panel.update_relay_health(RelayHealthStatus::Unreachable, None);
    assert_eq!(*panel.network_state(), NetworkState::Offline);
    panel.update_relay_health(RelayHealthStatus::Failed, None);
    assert_eq!(*panel.network_state(), NetworkState::Offline);
}

#[test]
fn healthy_relay_does_not_end_syncing() {
    let mut panel = NetworkPanel::new();
    panel.set_syncing();
    panel.update_relay_health(RelayHealthStatus::Healthy, None);
    assert_eq!(*panel.network_state(), NetworkState::Syncing);
    assert!(panel.shows_spinner());
    panel.set_online();
    assert_eq!(*panel.network_state(), NetworkState::Online);
    assert!(!panel.shows_spinner());
}

#[test]
fn badge_shows_relay_port_only_for_relay_nodes() {
    let mut panel = NetworkPanel::new();
    assert_eq!(panel.badge_text(), "Relay: ❓");
    assert_eq!(panel.overall_status(), ("❓", (160, 160, 160)));
    assert_eq!(panel.badge_tooltip(), None);
    panel.update_relay_health(RelayHealthStatus::Healthy, Some(4001));
    assert_eq!(panel.badge_text(), "Relay: 🟢");
    panel.set_is_relay_node(true);
    assert_eq!(panel.badge_text(), "Relay:4001 🟢");
    assert_eq!(
        panel.badge_tooltip().unwrap(),
        "Relay status: Healthy\nPort: 4001\nMode: Embedded relay\nClick for detailed status"
    );
    assert_eq!(panel.network_badge_text(), "Connected:4001");
    assert_eq!(panel.relay_mode_text(), "Self-Hosted Relay");
}

#[test]
fn network_tooltip_mentions_time_only_while_settling() {
    let mut panel = NetworkPanel::new();
    assert_eq!(panel.network_tooltip(0), "Network Status: Unknown");
    panel.update_relay_health(RelayHealthStatus::Restarting, None);
    assert_eq!(
        panel.network_tooltip(123),
        "Network Status: restarting\nMode: Client\nTime in state: 12.3s"
    );
    panel.update_relay_health(RelayHealthStatus::Degraded, Some(9));
    assert_eq!(panel.network_tooltip(123), "Network Status: degraded\nMode: Client\nPort: 9\n");
}

#[test]
fn bootstrap_relays_become_a_configuration() {
    let mut panel = NetworkPanel::new();
    panel.set_bootstrap_relays("  /ip4/1.2.3.4/tcp/4001 \n\n   \r\n/dns/relay.example\r\n".to_string());
    let expected = "{\n                                \"relay_mode\": \"CustomRelays\",\n                                \"relay_addrs\": [\"/ip4/1.2.3.4/tcp/4001\",\"/dns/relay.example\"]\n                            }";
    assert_eq!(panel.bootstrap_config_json(), expected);
    panel.set_bootstrap_relays(String::new());
    assert!(panel.bootstrap_config_json().contains("\"relay_addrs\": []"));
}

#[test]
fn game_connections_are_tracked_by_id() {
    let mut panel = NetworkPanel::new();
    panel.update_game_connection("g1".to_string(), 2, false);
    panel.update_game_connection("g2".to_string(), 1, true);
    panel.update_game_connection("g1".to_string(), 3, true);
    assert_eq!(panel.game_connections().len(), 2);
    assert_eq!(panel.game_connections()[0].peer_count, 3);
    assert_eq!(panel.synced_game_count(), 2);
    panel.remove_game_connection("g1");
    assert_eq!(panel.game_connections().len(), 1);
    assert_eq!(panel.game_connections()[0].game_id, "g2");
    panel.remove_game_connection("absent");
    assert_eq!(panel.game_connections().len(), 1);
}

#[test]
fn connection_test_lifecycle() {
    let mut panel = NetworkPanel::new();
    assert!(panel.can_run_connection_test(0));
    panel.start_connection_test();
    assert!(!panel.can_run_connection_test(100));
    assert_eq!(panel.test_results().clone(), vec!["Starting connection test...".to_string()]);
    panel.update_test_results(vec!["relay ok".to_string(), "peer ok".to_string()]);
    assert!(!panel.can_run_connection_test(10));
    assert!(panel.can_run_connection_test(11));
    panel.update_relay_capacity(3, 50);
    let report = panel.diagnostic_report("  Quality Score: 100%\n");
    assert_eq!(
        report,
        "P2P Go Network Diagnostics Report\n================================\n\nNetwork State: Offline\nIs Relay Node: false\n\nConnection Quality:\n  Quality Score: 100%\n\nActive Games: 0\n\nLast Connection Test:\n  relay ok\n  peer ok\n"
    );
}

#[test]
fn tabs_and_short_ids() {
    let mut panel = NetworkPanel::new();
    assert_eq!(panel.diagnostics_tab(), DiagnosticsTab::Overview);
    panel.select_tab(DiagnosticsTab::Troubleshooting);
    assert_eq!(panel.diagnostics_tab(), DiagnosticsTab::Troubleshooting);
    assert_eq!(short_game_id("abcdefghijklmnop"), "abcdefghijkl...");
    assert_eq!(short_game_id("short"), "short");
}

#[test]
fn relay_counts_give_the_badge() {
    assert_eq!(status_from_counts(0, 0), ("🟡", (240, 228, 66)));
    assert_eq!(status_from_counts(3, 0), ("🔴", (213, 94, 0)));
    assert_eq!(status_from_counts(3, 3), ("🟢", (0, 158, 115)));
    assert_eq!(status_from_counts(3, 1), ("🟠", (230, 159, 0)));
}

#[test]
fn relay_statistics_decide_the_badge_without_a_health_report() {
    let mut panel = NetworkPanel::new();
    panel.set_relay_stats(vec![true, false]);
    assert_eq!(panel.overall_status(), ("🟠", (230, 159, 0)));
    panel.set_relay_stats(vec![]);
    assert_eq!(panel.overall_status(), ("🟡", (240, 228, 66)));
    panel.update_relay_health(RelayHealthStatus::Failed, None);
    assert_eq!(panel.overall_status(), ("❌", (213, 94, 0)));
}

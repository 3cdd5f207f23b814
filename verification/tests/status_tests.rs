use p2pgo_ui::bootstrap_status::{
    nat_status_text, short_peer_id, BootstrapPhase, BootstrapStatus, MessageLevel, NATStatus, StepColor,
};
use p2pgo_ui::connection_status::{ConnectionState, ConnectionStatusWidget};
use p2pgo_ui::labeled_input::IdentifierType;
use p2pgo_ui::peer_list::{PeerInfo, PeerList};

#[test]
fn entering_a_phase_is_logged() {
    let mut s = BootstrapStatus::new();
    assert_eq!(s.phase(), BootstrapPhase::NotStarted);
    s.set_phase(BootstrapPhase::DetectingNAT);
    assert_eq!(s.phase(), BootstrapPhase::DetectingNAT);
    let msgs = s.messages();
    assert_eq!(msgs.len(), 1);
    assert_eq!(msgs[0].text, "Entering phase: DetectingNAT");
    assert_eq!(msgs[0].level, MessageLevel::Info);
}

#[test]
fn status_log_keeps_last_twenty() {
    let mut s = BootstrapStatus::new();
    for i in 0..25 {
        s.add_message(MessageLevel::Warning, format!("m{}", i));
    }
    let msgs = s.messages();
    assert_eq!(msgs.len(), 20);
    assert_eq!(msgs[0].text, "m5");
    assert_eq!(msgs[19].text, "m24");
}

#[test]
fn network_info_and_nat() {
    let mut s = BootstrapStatus::new();
    assert!(s.peer_id().is_none());
    s.set_network_info("12D3KooWpeer".to_string(), vec!["/ip4/1.2.3.4/tcp/1".to_string()]);
    assert_eq!(s.peer_id().map(|p| p.as_str()), Some("12D3KooWpeer"));
    assert_eq!(s.addresses().len(), 1);
    s.set_nat_status(NATStatus::Symmetric);
    assert_eq!(s.nat_status(), NATStatus::Symmetric);
    assert_eq!(nat_status_text(NATStatus::Symmetric), "Symmetric (Relay required)");
    assert_eq!(nat_status_text(NATStatus::Unknown), "Unknown");
}

#[test]
fn phase_indicator() {
    let mut s = BootstrapStatus::new();
    s.set_phase(BootstrapPhase::ConnectingBootstrap);
    let d = s.step_display(BootstrapPhase::Initializing);
    assert_eq!((d.color, d.checked), (StepColor::Complete, true));
    let d = s.step_display(BootstrapPhase::ConnectingBootstrap);
    assert_eq!((d.color, d.checked), (StepColor::Current, false));
    let d = s.step_display(BootstrapPhase::Ready);
    assert_eq!((d.color, d.checked), (StepColor::Pending, false));
    assert!(!s.shows_network_info());
    s.set_phase(BootstrapPhase::Failed);
    assert!(s.shows_troubleshooting());
    let d = s.step_display(BootstrapPhase::Ready);
    assert_eq!((d.color, d.checked), (StepColor::Failed, true));
}

#[test]
fn peer_ids_are_shortened() {
    assert_eq!(short_peer_id("12D3KooWABCDEFGHIJKLmnop"), "12D3KooW...mnop");
    assert_eq!(short_peer_id("shortpeerid"), "shortpeerid");
    assert_eq!(short_peer_id("0123456789abcdef"), "0123456789abcdef");
}

#[test]
fn connection_state_texts() {
    let c = ConnectionState::Connected { relay_count: 1 };
    assert_eq!(c.label(), "Connected to 1 relay");
    assert_eq!(ConnectionState::Connected { relay_count: 3 }.label(), "Connected to 3 relays");
    assert_eq!(ConnectionState::Connected { relay_count: 0 }.label(), "Connected to 0 relays");
    assert_eq!(c.icon(), "●");
    assert_eq!(c.color_rgb(), (34, 197, 94));
    assert_eq!(
        c.tooltip(),
        "Network Status: Connected\nActive Relays: 1\nConnection Type: Relay Network\n\nYou can create and join games."
    );
    let d = ConnectionState::DirectP2P { peer_id: "12D3KooWxyz123".to_string() };
    assert_eq!(d.label(), "Direct P2P with 12D3KooW");
    assert_eq!(d.icon(), "⟷");
    assert!(d.tooltip().starts_with("Network Status: Direct P2P\nPeer ID: 12D3KooWxyz123\n"));
    assert_eq!(ConnectionState::Connecting.label(), "Connecting...");
    assert_eq!(ConnectionState::Disconnected.label(), "No connection");
    assert_eq!(ConnectionState::Disconnected.color_rgb(), (239, 68, 68));
}

#[test]
fn widget_follows_reports() {
    let mut w = ConnectionStatusWidget::new();
    assert_eq!(*w.current_state(), ConnectionState::Disconnected);
    w.on_relay_health(false);
    assert_eq!(*w.current_state(), ConnectionState::Disconnected);
    w.on_connection_status(true);
    assert_eq!(*w.current_state(), ConnectionState::Connected { relay_count: 1 });
    w.on_connection_status(false);
    assert_eq!(*w.current_state(), ConnectionState::Disconnected);
    w.on_relay_health(true);
    assert_eq!(*w.current_state(), ConnectionState::Connected { relay_count: 1 });
    assert!(!w.is_animated());
}

#[test]
fn identifier_texts() {
    assert_eq!(IdentifierType::GameCode.label(), "Game Code");
    assert_eq!(IdentifierType::ConnectionTicket.icon(), "🔑");
    assert!(IdentifierType::ConnectionTicket.is_dashed());
    assert!(!IdentifierType::GameCode.is_dashed());
    assert_eq!(IdentifierType::GameCode.badge_hover_text("ABC123"), "Game Code: ABC123");
    assert!(IdentifierType::GameCode.help_text().starts_with("Game codes are short identifiers"));
    assert_eq!(
        IdentifierType::ConnectionTicket.description(),
        "Use this for direct peer-to-peer connection"
    );
}

#[test]
fn peer_list_heading_and_latency() {
    let mut list = PeerList::new();
    assert!(list.is_empty());
    assert_eq!(list.heading(), "Connected Peers (0)");
    let peers = vec![
        PeerInfo { id: "a".to_string(), name: "Alice".to_string(), latency_ms: Some(42), connected: true },
        PeerInfo { id: "b".to_string(), name: "Bob".to_string(), latency_ms: None, connected: false },
    ];
    list.update_peers(peers);
    assert_eq!(list.heading(), "Connected Peers (2)");
    assert_eq!(list.peer_infos()[0].latency_text(), Some("42ms".to_string()));
    assert_eq!(list.peer_infos()[1].latency_text(), None);
}

use p2pgo_ui::board_widget::{board_index, is_valid_move, star_points, BoardInteraction, BoardWidget, MoveTag, PaletteKey};
use p2pgo_ui::game_controls::{ControlRequest, GameControls, GameStatus};
use p2pgo_ui::heat_map::EvaluationDisplay;
use p2pgo_ui::lobby::{
    board_size_text, game_action, game_button_label, latency_text, players_text, refresh_age_text, relay_icon,
    short_relay_id, GameLobby, GameListing, LobbyAction, RelayInfo,
};
use p2pgo_ui::neural_config_ui::{answer_meaning, neural_impact, question_heading};
use p2pgo_ui::neural_visualization::{is_large_layer, neurons_shown, policy_network, value_network, NetworkColorScheme};
use p2pgo_ui::offline_game::StoneColor;
use p2pgo_ui::sgf_training_ui::{average_positions, can_start_training, files_selected_text, training_moves, NetworkPersistenceUI};
use std::path::PathBuf;
use std::time::Instant;

fn listing(id: &str, players: usize) -> GameListing {
    GameListing {
        game_id: id.to_string(),
        host: "host".to_string(),
        players: (0..players).map(|i| format!("p{}", i)).collect(),
        board_size: 9,
        time_control: "10+5".to_string(),
        created_at: Instant::now(),
    }
}

#[test]
fn star_points_by_size() {
    assert_eq!(star_points(9), vec![(2, 2), (2, 6), (4, 4), (6, 2), (6, 6)]);
    assert_eq!(star_points(13).len(), 5);
    assert_eq!(star_points(19).len(), 9);
    assert!(star_points(7).is_empty());
    assert_eq!(board_index(3, 2, 9), 21);
}

#[test]
fn palette_keys_and_ghosts() {
    let mut w = BoardWidget::new(9);
    assert_eq!(w.get_board_size(), 9);
    assert_eq!(w.get_tag_palette(), None);
    w.press_key(PaletteKey::B);
    assert_eq!(w.get_tag_palette(), Some(MoveTag::Avoidance));
    w.press_key(PaletteKey::Escape);
    assert_eq!(w.get_tag_palette(), None);
    w.handle_shift_click(1, 1);
    assert_eq!(w.get_tag_palette(), Some(MoveTag::Activity));
    w.set_ghost_stones(vec![(1, 2), (3, 4)]);
    assert_eq!(w.ghost_stone_points().len(), 2);
    w.clear_ghost_stones();
    assert!(w.ghost_stone_points().is_empty());
    assert!(w.on_board(8, 8));
    assert!(!w.on_board(9, 0));
}

#[test]
fn client_side_move_check() {
    let mut board = vec![None; 81];
    board[board_index(4, 4, 9)] = Some(StoneColor::Black);
    assert!(!is_valid_move(9, 4, 4, &board, 9));
    assert!(is_valid_move(9, 4, 5, &board, 9));
    assert!(!is_valid_move(9, 9, 0, &board, 9));
    let mut b = BoardInteraction::new(9);
    assert_eq!(b.get_hover_pos(), None);
    b.set_hover_pos(Some((2, 3)));
    assert_eq!(b.get_hover_pos(), Some((2, 3)));
    assert!(b.is_valid_move(0, 0, &board, 9));
}

#[test]
fn control_requests() {
    assert_eq!(GameControls::pass(0), vec![ControlRequest::Pass]);
    assert_eq!(GameControls::resign(5), vec![ControlRequest::Resign, ControlRequest::GetGhostMoves]);
    assert_eq!(GameControls::leave_game(), vec![ControlRequest::LeaveGame, ControlRequest::Shutdown]);
    assert_eq!(GameStatus::current_player_text(StoneColor::White), "Current player: White");
    assert_eq!(GameStatus::captures_text((3, 12)), "Captures - Black: 3 White: 12");
    assert_eq!(GameStatus::move_text(57), "Move: 57");
}

#[test]
fn lobby_listings_are_kept_once() {
    let mut lobby = GameLobby::new();
    assert_eq!(lobby.status(), "Searching for games...");
    assert!(matches!(lobby.create_game(), Some(LobbyAction::CreateGame)));
    lobby.update_game(listing("a", 1));
    lobby.update_game(listing("b", 2));
    lobby.update_game(listing("a", 2));
    assert_eq!(lobby.games().len(), 2);
    assert_eq!(lobby.games()[0].players.len(), 2);
    assert!(lobby.create_game().is_none());
    assert_eq!(game_button_label(&listing("c", 1)), "Join");
    assert!(matches!(game_action(&listing("c", 1)), LobbyAction::JoinGame(ref id) if id == "c"));
    assert!(matches!(game_action(&listing("d", 2)), LobbyAction::SpectateGame(ref id) if id == "d"));
    let relay = |t: &str| RelayInfo {
        peer_id: "peer".to_string(),
        addresses: vec!["/ip4/1.2.3.4/tcp/1".to_string()],
        last_seen: Instant::now(),
        connection_type: t.to_string(),
        latency_ms: Some(12),
    };
    lobby.update_relay("peer".to_string(), relay("Direct"));
    lobby.update_relay("peer".to_string(), relay("Local"));
    assert_eq!(lobby.relays().len(), 1);
    assert_eq!(lobby.relays()[0].1.connection_type, "Local");
}

#[test]
fn lobby_texts_and_actions() {
    let mut lobby = GameLobby::new();
    assert!(lobby.direct_connect().is_none());
    lobby.set_direct_connect_addr("/ip4/1.2.3.4/tcp/4001".to_string());
    assert!(matches!(lobby.direct_connect(), Some(LobbyAction::DirectConnect(ref a)) if a == "/ip4/1.2.3.4/tcp/4001"));
    assert!(matches!(lobby.refresh(), LobbyAction::Refresh));
    assert_eq!(relay_icon("Direct"), "🟢");
    assert_eq!(relay_icon("Relayed"), "🟡");
    assert_eq!(relay_icon("Local"), "🔵");
    assert_eq!(relay_icon("other"), "⚫");
    assert_eq!(short_relay_id("12D3KooWabcdefghXYZW"), "12D3KooW...XYZW");
    assert_eq!(board_size_text(13), "13x13");
    assert_eq!(players_text(1), "1 players");
    assert_eq!(refresh_age_text(30), "Last refresh: 30s ago");
    assert_eq!(latency_text(80), "80ms");
}

#[test]
fn questionnaire_texts() {
    assert_eq!(question_heading(0), "Question 1 of 10");
    assert_eq!(
        neural_impact(0, 7),
        "Aggression 7: Policy net will suggest more attacking moves, Value net will favor fighting positions"
    );
    assert_eq!(neural_impact(3, 5), "Patterns 5: Less reliance on learned shapes vs deep calculation");
    assert_eq!(neural_impact(5, 9), "Opening 9: Early game will be aggressive and fast");
    assert_eq!(neural_impact(10, 5), "");
    assert_eq!(answer_meaning(0, 5), "Balanced - Mix of territory and fighting");
    assert_eq!(answer_meaning(4, 10), "High risk, high reward");
    assert_eq!(answer_meaning(2, 0), "");
    assert_eq!(answer_meaning(6, 5), "");
}

#[test]
fn network_architectures() {
    let p = policy_network();
    assert_eq!(p.name, "Policy Network (Move Prediction)");
    assert_eq!(p.color_scheme, NetworkColorScheme::Policy);
    assert_eq!(p.layers.len(), 5);
    assert_eq!(p.layers[4].neurons, 361);
    let v = value_network();
    assert_eq!(v.layers.len(), 6);
    assert_eq!(v.layers[5].activation_type, "Tanh");
    assert_eq!(neurons_shown(&v.layers[0]), 20);
    assert_eq!(neurons_shown(&v.layers[5]), 1);
    assert!(is_large_layer(&v.layers[0]));
    assert!(is_large_layer(&v.layers[4]));
    assert!(!is_large_layer(&v.layers[5]));
}

#[test]
fn training_helpers() {
    assert!(can_start_training(2, true, false));
    assert!(!can_start_training(0, true, false));
    assert!(!can_start_training(2, true, true));
    assert_eq!(files_selected_text(3), "3 files selected");
    assert_eq!(average_positions(300, 2), 150);
    assert_eq!(average_positions(300, 0), 0);
    assert_eq!(training_moves(2, 5, 10), vec![2, 3, 4]);
    assert_eq!(training_moves(2, 50, 4), vec![2, 3]);
    assert!(training_moves(5, 3, 10).is_empty());
}

#[test]
fn persistence_messages() {
    let mut ui = NetworkPersistenceUI::new();
    ui.record_save(PathBuf::from("net.json"), None);
    assert!(ui.message.is_none());
    ui.record_save(PathBuf::from("net.json"), Some(Ok(())));
    assert_eq!(ui.message, Some(("Network saved successfully!".to_string(), false)));
    ui.record_load(PathBuf::from("other.json"), Err("bad format".to_string()));
    assert_eq!(ui.message, Some(("Load failed: bad format".to_string(), true)));
    assert_eq!(ui.load_path, Some(PathBuf::from("other.json")));
}

#[test]
fn evaluation_display_shows_everything() {
    let d = EvaluationDisplay::new();
    assert!(d.shows_bar());
    assert!(d.shows_confidence());
}

use p2pgo_ui::network_events::{AppEffect, NetRequest, ToastKind};
use p2pgo_ui::screen::{on_game_event, on_games_updated, on_score_accepted_by_both, on_score_calculated, GameEventKind, Screen};

fn game_id(s: &Screen<u32>) -> Option<&str> {
    match s {
        Screen::Lobby { game_id } | Screen::Game { game_id } | Screen::ScoreDialog { game_id, .. } => Some(game_id),
        _ => None,
    }
}

#[test]
fn first_move_in_the_lobby_starts_the_game() {
    let mut screen: Screen<u32> = Screen::Lobby { game_id: "g1".to_string() };
    let effects = on_game_event(&mut screen, GameEventKind::MoveMade);
    assert!(matches!(screen, Screen::Game { .. }));
    assert_eq!(game_id(&screen), Some("g1"));
    assert_eq!(effects.len(), 2);
    assert!(matches!(effects[0], AppEffect::ApplyMove));
    match &effects[1] {
        AppEffect::Toast { kind, text } => {
            assert_eq!(*kind, ToastKind::Success);
            assert_eq!(text, "Opponent connected! Game started.");
        }
        _ => panic!("expected a notification"),
    }
}

#[test]
fn other_game_events() {
    let mut screen: Screen<u32> = Screen::Game { game_id: "g1".to_string() };
    let effects = on_game_event(&mut screen, GameEventKind::MoveMade);
    assert_eq!(effects.len(), 1);
    assert!(matches!(effects[0], AppEffect::ApplyMove));
    assert!(on_game_event(&mut screen, GameEventKind::GameFinished).is_empty());
    let effects = on_game_event(&mut screen, GameEventKind::Other);
    assert!(matches!(effects[0], AppEffect::Send(NetRequest::GetGhostMoves)));
    let mut menu: Screen<u32> = Screen::MainMenu { available_games: vec![] };
    assert!(on_game_event(&mut menu, GameEventKind::MoveMade).is_empty());
}

#[test]
fn score_dialog_transitions() {
    let mut screen: Screen<u32> = Screen::Game { game_id: "g2".to_string() };
    on_score_calculated(&mut screen);
    assert!(matches!(screen, Screen::ScoreDialog { score_pending: true, score_accepted: false, .. }));
    on_score_accepted_by_both(&mut screen);
    assert!(matches!(screen, Screen::ScoreDialog { score_pending: false, score_accepted: true, .. }));
    assert_eq!(game_id(&screen), Some("g2"));
    let mut lobby: Screen<u32> = Screen::Lobby { game_id: "g3".to_string() };
    on_score_calculated(&mut lobby);
    assert!(matches!(lobby, Screen::Lobby { .. }));
}

#[test]
fn game_list_reaches_only_the_main_menu() {
    let mut menu: Screen<u32> = Screen::MainMenu { available_games: vec![1] };
    on_games_updated(&mut menu, vec![7, 8]);
    match &menu {
        Screen::MainMenu { available_games } => assert_eq!(available_games, &vec![7, 8]),
        _ => panic!("expected the main menu"),
    }
    let mut game: Screen<u32> = Screen::Game { game_id: "g".to_string() };
    on_games_updated(&mut game, vec![7]);
    assert!(matches!(game, Screen::Game { .. }));
}

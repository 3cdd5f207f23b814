use p2pgo_ui::enhanced_lobby::{
    challenge_order, color_symbol, format_duration, format_rank, format_time_control, format_time_remaining,
    is_my_turn, rank_distance, GoColor, GoRank, LobbyAction, LobbyState, NewChallenge, QuickMatchPreferences,
    TimeControl,
};

#[test]
fn rank_texts_and_distance() {
    assert_eq!(format_rank(&GoRank::Kyu(5)), "5k");
    assert_eq!(format_rank(&GoRank::Dan(3)), "3d");
    assert_eq!(rank_distance(&GoRank::Kyu(5), &GoRank::Kyu(5)), 0);
    assert_eq!(rank_distance(&GoRank::Kyu(1), &GoRank::Dan(1)), 2);
    assert_eq!(rank_distance(&GoRank::Dan(9), &GoRank::Kyu(30)), 39);
}

#[test]
fn time_texts() {
    assert_eq!(format_time_control(&TimeControl::Blitz { minutes: 5, increment: 3 }), "5+3");
    assert_eq!(format_time_control(&TimeControl::Rapid { minutes: 10, increment: 5 }), "10+5");
    assert_eq!(format_time_control(&TimeControl::Correspondence { days_per_move: 2 }), "2 days");
    assert_eq!(format_time_remaining(59), "0:59");
    assert_eq!(format_time_remaining(605), "10:05");
    assert_eq!(format_time_remaining(3725), "1:02:05");
    assert_eq!(format_duration(42), "42s");
    assert_eq!(format_duration(125), "2m");
    assert_eq!(format_duration(7300), "2h");
}

#[test]
fn colours_and_turns() {
    assert_eq!(color_symbol(GoColor::Black), "●");
    assert_eq!(color_symbol(GoColor::White), "○");
    assert!(is_my_turn(GoColor::White, GoColor::White));
    assert!(!is_my_turn(GoColor::Black, GoColor::White));
}

#[test]
fn challenges_listed_by_rank_proximity_stably() {
    let ranks = vec![GoRank::Dan(2), GoRank::Kyu(5), GoRank::Kyu(10), GoRank::Kyu(4), GoRank::Kyu(6)];
    let order = challenge_order(&ranks, GoRank::Kyu(5));
    assert_eq!(order, vec![1, 3, 4, 2, 0]);
    assert!(challenge_order(&Vec::new(), GoRank::Kyu(5)).is_empty());
}

#[test]
fn lobby_actions() {
    let mut lobby = LobbyState::new();
    let prefs = lobby.quick_match_prefs();
    assert_eq!(prefs.rank_range, 3);
    assert_eq!(prefs.board_size, 9);
    assert!(prefs.allow_handicap);
    assert!(prefs.time_control.is_none());
    match lobby.quick_match() {
        LobbyAction::QuickMatch(p) => assert_eq!(p, prefs),
        _ => panic!("expected a quick match"),
    }
    match lobby.select_game("g7".to_string()) {
        LobbyAction::ResumeGame(id) => assert_eq!(id, "g7"),
        _ => panic!("expected resume"),
    }
    assert!(lobby.is_selected(&"g7".to_string()));
    assert!(!lobby.is_selected(&"g8".to_string()));

    lobby.toggle_create_challenge();
    assert!(lobby.create_challenge_open());
    let mut nc = NewChallenge::default();
    nc.time_control_type = 0;
    nc.minutes = 3;
    nc.increment = 2;
    nc.handicap = 2;
    nc.ranked = true;
    lobby.set_new_challenge(nc);
    assert_eq!(lobby.new_challenge().board_size, 9);
    match lobby.create_challenge() {
        LobbyAction::CreateChallenge { time_control, board_size, handicap, ranked } => {
            assert_eq!(time_control, TimeControl::Blitz { minutes: 3, increment: 2 });
            assert_eq!((board_size, handicap, ranked), (9, 2, true));
        }
        _ => panic!("expected a challenge"),
    }
    assert!(!lobby.create_challenge_open());
    let mut other = lobby.new_challenge();
    other.time_control_type = 7;
    lobby.set_new_challenge(other);
    assert_eq!(lobby.create_time_control(), TimeControl::Rapid { minutes: 10, increment: 5 });
    assert_eq!(QuickMatchPreferences::default().rank_range, 0);
}

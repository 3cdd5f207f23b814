use p2pgo_ui::offline_game::{ConsensusPhase, GameMode, OfflineGoGame, RecordMove, StoneColor, TerritoryMark};

fn board_with(stones: &[(u8, u8, StoneColor)]) -> Vec<Option<StoneColor>> {
    let mut b = vec![None; 81];
    for (x, y, c) in stones {
        b[*y as usize * 9 + *x as usize] = Some(*c);
    }
    b
}

#[test]
fn test_territory_mark_cycle() {
    let mark = TerritoryMark::Unmarked;
    assert_eq!(mark.cycle(), TerritoryMark::Black);
    assert_eq!(mark.cycle().cycle(), TerritoryMark::White);
    assert_eq!(mark.cycle().cycle().cycle(), TerritoryMark::Unmarked);
}

#[test]
fn test_new_game() {
    let game = OfflineGoGame::new();
    assert_eq!(game.board_size(), 9);
    assert!(!game.marking_territory());
    assert_eq!(game.territory_mark_count(), 0);
}

#[test]
fn click_asks_for_a_stone_of_the_player_to_move() {
    let mut game = OfflineGoGame::new();
    let req = game.handle_board_click(4, 4).expect("a request");
    assert_eq!((req.x, req.y, req.color), (4, 4, StoneColor::Black));
    assert_eq!(game.stone_at(4, 4), None);
}

#[test]
fn applied_move_is_recorded_and_rejection_explained() {
    let mut game = OfflineGoGame::new();
    game.move_rejected("occupied");
    assert_eq!(game.error_message(), Some("Invalid move: occupied"));
    game.move_applied(2, 3, board_with(&[(2, 3, StoneColor::Black)]), (0, 0), StoneColor::White, false);
    assert_eq!(game.stone_at(2, 3), Some(StoneColor::Black));
    assert_eq!(game.current_player(), StoneColor::White);
    assert_eq!(game.last_move(), Some((2, 3)));
    assert_eq!(game.error_message(), None);
}

#[test]
fn territory_agreement_flow() {
    let mut game = OfflineGoGame::new();
    // Marking only starts once the game is over.
    assert!(!game.toggle_territory_mode());
    assert!(!game.marking_territory());
    game.move_applied(0, 0, board_with(&[(0, 0, StoneColor::Black)]), (0, 0), StoneColor::White, true);
    assert!(game.is_game_over());
    assert!(game.handle_board_click(5, 5).is_none());
    assert!(!game.toggle_territory_mode());
    assert!(game.marking_territory());
    assert_eq!(game.consensus_phase(), ConsensusPhase::BothMarking);
    assert!(!game.toggle_territory_mode());
    assert_eq!(game.consensus_phase(), ConsensusPhase::WaitingAgreement);
    assert!(game.toggle_territory_mode());
    assert_eq!(game.consensus_phase(), ConsensusPhase::Agreed);
}

#[test]
fn empty_board_scores_komi_for_white() {
    let game = OfflineGoGame::new();
    assert_eq!(game.calculate_score(), (0, 65));
    assert_eq!(game.result_text(), "Game Over! White wins by 6.5 points");
}

#[test]
fn filling_territory_marks_the_whole_region_and_clearing_undoes_it() {
    let mut game = OfflineGoGame::new();
    // A black wall on column 2 splits the board.
    let wall: Vec<(u8, u8, StoneColor)> = (0..9).map(|y| (2u8, y as u8, StoneColor::Black)).collect();
    game.move_applied(2, 8, board_with(&wall), (0, 0), StoneColor::White, true);
    game.toggle_territory_mode();
    assert_eq!(game.determine_territory_color(0, 0), TerritoryMark::Black);
    game.handle_board_click(0, 0);
    for y in 0..9 {
        assert_eq!(game.territory_mark(0, y), TerritoryMark::Black);
        assert_eq!(game.territory_mark(1, y), TerritoryMark::Black);
        assert_eq!(game.territory_mark(3, y), TerritoryMark::Unmarked);
    }
    assert_eq!(game.territory_mark_count(), 18);
    // Black: 9 stones + 18 territory, white: komi only.
    assert_eq!(game.calculate_score(), (270, 65));
    assert_eq!(game.result_text(), "Game Over! Black wins by 20.5 points");
    game.handle_board_click(1, 4);
    assert_eq!(game.territory_mark_count(), 0);
}

#[test]
fn marking_a_group_dead_twice_restores_it() {
    let mut game = OfflineGoGame::new();
    let stones = [(4, 4, StoneColor::White), (4, 5, StoneColor::White), (0, 0, StoneColor::Black)];
    game.move_applied(4, 5, board_with(&stones), (0, 0), StoneColor::Black, true);
    game.toggle_territory_mode();
    let before = game.calculate_score();
    game.handle_board_click(4, 4);
    assert!(game.is_dead(4, 4));
    assert!(game.is_dead(4, 5));
    assert!(!game.is_dead(0, 0));
    let after = game.calculate_score();
    // The two dead white stones move from white's count to black's.
    assert_eq!(after.0, before.0 + 20);
    assert_eq!(after.1 + 20, before.1);
    let breakdown = game.get_score_breakdown();
    assert_eq!(breakdown.black_captures, 2);
    assert_eq!(breakdown.black_total_tenths(), after.0 as u64);
    assert_eq!(breakdown.white_total_tenths(), after.1 as u64);
    game.handle_board_click(4, 5);
    assert!(!game.is_dead(4, 4));
    assert_eq!(game.calculate_score(), before);
}

#[test]
fn new_game_clears_position_but_keeps_mode() {
    let mut game = OfflineGoGame::new();
    game.set_game_mode(GameMode::ThreePlanes3D);
    game.move_applied(1, 1, board_with(&[(1, 1, StoneColor::Black)]), (3, 1), StoneColor::White, false);
    game.new_game();
    assert_eq!(game.stone_at(1, 1), None);
    assert_eq!(game.captures(), (0, 0));
    assert_eq!(game.current_player(), StoneColor::Black);
    assert_eq!(game.game_mode(), GameMode::ThreePlanes3D);
}

#[test]
fn replay_mode_ignores_clicks() {
    let mut game = OfflineGoGame::new();
    assert!(game.load_sgf(Ok(vec![RecordMove::Pass; 42])).is_ok());
    assert!(game.handle_board_click(3, 3).is_none());
    game.exit_sgf_replay();
    assert!(game.handle_board_click(3, 3).is_some());
}

#[test]
fn load_sgf_error_changes_nothing() {
    let mut game = OfflineGoGame::new();
    game.move_applied(2, 2, board_with(&[(2, 2, StoneColor::Black)]), (0, 0), StoneColor::White, false);
    assert_eq!(game.load_sgf(Err("bad record".to_string())), Err("bad record".to_string()));
    assert_eq!(game.stone_at(2, 2), Some(StoneColor::Black));
    assert_eq!(game.sgf_total_moves(), 0);
    assert!(game.sgf_next_move().is_none());
}

#[test]
fn sgf_replay_steps_forward_and_back() {
    let mut game = OfflineGoGame::new();
    let moves = vec![
        RecordMove::Place { x: 2, y: 3, color: StoneColor::Black },
        RecordMove::Place { x: 6, y: 6, color: StoneColor::White },
        RecordMove::Pass,
    ];
    assert!(game.load_sgf(Ok(moves)).is_ok());
    assert_eq!(game.sgf_total_moves(), 3);
    assert_eq!(game.sgf_next_move(), Some(RecordMove::Place { x: 2, y: 3, color: StoneColor::Black }));
    game.sgf_move_applied(0, board_with(&[(2, 3, StoneColor::Black)]), (0, 0), StoneColor::White, false);
    assert_eq!(game.sgf_current_move(), 1);
    assert_eq!(game.last_move(), Some((2, 3)));
    assert_eq!(game.sgf_next_move(), Some(RecordMove::Place { x: 6, y: 6, color: StoneColor::White }));
    game.sgf_move_applied(
        1,
        board_with(&[(2, 3, StoneColor::Black), (6, 6, StoneColor::White)]),
        (0, 0),
        StoneColor::Black,
        false,
    );
    game.sgf_move_applied(
        2,
        board_with(&[(2, 3, StoneColor::Black), (6, 6, StoneColor::White)]),
        (0, 0),
        StoneColor::White,
        false,
    );
    // A pass keeps the last placed stone as the last move.
    assert_eq!(game.last_move(), Some((6, 6)));
    assert_eq!(game.sgf_current_move(), 3);
    assert!(game.sgf_next_move().is_none());
    // Stepping back rewinds to the start and asks for two moves to replay.
    assert_eq!(game.sgf_step_backward(), 2);
    assert_eq!(game.sgf_current_move(), 0);
    assert_eq!(game.stone_at(2, 3), None);
    assert_eq!(game.last_move(), None);
    assert_eq!(game.sgf_step_backward(), 0);
}

#[test]
fn replay_to_the_end_stops_at_the_last_move_or_a_refusal() {
    let mut game = OfflineGoGame::new();
    let moves = vec![RecordMove::Place { x: 0, y: 0, color: StoneColor::Black }, RecordMove::Pass, RecordMove::Pass];
    assert!(game.load_sgf(Ok(moves)).is_ok());
    let b = board_with(&[(0, 0, StoneColor::Black)]);
    assert!(game.sgf_replay_step(Some((b.clone(), (0, 0), StoneColor::White, false))));
    assert_eq!(game.last_move(), Some((0, 0)));
    // A refused move ends the replay where it stands.
    assert!(!game.sgf_replay_step(None));
    assert_eq!(game.sgf_current_move(), 1);
    assert!(game.sgf_replay_step(Some((b.clone(), (0, 0), StoneColor::Black, false))));
    assert!(!game.sgf_replay_step(Some((b, (0, 0), StoneColor::White, true))));
    assert_eq!(game.sgf_current_move(), 3);
    assert!(game.sgf_next_move().is_none());
}

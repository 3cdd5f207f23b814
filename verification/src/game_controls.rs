//! The game control buttons and the status line shown during a network
//! game: which requests each button sends and what the status line says.
use crate::offline_game::StoneColor;
use crate::text::{decimal, push_decimal};
use vstd::prelude::*;
use vstd::string::StringExecFns;

verus! {

/// A request a game control sends to the network worker.
#[derive(Debug, Clone, Copy, PartialEq, Eq, Structural)]
pub enum ControlRequest {
    /// Play a pass.
    Pass,
    /// Resign the game.
    Resign,
    /// Leave the current game.
    LeaveGame,
    /// Stop the network worker.
    Shutdown,
    /// Ask for ghost move suggestions.
    GetGhostMoves,
}

/// Game control buttons.
pub struct GameControls;

/// The requests sent for a move: the move itself, then, for players who
/// finished at least five games, a request for ghost moves.
pub open spec fn move_requests(mv: ControlRequest, games_finished: u32) -> Seq<ControlRequest> {
    seq![mv] + if games_finished >= 5 {
        seq![ControlRequest::GetGhostMoves]
    } else {
        Seq::empty()
    }
}

impl GameControls {
    fn move_with_ghosts(mv: ControlRequest, games_finished: u32) -> (r: Vec<ControlRequest>)
        ensures
            r@ == move_requests(mv, games_finished),
    {
        let mut r: Vec<ControlRequest> = Vec::new();
        r.push(mv);
        if games_finished >= 5 {
            r.push(ControlRequest::GetGhostMoves);
        }
        assert(r@ =~= move_requests(mv, games_finished));
        r
    }

    /// The requests sent by the Pass button.
    pub fn pass(games_finished: u32) -> (r: Vec<ControlRequest>)
        ensures
            r@ == move_requests(ControlRequest::Pass, games_finished),
    {
        Self::move_with_ghosts(ControlRequest::Pass, games_finished)
    }

    /// The requests sent by the Resign button.
    pub fn resign(games_finished: u32) -> (r: Vec<ControlRequest>)
        ensures
            r@ == move_requests(ControlRequest::Resign, games_finished),
    {
        Self::move_with_ghosts(ControlRequest::Resign, games_finished)
    }

    /// The requests sent by the Leave Game button: leave, then stop the
    /// worker.
    pub fn leave_game() -> (r: Vec<ControlRequest>)
        ensures
            r@ == seq![ControlRequest::LeaveGame, ControlRequest::Shutdown],
    {
        let mut r: Vec<ControlRequest> = Vec::new();
        r.push(ControlRequest::LeaveGame);
        r.push(ControlRequest::Shutdown);
        assert(r@ =~= seq![ControlRequest::LeaveGame, ControlRequest::Shutdown]);
        r
    }
}

/// The name of the player to move.
pub open spec fn player_name(c: StoneColor) -> Seq<char> {
    match c {
        StoneColor::Black => "Black"@,
        StoneColor::White => "White"@,
    }
}

/// Game status display component.
pub struct GameStatus;

impl GameStatus {
    /// The line naming the player to move.
    pub fn current_player_text(current: StoneColor) -> (s: String)
        ensures
            s@ == "Current player: "@ + player_name(current),
    {
        let mut s = String::from_str("Current player: ");
        proof {
            reveal_strlit("Current player: ");
            reveal_strlit("Black");
            reveal_strlit("White");
        }
        match current {
            StoneColor::Black => s.append("Black"),
            StoneColor::White => s.append("White"),
        }
        s
    }

    /// The line counting the captures of each side.
    pub fn captures_text(captures: (u16, u16)) -> (s: String)
        ensures
            s@ == "Captures - Black: "@ + decimal(captures.0 as nat) + " White: "@ + decimal(
                captures.1 as nat,
            ),
    {
        let mut s = String::from_str("Captures - Black: ");
        push_decimal(&mut s, captures.0 as u64);
        s.append(" White: ");
        push_decimal(&mut s, captures.1 as u64);
        proof {
            reveal_strlit("Captures - Black: ");
            reveal_strlit(" White: ");
        }
        s
    }

    /// The line counting the moves played.
    pub fn move_text(moves: u64) -> (s: String)
        ensures
            s@ == "Move: "@ + decimal(moves as nat),
    {
        let mut s = String::from_str("Move: ");
        push_decimal(&mut s, moves);
        proof {
            reveal_strlit("Move: ");
        }
        s
    }
}

} // verus!

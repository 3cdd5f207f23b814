//! Which screen the application shows, as far as reports from the network
//! worker decide it: a move reported while waiting in a game's lobby starts
//! the game, a calculated score opens the score dialog, and so on.
//!
//! The game positions and score proofs themselves belong to the rules
//! engine and are kept by the application beside the screen.
use crate::network_events::{AppEffect, EffectView, NetRequest, ToastKind, effects_of};
use vstd::prelude::*;
use vstd::string::StringExecFns;

verus! {

/// The screen shown; `G` describes an open game in the main menu's list.
pub enum Screen<G> {
    MainMenu { available_games: Vec<G> },
    Lobby { game_id: String },
    Game { game_id: String },
    ScoreDialog { game_id: String, score_pending: bool, score_accepted: bool },
    OfflineGame,
}

/// A screen as the contracts speak of it.
pub enum ScreenView<G> {
    MainMenu(Seq<G>),
    Lobby(Seq<char>),
    Game(Seq<char>),
    ScoreDialog(Seq<char>, bool, bool),
    OfflineGame,
}

impl<G> View for Screen<G> {
    type V = ScreenView<G>;

    open spec fn view(&self) -> ScreenView<G> {
        match self {
            Screen::MainMenu { available_games } => ScreenView::MainMenu(available_games@),
            Screen::Lobby { game_id } => ScreenView::Lobby(game_id@),
            Screen::Game { game_id } => ScreenView::Game(game_id@),
            Screen::ScoreDialog { game_id, score_pending, score_accepted } => ScreenView::ScoreDialog(
                game_id@,
                *score_pending,
                *score_accepted,
            ),
            Screen::OfflineGame => ScreenView::OfflineGame,
        }
    }
}

/// The kind of a game event the worker reports.
#[derive(Debug, Clone, Copy, PartialEq, Eq, Structural)]
pub enum GameEventKind {
    /// A move was made.
    MoveMade,
    /// The game ended with a score.
    GameFinished,
    /// Any other event of the game.
    Other,
}

/// The notification when the opponent's first move arrives in the lobby.
pub open spec fn game_started_text() -> Seq<char> {
    "Opponent connected! Game started."@
}

/// The screen after a game event: a move reported while waiting in a
/// game's lobby starts that game; nothing else changes the screen.
pub open spec fn screen_after_event<G>(s: ScreenView<G>, e: GameEventKind) -> ScreenView<G> {
    match s {
        ScreenView::Lobby(g) => if e == GameEventKind::MoveMade {
            ScreenView::Game(g)
        } else {
            s
        },
        _ => s,
    }
}

/// What a game event makes the application do: a move is applied to the
/// game on screen (and, when it starts the game from the lobby, announced);
/// a finished game waits for the score; other events ask for ghost moves.
pub open spec fn event_effects<G>(s: ScreenView<G>, e: GameEventKind) -> Seq<EffectView> {
    match e {
        GameEventKind::MoveMade => match s {
            ScreenView::Game(_) => seq![EffectView::ApplyMove],
            ScreenView::Lobby(_) => seq![
                EffectView::ApplyMove,
                EffectView::Toast(ToastKind::Success, game_started_text()),
            ],
            _ => Seq::empty(),
        },
        GameEventKind::GameFinished => Seq::empty(),
        GameEventKind::Other => seq![EffectView::Send(NetRequest::GetGhostMoves)],
    }
}

/// Follow a game event reported by the worker.
pub fn on_game_event<G>(screen: &mut Screen<G>, event: GameEventKind) -> (effects: Vec<AppEffect>)
    ensures
        final(screen)@ == screen_after_event(old(screen)@, event),
        effects_of(effects@) == event_effects(old(screen)@, event),
{
    let mut effects: Vec<AppEffect> = Vec::new();
    match event {
        GameEventKind::MoveMade => {
            let lobby_id = match screen {
                Screen::Game { .. } => {
                    effects.push(AppEffect::ApplyMove);
                    None
                },
                Screen::Lobby { game_id } => Some(game_id.clone()),
                _ => None,
            };
            if let Some(g) = lobby_id {
                effects.push(AppEffect::ApplyMove);
                proof {
                    reveal_strlit("Opponent connected! Game started.");
                }
                effects.push(
                    AppEffect::Toast {
                        kind: ToastKind::Success,
                        text: String::from_str("Opponent connected! Game started."),
                    },
                );
                *screen = Screen::Game { game_id: g };
            }
        },
        GameEventKind::GameFinished => {},
        GameEventKind::Other => {
            effects.push(AppEffect::Send(NetRequest::GetGhostMoves));
        },
    }
    assert(effects_of(effects@) =~= event_effects(old(screen)@, event));
    effects
}

/// The screen after the score is calculated: a game on screen gives way to
/// its score dialog, awaiting acceptance.
pub open spec fn screen_after_score<G>(s: ScreenView<G>) -> ScreenView<G> {
    match s {
        ScreenView::Game(g) => ScreenView::ScoreDialog(g, true, false),
        _ => s,
    }
}

/// The score was calculated.
pub fn on_score_calculated<G>(screen: &mut Screen<G>)
    ensures
        final(screen)@ == screen_after_score(old(screen)@),
{
    let game = match screen {
        Screen::Game { game_id } => Some(game_id.clone()),
        _ => None,
    };
    if let Some(g) = game {
        *screen = Screen::ScoreDialog { game_id: g, score_pending: true, score_accepted: false };
    }
}

/// The screen after both players accepted the score: the score dialog, if
/// shown, marks it accepted and no longer pending.
pub open spec fn screen_after_acceptance<G>(s: ScreenView<G>) -> ScreenView<G> {
    match s {
        ScreenView::ScoreDialog(g, _, _) => ScreenView::ScoreDialog(g, false, true),
        _ => s,
    }
}

/// Both players accepted the score.
pub fn on_score_accepted_by_both<G>(screen: &mut Screen<G>)
    ensures
        final(screen)@ == screen_after_acceptance(old(screen)@),
{
    let game = match screen {
        Screen::ScoreDialog { game_id, .. } => Some(game_id.clone()),
        _ => None,
    };
    if let Some(g) = game {
        *screen = Screen::ScoreDialog { game_id: g, score_pending: false, score_accepted: true };
    }
}

/// The screen after a new list of open games: the main menu shows it;
/// other screens stay as they are.
pub open spec fn screen_after_games<G>(s: ScreenView<G>, games: Seq<G>) -> ScreenView<G> {
    match s {
        ScreenView::MainMenu(_) => ScreenView::MainMenu(games),
        _ => s,
    }
}

/// A new list of open games arrived.
pub fn on_games_updated<G>(screen: &mut Screen<G>, games: Vec<G>)
    ensures
        final(screen)@ == screen_after_games(old(screen)@, games@),
{
    if let Screen::MainMenu { .. } = screen {
        *screen = Screen::MainMenu { available_games: games };
    }
}

} // verus!

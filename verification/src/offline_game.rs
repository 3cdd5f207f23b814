//! Offline 9x9 Go: territory marking, dead-stone marking, the agreement
//! phase and scoring.
//!
//! The rules engine (move legality, captures, game end) is not part of this
//! crate: the position it produces is handed in as plain values, and a click
//! that asks for a stone comes back as a move request for that engine.
use crate::go3d_wireframe::Go3DWireframe;
use crate::region::{adjacent, at, cell, connected_region, in_board, is_walk, reachable, Point};
use vstd::prelude::*;
use vstd::string::StringExecFns;

verus! {

/// Stone colour on the 2D board.
#[derive(Debug, Clone, Copy, PartialEq, Eq, Structural)]
pub enum StoneColor {
    Black,
    White,
}

/// A move of a loaded game record.
#[derive(Debug, Clone, Copy, PartialEq, Eq, Structural)]
pub enum RecordMove {
    Place { x: u8, y: u8, color: StoneColor },
    Pass,
    Resign,
}

/// Game mode selection.
#[derive(Debug, Clone, Copy, PartialEq, Eq, Structural)]
pub enum GameMode {
    Traditional2D,
    ThreePlanes3D,
}

/// Territory marking state of an intersection.
#[derive(Debug, Clone, Copy, PartialEq, Eq, Structural)]
pub enum TerritoryMark {
    /// No territory marking
    Unmarked,
    /// Black territory
    Black,
    /// White territory
    White,
}

/// The mark that follows `m` when cycling: unmarked, Black, White,
/// unmarked again.
pub open spec fn next_mark(m: TerritoryMark) -> TerritoryMark {
    match m {
        TerritoryMark::Unmarked => TerritoryMark::Black,
        TerritoryMark::Black => TerritoryMark::White,
        TerritoryMark::White => TerritoryMark::Unmarked,
    }
}

impl TerritoryMark {
    /// Cycle to the next marking state.
    pub fn cycle(&self) -> (r: Self)
        ensures
            r == next_mark(*self),
    {
        match self {
            TerritoryMark::Unmarked => TerritoryMark::Black,
            TerritoryMark::Black => TerritoryMark::White,
            TerritoryMark::White => TerritoryMark::Unmarked,
        }
    }
}

/// Cycling three times gives back the starting mark.
pub proof fn lemma_mark_cycle_period_three(m: TerritoryMark)
    ensures
        next_mark(next_mark(next_mark(m))) == m,
        next_mark(m) != m,
{
}

/// Agreement phase at the end of a game.
#[derive(Debug, Clone, Copy, PartialEq, Eq, Structural)]
pub enum ConsensusPhase {
    /// Not in consensus phase
    Inactive,
    /// Both players marking territory simultaneously
    BothMarking,
    /// Both players have marked, waiting for agreement
    WaitingAgreement,
    /// Players agreed on territory
    Agreed,
}

/// Komi, in tenths of a point (6.5 points).
pub const KOMI_TENTHS: u32 = 65;

/// Detailed score breakdown. Points are whole; komi is in tenths of a point.
#[derive(Debug, Clone, Copy, PartialEq, Eq, Structural)]
pub struct ScoreBreakdown {
    pub black_stones: u32,
    pub white_stones: u32,
    pub black_territory: u32,
    pub white_territory: u32,
    pub black_captures: u16,
    pub white_captures: u16,
    pub komi_tenths: u32,
}

impl ScoreBreakdown {
    /// Black's total, in tenths of a point.
    pub fn black_total_tenths(&self) -> (r: u64)
        ensures
            r == 10 * (self.black_stones + self.black_territory + self.black_captures),
    {
        10 * (self.black_stones as u64 + self.black_territory as u64 + self.black_captures as u64)
    }

    /// White's total including komi, in tenths of a point.
    pub fn white_total_tenths(&self) -> (r: u64)
        ensures
            r == 10 * (self.white_stones + self.white_territory + self.white_captures)
                + self.komi_tenths,
    {
        10 * (self.white_stones as u64 + self.white_territory as u64 + self.white_captures as u64)
            + self.komi_tenths as u64
    }
}

/// A stone the player asked to place; the rules engine decides whether it
/// is legal.
#[derive(Debug, Clone, Copy, PartialEq, Eq, Structural)]
pub struct MoveRequest {
    pub x: u8,
    pub y: u8,
    pub color: StoneColor,
}

/// Number of indices `i < n` at which `f` holds.
pub open spec fn count_upto(n: int, f: spec_fn(int) -> bool) -> nat
    decreases n,
{
    if n <= 0 {
        0
    } else {
        count_upto(n - 1, f) + if f(n - 1) {
            1nat
        } else {
            0nat
        }
    }
}

proof fn lemma_count_upto_bound(n: int, f: spec_fn(int) -> bool)
    requires
        n >= 0,
    ensures
        count_upto(n, f) <= n,
    decreases n,
{
    if n > 0 {
        lemma_count_upto_bound(n - 1, f);
    }
}

/// Adding the counts of two disjoint predicates counts their union.
proof fn lemma_count_upto_sum(
    n: int,
    f: spec_fn(int) -> bool,
    g: spec_fn(int) -> bool,
    h: spec_fn(int) -> bool,
)
    requires
        forall|i: int| 0 <= i < n ==> (#[trigger] h(i) <==> f(i) || g(i)),
        forall|i: int| 0 <= i < n ==> !(#[trigger] f(i) && g(i)),
    ensures
        count_upto(n, f) + count_upto(n, g) == count_upto(n, h),
    decreases n,
{
    if n > 0 {
        lemma_count_upto_sum(n - 1, f, g, h);
    }
}

/// A stone of colour `c` that is not marked dead.
pub open spec fn live_of(board: Seq<Option<StoneColor>>, dead: Seq<bool>, c: StoneColor) -> spec_fn(
    int,
) -> bool {
    |i: int| board[i] == Some(c) && !dead[i]
}

/// A stone of colour `c` that is marked dead.
pub open spec fn dead_of(board: Seq<Option<StoneColor>>, dead: Seq<bool>, c: StoneColor) -> spec_fn(
    int,
) -> bool {
    |i: int| board[i] == Some(c) && dead[i]
}

/// A point marked as territory `m`.
pub open spec fn marked(marks: Seq<TerritoryMark>, m: TerritoryMark) -> spec_fn(int) -> bool {
    |i: int| marks[i] == m
}

/// The offline game as plain values.
pub struct OfflineState {
    pub board: Seq<Option<StoneColor>>,
    /// (black stones captured, white stones captured)
    pub captures: (u16, u16),
    pub current_player: StoneColor,
    pub game_over: bool,
    pub marks: Seq<TerritoryMark>,
    pub dead: Seq<bool>,
    pub marking_territory: bool,
    pub consensus_phase: ConsensusPhase,
    pub last_move: Option<(u8, u8)>,
    pub error_message: Option<Seq<char>>,
    pub game_mode: GameMode,
    pub show_guild_stats: bool,
    pub sgf_replay_mode: bool,
    pub sgf_current_move: nat,
    pub sgf_total_moves: nat,
    /// The moves of the record being replayed.
    pub sgf_moves: Seq<RecordMove>,
}

/// Black's points: white stones captured, live black stones, dead white
/// stones and black territory.
pub open spec fn black_points(s: OfflineState) -> nat {
    s.captures.1 as nat + count_upto(81, live_of(s.board, s.dead, StoneColor::Black))
        + count_upto(81, dead_of(s.board, s.dead, StoneColor::White)) + count_upto(
        81,
        marked(s.marks, TerritoryMark::Black),
    )
}

/// White's points before komi: black stones captured, live white stones,
/// dead black stones and white territory.
pub open spec fn white_points(s: OfflineState) -> nat {
    s.captures.0 as nat + count_upto(81, live_of(s.board, s.dead, StoneColor::White))
        + count_upto(81, dead_of(s.board, s.dead, StoneColor::Black)) + count_upto(
        81,
        marked(s.marks, TerritoryMark::White),
    )
}

/// The influence that stones of colour `c` exert on (`x`, `y`), summed over
/// the first `k` offsets of the 5x5 window; offset `j` is
/// (j / 5 - 2, j % 5 - 2) and a stone at Manhattan distance d adds 3 - min(d, 3).
pub open spec fn influence_upto(board: Seq<Option<StoneColor>>, x: int, y: int, c: StoneColor, k: int) -> int
    decreases k,
{
    if k <= 0 {
        0
    } else {
        influence_upto(board, x, y, c, k - 1) + offset_weight(board, x, y, c, k - 1)
    }
}

pub open spec fn abs_int(v: int) -> int {
    if v < 0 {
        -v
    } else {
        v
    }
}

/// The weight of offset `j` of the window around (`x`, `y`) for colour `c`.
pub open spec fn offset_weight(board: Seq<Option<StoneColor>>, x: int, y: int, c: StoneColor, j: int) -> int {
    let dx = j / 5 - 2;
    let dy = j % 5 - 2;
    let p = (x + dx, y + dy);
    if in_board(p) && board[cell(p)] == Some(c) {
        let d = abs_int(dx) + abs_int(dy);
        3 - if d < 3 {
            d
        } else {
            3
        }
    } else {
        0
    }
}

/// The territory colour suggested for (`x`, `y`): the colour with the larger
/// influence, Black on a tie.
pub open spec fn territory_color_for(board: Seq<Option<StoneColor>>, x: int, y: int) -> TerritoryMark {
    let b = influence_upto(board, x, y, StoneColor::Black, 25);
    let w = influence_upto(board, x, y, StoneColor::White, 25);
    if b > w {
        TerritoryMark::Black
    } else if w > b {
        TerritoryMark::White
    } else {
        TerritoryMark::Black
    }
}

/// The territory mark of a stone colour.
pub open spec fn mark_of(c: StoneColor) -> TerritoryMark {
    match c {
        StoneColor::Black => TerritoryMark::Black,
        StoneColor::White => TerritoryMark::White,
    }
}

/// `p` is on the board within Manhattan distance 2 of (`x`, `y`).
pub open spec fn near(x: int, y: int, p: Point) -> bool {
    in_board(p) && abs_int(p.0 - x) + abs_int(p.1 - y) <= 2
}

/// The suggested territory colour is the one whose stones exert the
/// strictly larger influence; only an equal influence gives Black.
pub proof fn lemma_territory_goes_to_stronger_influence(board: Seq<Option<StoneColor>>, x: int, y: int)
    ensures
        influence_upto(board, x, y, StoneColor::White, 25) > influence_upto(
            board,
            x,
            y,
            StoneColor::Black,
            25,
        ) ==> territory_color_for(board, x, y) == TerritoryMark::White,
        influence_upto(board, x, y, StoneColor::Black, 25) > influence_upto(
            board,
            x,
            y,
            StoneColor::White,
            25,
        ) ==> territory_color_for(board, x, y) == TerritoryMark::Black,
        territory_color_for(board, x, y) == TerritoryMark::White <==> influence_upto(
            board,
            x,
            y,
            StoneColor::White,
            25,
        ) > influence_upto(board, x, y, StoneColor::Black, 25),
{
}

proof fn lemma_weight_nonneg(board: Seq<Option<StoneColor>>, x: int, y: int, c: StoneColor, j: int)
    ensures
        offset_weight(board, x, y, c, j) >= 0,
{
}

proof fn lemma_influence_nonneg(board: Seq<Option<StoneColor>>, x: int, y: int, c: StoneColor, k: int)
    ensures
        influence_upto(board, x, y, c, k) >= 0,
    decreases k,
{
    if k > 0 {
        lemma_influence_nonneg(board, x, y, c, k - 1);
        lemma_weight_nonneg(board, x, y, c, k - 1);
    }
}

proof fn lemma_influence_ge_weight(board: Seq<Option<StoneColor>>, x: int, y: int, c: StoneColor, k: int, j: int)
    requires
        0 <= j < k,
    ensures
        influence_upto(board, x, y, c, k) >= offset_weight(board, x, y, c, j),
    decreases k,
{
    lemma_influence_nonneg(board, x, y, c, k - 1);
    lemma_weight_nonneg(board, x, y, c, k - 1);
    if j < k - 1 {
        lemma_influence_ge_weight(board, x, y, c, k - 1, j);
    }
}

proof fn lemma_influence_zero(board: Seq<Option<StoneColor>>, x: int, y: int, c: StoneColor, k: int)
    requires
        forall|p: Point| #[trigger] near(x, y, p) ==> board[cell(p)] != Some(c),
    ensures
        influence_upto(board, x, y, c, k) == 0,
    decreases k,
{
    if k > 0 {
        lemma_influence_zero(board, x, y, c, k - 1);
        let j = k - 1;
        let dx = j / 5 - 2;
        let dy = j % 5 - 2;
        let p = (x + dx, y + dy);
        assert(near(x, y, p) ==> board[cell(p)] != Some(c));
    }
}

/// Where every stone within distance 2 of an empty point has one colour,
/// and there is at least one, the point is suggested as that colour's
/// territory.
pub proof fn lemma_territory_with_one_colour_nearby(
    board: Seq<Option<StoneColor>>,
    x: int,
    y: int,
    c: StoneColor,
    q: Point,
)
    requires
        forall|p: Point| #[trigger] near(x, y, p) && board[cell(p)] is Some ==> board[cell(p)] == Some(c),
        near(x, y, q),
        board[cell(q)] == Some(c),
    ensures
        territory_color_for(board, x, y) == mark_of(c),
{
    let other = match c {
        StoneColor::Black => StoneColor::White,
        StoneColor::White => StoneColor::Black,
    };
    assert forall|p: Point| #[trigger] near(x, y, p) implies board[cell(p)] != Some(other) by {
        if board[cell(p)] is Some {
            assert(board[cell(p)] == Some(c));
        }
    }
    lemma_influence_zero(board, x, y, other, 25);
    let a = q.0 - x + 2;
    let b = q.1 - y + 2;
    let j = a * 5 + b;
    assert(0 <= a < 5 && 0 <= b < 5);
    assert(j / 5 == a && j % 5 == b) by (nonlinear_arith)
        requires
            j == a * 5 + b,
            0 <= a < 5,
            0 <= b < 5,
    ;
    assert(0 <= j < 25) by (nonlinear_arith)
        requires
            j == a * 5 + b,
            0 <= a < 5,
            0 <= b < 5,
    ;
    assert((x + (j / 5 - 2), y + (j % 5 - 2)) == q);
    assert(offset_weight(board, x, y, c, j) >= 1);
    lemma_influence_ge_weight(board, x, y, c, 25, j);
}

/// Points that territory filling may cover: empty and not marked dead.
pub open spec fn fillable(board: Seq<Option<StoneColor>>, dead: Seq<bool>) -> Seq<bool> {
    Seq::new(81, |i: int| board[i] is None && !dead[i])
}

/// Points carrying territory mark `m`.
pub open spec fn with_mark(marks: Seq<TerritoryMark>, m: TerritoryMark) -> Seq<bool> {
    Seq::new(81, |i: int| marks[i] == m)
}

/// Points holding a stone of colour `c`.
pub open spec fn with_stone(board: Seq<Option<StoneColor>>, c: StoneColor) -> Seq<bool> {
    Seq::new(81, |i: int| board[i] == Some(c))
}

/// Offline Go game state.
pub struct OfflineGoGame {
    board: Vec<Option<StoneColor>>,
    captures: (u16, u16),
    current_player: StoneColor,
    game_over: bool,
    territory_marks: Vec<TerritoryMark>,
    dead_stones: Vec<bool>,
    marking_territory: bool,
    consensus_phase: ConsensusPhase,
    last_move: Option<(u8, u8)>,
    error_message: Option<String>,
    game_mode: GameMode,
    go3d_game: Go3DWireframe,
    show_guild_stats: bool,
    sgf_replay_mode: bool,
    sgf_current_move: usize,
    sgf_total_moves: usize,
    sgf_moves: Vec<RecordMove>,
}

impl View for OfflineGoGame {
    type V = OfflineState;

    closed spec fn view(&self) -> OfflineState {
        OfflineState {
            board: self.board@,
            captures: self.captures,
            current_player: self.current_player,
            game_over: self.game_over,
            marks: self.territory_marks@,
            dead: self.dead_stones@,
            marking_territory: self.marking_territory,
            consensus_phase: self.consensus_phase,
            last_move: self.last_move,
            error_message: match self.error_message {
                Some(m) => Some(m@),
                None => None,
            },
            game_mode: self.game_mode,
            show_guild_stats: self.show_guild_stats,
            sgf_replay_mode: self.sgf_replay_mode,
            sgf_current_move: self.sgf_current_move as nat,
            sgf_total_moves: self.sgf_total_moves as nat,
            sgf_moves: self.sgf_moves@,
        }
    }
}

/// A state whose three point tables cover the 81 points.
pub open spec fn well_sized(s: OfflineState) -> bool {
    &&& s.board.len() == 81
    &&& s.marks.len() == 81
    &&& s.dead.len() == 81
}

/// Index of a board point.
pub open spec fn idx(x: u8, y: u8) -> int {
    y as int * 9 + x as int
}

/// The position of a new game: empty board, Black to move.
pub open spec fn fresh_position(s: OfflineState) -> bool {
    &&& s.board == Seq::new(81, |i: int| None::<StoneColor>)
    &&& s.captures == (0u16, 0u16)
    &&& s.current_player == StoneColor::Black
    &&& !s.game_over
}

/// No marks, no dead stones, no agreement phase, no last move, no error.
pub open spec fn cleared_marking(s: OfflineState) -> bool {
    &&& s.marks == Seq::new(81, |i: int| TerritoryMark::Unmarked)
    &&& s.dead == Seq::new(81, |i: int| false)
    &&& !s.marking_territory
    &&& s.consensus_phase == ConsensusPhase::Inactive
    &&& s.last_move is None
    &&& s.error_message is None
}

/// The record's move that replay applies next: the move at the current
/// count, while replaying and moves remain.
pub open spec fn next_record_move(s: OfflineState) -> Option<RecordMove> {
    if s.sgf_replay_mode && s.sgf_current_move < s.sgf_total_moves && s.sgf_current_move
        < s.sgf_moves.len() {
        Some(s.sgf_moves[s.sgf_current_move as int])
    } else {
        None
    }
}

/// The state after the rules engine accepted the record's move `index`,
/// giving the position (`board`, `captures`, `current_player`,
/// `game_over`): replay stands after that move, and a placed stone is the
/// last move.
pub open spec fn replayed_state(
    s: OfflineState,
    index: nat,
    board: Seq<Option<StoneColor>>,
    captures: (u16, u16),
    current_player: StoneColor,
    game_over: bool,
) -> OfflineState {
    OfflineState {
        board,
        captures,
        current_player,
        game_over,
        sgf_current_move: index + 1,
        last_move: match s.sgf_moves[index as int] {
            RecordMove::Place { x, y, .. } => Some((x, y)),
            _ => s.last_move,
        },
        ..s
    }
}

/// The state when replay goes back to the start: the empty board with
/// Black to move, no last move, nothing replayed; marks, messages and the
/// record stay.
pub open spec fn rewound_state(s: OfflineState) -> OfflineState {
    OfflineState {
        board: Seq::new(81, |i: int| None::<StoneColor>),
        captures: (0, 0),
        current_player: StoneColor::Black,
        game_over: false,
        last_move: None,
        sgf_current_move: 0,
        ..s
    }
}

impl OfflineGoGame {
    pub closed spec fn wf(&self) -> bool {
        &&& well_sized(self@)
        &&& self.go3d_game.wf()
        &&& self.sgf_total_moves == self.sgf_moves@.len()
        &&& self.sgf_current_move <= self.sgf_total_moves
    }

    /// The 3D game shown in the 3D mode.
    pub closed spec fn go3d(&self) -> Go3DWireframe {
        self.go3d_game
    }

    /// A new 9x9 game in 2D mode.
    pub fn new() -> (g: Self)
        ensures
            g.wf(),
            fresh_position(g@),
            cleared_marking(g@),
            g@.game_mode == GameMode::Traditional2D,
            !g@.show_guild_stats,
            !g@.sgf_replay_mode,
            g@.sgf_current_move == 0,
            g@.sgf_total_moves == 0,
            g@.sgf_moves == Seq::<RecordMove>::empty(),
    {
        let g = OfflineGoGame {
            board: empty_board(),
            captures: (0, 0),
            current_player: StoneColor::Black,
            game_over: false,
            territory_marks: unmarked(),
            dead_stones: no_dead(),
            marking_territory: false,
            consensus_phase: ConsensusPhase::Inactive,
            last_move: None,
            error_message: None,
            game_mode: GameMode::Traditional2D,
            go3d_game: Go3DWireframe::new(),
            show_guild_stats: false,
            sgf_replay_mode: false,
            sgf_current_move: 0,
            sgf_total_moves: 0,
            sgf_moves: Vec::new(),
        };
        assert(g@.sgf_moves =~= Seq::<RecordMove>::empty());
        g
    }
}


/// The point with row-major index `i`.
pub open spec fn point_of(i: int) -> Point {
    (i % 9, i / 9)
}

proof fn lemma_point_of_index(i: int)
    requires
        0 <= i < 81,
    ensures
        in_board(point_of(i)),
        cell(point_of(i)) == i,
{
    assert(i == (i / 9) * 9 + i % 9 && 0 <= i % 9 < 9 && 0 <= i / 9 < 9) by (nonlinear_arith)
        requires
            0 <= i < 81,
    ;
}

proof fn lemma_index_of_point(p: Point)
    requires
        in_board(p),
    ensures
        point_of(cell(p)) == p,
        0 <= cell(p) < 81,
{
    let i = p.1 * 9 + p.0;
    assert(i / 9 == p.1 && i % 9 == p.0) by (nonlinear_arith)
        requires
            i == p.1 * 9 + p.0,
            0 <= p.0 < 9,
            0 <= p.1 < 9,
    ;
}

/// `marks` with every point of the region of `start` under `allowed` set
/// to `m`.
pub open spec fn paint_marks(
    marks: Seq<TerritoryMark>,
    allowed: Seq<bool>,
    start: Point,
    m: TerritoryMark,
) -> Seq<TerritoryMark> {
    Seq::new(81, |i: int| if reachable(allowed, start, point_of(i)) { m } else { marks[i] })
}

/// `dead` with every point of the region of `start` under `allowed` set to `v`.
pub open spec fn paint_dead(dead: Seq<bool>, allowed: Seq<bool>, start: Point, v: bool) -> Seq<bool> {
    Seq::new(81, |i: int| if reachable(allowed, start, point_of(i)) { v } else { dead[i] })
}

/// Territory filling from (`x`, `y`) with mark `m`: the empty, not-dead
/// points connected to it get `m`; filling with `Unmarked` does nothing.
pub open spec fn fill_state(s: OfflineState, x: u8, y: u8, m: TerritoryMark) -> OfflineState {
    if m == TerritoryMark::Unmarked {
        s
    } else {
        OfflineState {
            marks: paint_marks(s.marks, fillable(s.board, s.dead), (x as int, y as int), m),
            ..s
        }
    }
}

/// Clearing the territory region at (`x`, `y`): the points connected to it
/// that carry its mark lose their mark.
pub open spec fn clear_state(s: OfflineState, x: u8, y: u8) -> OfflineState {
    let target = s.marks[idx(x, y)];
    if target == TerritoryMark::Unmarked {
        s
    } else {
        OfflineState {
            marks: paint_marks(
                s.marks,
                with_mark(s.marks, target),
                (x as int, y as int),
                TerritoryMark::Unmarked,
            ),
            ..s
        }
    }
}

/// Toggling the group of colour `c` at (`x`, `y`): every stone of the group
/// gets the opposite of the dead flag that (`x`, `y`) had.
pub open spec fn dead_toggle_state(s: OfflineState, x: u8, y: u8, c: StoneColor) -> OfflineState {
    OfflineState {
        dead: paint_dead(s.dead, with_stone(s.board, c), (x as int, y as int), !s.dead[idx(x, y)]),
        ..s
    }
}

/// What a click at (`x`, `y`) does to the state, and the move it requests.
pub open spec fn click_outcome(s: OfflineState, x: u8, y: u8) -> (OfflineState, Option<MoveRequest>) {
    if s.sgf_replay_mode {
        (s, None)
    } else if s.marking_territory {
        match s.board[idx(x, y)] {
            Some(c) => (dead_toggle_state(s, x, y, c), None),
            None => if s.marks[idx(x, y)] == TerritoryMark::Unmarked {
                (
                    fill_state(s, x, y, territory_color_for(s.board, x as int, y as int)),
                    None,
                )
            } else {
                (clear_state(s, x, y), None)
            },
        }
    } else if !s.game_over {
        (s, Some(MoveRequest { x, y, color: s.current_player }))
    } else {
        (s, None)
    }
}

/// What the territory button does: entering the agreement phase after the
/// game ends, then marking, waiting for agreement and agreeing; the flag
/// tells whether agreement was reached by this press.
pub open spec fn territory_toggle_outcome(s: OfflineState) -> (OfflineState, bool) {
    if !s.marking_territory && s.game_over {
        (
            OfflineState {
                marking_territory: true,
                consensus_phase: ConsensusPhase::BothMarking,
                ..s
            },
            false,
        )
    } else if s.marking_territory {
        match s.consensus_phase {
            ConsensusPhase::BothMarking => (
                OfflineState { consensus_phase: ConsensusPhase::WaitingAgreement, ..s },
                false,
            ),
            ConsensusPhase::WaitingAgreement => (
                OfflineState {
                    consensus_phase: ConsensusPhase::Agreed,
                    marking_territory: false,
                    ..s
                },
                true,
            ),
            ConsensusPhase::Agreed => (
                OfflineState {
                    marking_territory: false,
                    consensus_phase: ConsensusPhase::Inactive,
                    ..s
                },
                false,
            ),
            ConsensusPhase::Inactive => (s, false),
        }
    } else {
        (s, false)
    }
}

impl OfflineGoGame {
    /// The summed influence of stones of colour `c` around (`x`, `y`).
    fn influence(&self, x: u8, y: u8, c: StoneColor) -> (r: u32)
        requires
            self.wf(),
            x < 9,
            y < 9,
        ensures
            r == influence_upto(self@.board, x as int, y as int, c, 25),
    {
        let mut total: u32 = 0;
        let mut k: i32 = 0;
        while k < 25
            invariant
                0 <= k <= 25,
                self.wf(),
                x < 9,
                y < 9,
                total == influence_upto(self@.board, x as int, y as int, c, k as int),
                0 <= total <= 3 * k,
            decreases 25 - k,
        {
            let dx: i32 = k / 5 - 2;
            let dy: i32 = k % 5 - 2;
            let nx: i32 = x as i32 + dx;
            let ny: i32 = y as i32 + dy;
            let mut w: u32 = 0;
            if nx >= 0 && nx < 9 && ny >= 0 && ny < 9 {
                let at = (ny * 9 + nx) as usize;
                let same = match self.board[at] {
                    Some(StoneColor::Black) => c == StoneColor::Black,
                    Some(StoneColor::White) => c == StoneColor::White,
                    None => false,
                };
                if same {
                    let adx: i32 = if dx < 0 { -dx } else { dx };
                    let ady: i32 = if dy < 0 { -dy } else { dy };
                    let d = adx + ady;
                    let capped = if d < 3 { d } else { 3 };
                    w = (3 - capped) as u32;
                }
            }
            assert(w == offset_weight(self@.board, x as int, y as int, c, k as int));
            total = total + w;
            k = k + 1;
        }
        total
    }

    /// The territory colour for an empty point: the colour whose stones
    /// within Manhattan distance 2 weigh more (distance 0, 1, 2 weigh 3, 2,
    /// 1), Black on a tie.
    pub fn determine_territory_color(&self, x: u8, y: u8) -> (r: TerritoryMark)
        requires
            self.wf(),
            x < 9,
            y < 9,
        ensures
            r == territory_color_for(self@.board, x as int, y as int),
            r == TerritoryMark::White <==> influence_upto(self@.board, x as int, y as int, StoneColor::White, 25)
                > influence_upto(self@.board, x as int, y as int, StoneColor::Black, 25),
    {
        let black_influence = self.influence(x, y, StoneColor::Black);
        let white_influence = self.influence(x, y, StoneColor::White);
        if black_influence > white_influence {
            TerritoryMark::Black
        } else if white_influence > black_influence {
            TerritoryMark::White
        } else {
            TerritoryMark::Black
        }
    }

    /// Mask of the points that territory filling may cover.
    fn fillable_mask(&self) -> (m: Vec<bool>)
        requires
            self.wf(),
        ensures
            m@ == fillable(self@.board, self@.dead),
    {
        let mut m: Vec<bool> = Vec::new();
        let mut i: usize = 0;
        while i < 81
            invariant
                0 <= i <= 81,
                self.wf(),
                m@ == Seq::new(i as nat, |j: int| self@.board[j] is None && !self@.dead[j]),
            decreases 81 - i,
        {
            let v = self.board[i].is_none() && !self.dead_stones[i];
            m.push(v);
            i += 1;
            assert(m@ =~= Seq::new(i as nat, |j: int| self@.board[j] is None && !self@.dead[j]));
        }
        m
    }

    /// Mask of the points carrying mark `target`.
    fn mark_mask(&self, target: TerritoryMark) -> (m: Vec<bool>)
        requires
            self.wf(),
        ensures
            m@ == with_mark(self@.marks, target),
    {
        let mut m: Vec<bool> = Vec::new();
        let mut i: usize = 0;
        while i < 81
            invariant
                0 <= i <= 81,
                self.wf(),
                m@ == Seq::new(i as nat, |j: int| self@.marks[j] == target),
            decreases 81 - i,
        {
            let v = self.territory_marks[i] == target;
            m.push(v);
            i += 1;
            assert(m@ =~= Seq::new(i as nat, |j: int| self@.marks[j] == target));
        }
        m
    }

    /// Mask of the points holding a stone of colour `c`.
    fn stone_mask(&self, c: StoneColor) -> (m: Vec<bool>)
        requires
            self.wf(),
        ensures
            m@ == with_stone(self@.board, c),
    {
        let mut m: Vec<bool> = Vec::new();
        let mut i: usize = 0;
        while i < 81
            invariant
                0 <= i <= 81,
                self.wf(),
                m@ == Seq::new(i as nat, |j: int| self@.board[j] == Some(c)),
            decreases 81 - i,
        {
            let v = match self.board[i] {
                Some(s) => s == c,
                None => false,
            };
            m.push(v);
            i += 1;
            assert(m@ =~= Seq::new(i as nat, |j: int| self@.board[j] == Some(c)));
        }
        m
    }

    /// Set the mark of every point of `region` to `m`.
    fn apply_marks(&mut self, region: &Vec<bool>, m: TerritoryMark)
        requires
            old(self).wf(),
            region@.len() == 81,
        ensures
            final(self).wf(),
            final(self)@ == (OfflineState {
                marks: Seq::new(81, |i: int| if region@[i] { m } else { old(self)@.marks[i] }),
                ..old(self)@
            }),
    {
        let mut i: usize = 0;
        assert(self@.marks =~= Seq::new(
            81,
            |j: int| if j < 0 && region@[j] { m } else { old(self)@.marks[j] },
        ));
        while i < 81
            invariant
                0 <= i <= 81,
                self.wf(),
                region@.len() == 81,
                self@ == (OfflineState {
                    marks: Seq::new(
                        81,
                        |j: int| if j < i && region@[j] { m } else { old(self)@.marks[j] },
                    ),
                    ..old(self)@
                }),
            decreases 81 - i,
        {
            if region[i] {
                self.territory_marks.set(i, m);
            }
            i += 1;
            assert(self@.marks =~= Seq::new(
                81,
                |j: int| if j < i && region@[j] { m } else { old(self)@.marks[j] },
            ));
        }
        assert(self@.marks =~= Seq::new(81, |j: int| if region@[j] { m } else { old(self)@.marks[j] }));
    }

    /// Set the dead flag of every point of `region` to `v`.
    fn apply_dead(&mut self, region: &Vec<bool>, v: bool)
        requires
            old(self).wf(),
            region@.len() == 81,
        ensures
            final(self).wf(),
            final(self)@ == (OfflineState {
                dead: Seq::new(81, |i: int| if region@[i] { v } else { old(self)@.dead[i] }),
                ..old(self)@
            }),
    {
        let mut i: usize = 0;
        assert(self@.dead =~= Seq::new(
            81,
            |j: int| if j < 0 && region@[j] { v } else { old(self)@.dead[j] },
        ));
        while i < 81
            invariant
                0 <= i <= 81,
                self.wf(),
                region@.len() == 81,
                self@ == (OfflineState {
                    dead: Seq::new(
                        81,
                        |j: int| if j < i && region@[j] { v } else { old(self)@.dead[j] },
                    ),
                    ..old(self)@
                }),
            decreases 81 - i,
        {
            if region[i] {
                self.dead_stones.set(i, v);
            }
            i += 1;
            assert(self@.dead =~= Seq::new(
                81,
                |j: int| if j < i && region@[j] { v } else { old(self)@.dead[j] },
            ));
        }
        assert(self@.dead =~= Seq::new(81, |j: int| if region@[j] { v } else { old(self)@.dead[j] }));
    }

    /// Mark the empty, not-dead points connected to (`x`, `y`) as territory
    /// `color`; `Unmarked` does nothing.
    pub fn flood_fill_territory(&mut self, x: u8, y: u8, color: TerritoryMark)
        requires
            old(self).wf(),
            x < 9,
            y < 9,
        ensures
            final(self).wf(),
            final(self)@ == fill_state(old(self)@, x, y, color),
    {
        if color == TerritoryMark::Unmarked {
            return;
        }
        let allowed = self.fillable_mask();
        let region = connected_region(&allowed, (x, y));
        self.apply_marks(&region, color);
        proof {
            lemma_region_as_indices(allowed@, region@, (x as int, y as int));
        }
        assert(self@.marks =~= paint_marks(
            old(self)@.marks,
            fillable(old(self)@.board, old(self)@.dead),
            (x as int, y as int),
            color,
        ));
    }

    /// Remove the territory mark from the points connected to (`x`, `y`)
    /// that carry the same mark; an unmarked point does nothing.
    pub fn clear_territory_region(&mut self, x: u8, y: u8)
        requires
            old(self).wf(),
            x < 9,
            y < 9,
        ensures
            final(self).wf(),
            final(self)@ == clear_state(old(self)@, x, y),
    {
        let target = self.territory_marks[y as usize * 9 + x as usize];
        if target == TerritoryMark::Unmarked {
            return;
        }
        let allowed = self.mark_mask(target);
        let region = connected_region(&allowed, (x, y));
        self.apply_marks(&region, TerritoryMark::Unmarked);
        proof {
            lemma_region_as_indices(allowed@, region@, (x as int, y as int));
        }
        assert(self@.marks =~= paint_marks(
            old(self)@.marks,
            with_mark(old(self)@.marks, target),
            (x as int, y as int),
            TerritoryMark::Unmarked,
        ));
    }

    /// Toggle the dead flag of the group of `color` stones connected to
    /// (`x`, `y`): all of them get the opposite of the flag at (`x`, `y`).
    pub fn mark_group_as_dead(&mut self, x: u8, y: u8, color: StoneColor)
        requires
            old(self).wf(),
            x < 9,
            y < 9,
        ensures
            final(self).wf(),
            final(self)@ == dead_toggle_state(old(self)@, x, y, color),
    {
        let allowed = self.stone_mask(color);
        let region = connected_region(&allowed, (x, y));
        let is_dead = self.dead_stones[y as usize * 9 + x as usize];
        self.apply_dead(&region, !is_dead);
        proof {
            lemma_region_as_indices(allowed@, region@, (x as int, y as int));
        }
        assert(self@.dead =~= paint_dead(
            old(self)@.dead,
            with_stone(old(self)@.board, color),
            (x as int, y as int),
            !is_dead,
        ));
    }
}

/// The region found by the search, read index by index.
proof fn lemma_region_as_indices(allowed: Seq<bool>, region: Seq<bool>, start: Point)
    requires
        region.len() == 81,
        forall|p: Point| in_board(p) ==> (#[trigger] at(region, p) <==> reachable(allowed, start, p)),
    ensures
        forall|i: int| 0 <= i < 81 ==> #[trigger] region[i] == reachable(allowed, start, point_of(i)),
{
    assert forall|i: int| 0 <= i < 81 implies #[trigger] region[i] == reachable(allowed, start, point_of(i)) by {
        lemma_point_of_index(i);
        assert(at(region, point_of(i)) == region[i]);
    }
}


/// The breakdown shown for state `s`.
pub open spec fn breakdown_of(s: OfflineState) -> ScoreBreakdown {
    ScoreBreakdown {
        black_stones: count_upto(81, live_of(s.board, s.dead, StoneColor::Black)) as u32,
        white_stones: count_upto(81, live_of(s.board, s.dead, StoneColor::White)) as u32,
        black_territory: count_upto(81, marked(s.marks, TerritoryMark::Black)) as u32,
        white_territory: count_upto(81, marked(s.marks, TerritoryMark::White)) as u32,
        black_captures: (s.captures.1 + count_upto(81, dead_of(s.board, s.dead, StoneColor::White))) as u16,
        white_captures: (s.captures.0 + count_upto(81, dead_of(s.board, s.dead, StoneColor::Black))) as u16,
        komi_tenths: KOMI_TENTHS,
    }
}

/// The position after the rules engine accepted the requested stone.
pub open spec fn applied_state(
    s: OfflineState,
    x: u8,
    y: u8,
    board: Seq<Option<StoneColor>>,
    captures: (u16, u16),
    current_player: StoneColor,
    game_over: bool,
) -> OfflineState {
    OfflineState {
        board,
        captures,
        current_player,
        game_over,
        last_move: Some((x, y)),
        error_message: None,
        ..s
    }
}

impl OfflineGoGame {
    /// React to a click on (`x`, `y`).
    ///
    /// During replay nothing happens. While marking territory, a stone
    /// toggles its group's dead flag, an unmarked empty point fills its
    /// region with the colour of the nearby stones, and a marked point clears
    /// its region. Otherwise, while the game runs, the click asks for a stone
    /// of the player to move; the rules engine then reports back with
    /// `move_applied` or `move_rejected`.
    pub fn handle_board_click(&mut self, x: u8, y: u8) -> (request: Option<MoveRequest>)
        requires
            old(self).wf(),
            x < 9,
            y < 9,
        ensures
            final(self).wf(),
            (final(self)@, request) == click_outcome(old(self)@, x, y),
    {
        if self.sgf_replay_mode {
            return None;
        }
        if self.marking_territory {
            let i = y as usize * 9 + x as usize;
            match self.board[i] {
                Some(color) => {
                    self.mark_group_as_dead(x, y, color);
                },
                None => {
                    let current = self.territory_marks[i];
                    if current == TerritoryMark::Unmarked {
                        let fill_color = self.determine_territory_color(x, y);
                        self.flood_fill_territory(x, y, fill_color);
                    } else {
                        self.clear_territory_region(x, y);
                    }
                },
            }
            None
        } else if !self.game_over {
            Some(MoveRequest { x, y, color: self.current_player })
        } else {
            None
        }
    }

    /// Record the position the rules engine produced after accepting the
    /// stone at (`x`, `y`); the error message is cleared.
    pub fn move_applied(
        &mut self,
        x: u8,
        y: u8,
        board: Vec<Option<StoneColor>>,
        captures: (u16, u16),
        current_player: StoneColor,
        game_over: bool,
    )
        requires
            old(self).wf(),
            board@.len() == 81,
        ensures
            final(self).wf(),
            final(self)@ == applied_state(old(self)@, x, y, board@, captures, current_player, game_over),
    {
        self.board = board;
        self.captures = captures;
        self.current_player = current_player;
        self.game_over = game_over;
        self.last_move = Some((x, y));
        self.error_message = None;
    }

    /// Record that the rules engine refused the requested stone.
    pub fn move_rejected(&mut self, reason: &str)
        requires
            old(self).wf(),
        ensures
            final(self).wf(),
            final(self)@ == (OfflineState {
                error_message: Some("Invalid move: "@ + reason@),
                ..old(self)@
            }),
    {
        let msg = String::from_str("Invalid move: ").concat(reason);
        proof {
            reveal_strlit("Invalid move: ");
        }
        self.error_message = Some(msg);
    }

    /// The territory button: enter the agreement phase after the game ends,
    /// finish marking, accept. Returns whether this press reached agreement,
    /// the point at which the agreed game becomes training data.
    pub fn toggle_territory_mode(&mut self) -> (agreed: bool)
        requires
            old(self).wf(),
        ensures
            final(self).wf(),
            (final(self)@, agreed) == territory_toggle_outcome(old(self)@),
    {
        if !self.marking_territory && self.game_over {
            self.marking_territory = true;
            self.consensus_phase = ConsensusPhase::BothMarking;
            false
        } else if self.marking_territory {
            match self.consensus_phase {
                ConsensusPhase::BothMarking => {
                    self.consensus_phase = ConsensusPhase::WaitingAgreement;
                    false
                },
                ConsensusPhase::WaitingAgreement => {
                    self.consensus_phase = ConsensusPhase::Agreed;
                    self.marking_territory = false;
                    true
                },
                ConsensusPhase::Agreed => {
                    self.marking_territory = false;
                    self.consensus_phase = ConsensusPhase::Inactive;
                    false
                },
                ConsensusPhase::Inactive => false,
            }
        } else {
            false
        }
    }

    /// The counts behind the score: live stones, dead stones and territory
    /// of each colour.
    fn score_counts(&self) -> (r: (u32, u32, u32, u32, u32, u32))
        requires
            self.wf(),
        ensures
            r.0 == count_upto(81, live_of(self@.board, self@.dead, StoneColor::Black)),
            r.1 == count_upto(81, live_of(self@.board, self@.dead, StoneColor::White)),
            r.2 == count_upto(81, dead_of(self@.board, self@.dead, StoneColor::Black)),
            r.3 == count_upto(81, dead_of(self@.board, self@.dead, StoneColor::White)),
            r.4 == count_upto(81, marked(self@.marks, TerritoryMark::Black)),
            r.5 == count_upto(81, marked(self@.marks, TerritoryMark::White)),
            r.0 <= 81 && r.1 <= 81 && r.2 <= 81 && r.3 <= 81 && r.4 <= 81 && r.5 <= 81,
    {
        let ghost b = self@.board;
        let ghost d = self@.dead;
        let ghost m = self@.marks;
        let mut live_black: u32 = 0;
        let mut live_white: u32 = 0;
        let mut dead_black: u32 = 0;
        let mut dead_white: u32 = 0;
        let mut black_territory: u32 = 0;
        let mut white_territory: u32 = 0;
        let mut i: usize = 0;
        while i < 81
            invariant
                0 <= i <= 81,
                self.wf(),
                b == self@.board,
                d == self@.dead,
                m == self@.marks,
                live_black == count_upto(i as int, live_of(b, d, StoneColor::Black)),
                live_white == count_upto(i as int, live_of(b, d, StoneColor::White)),
                dead_black == count_upto(i as int, dead_of(b, d, StoneColor::Black)),
                dead_white == count_upto(i as int, dead_of(b, d, StoneColor::White)),
                black_territory == count_upto(i as int, marked(m, TerritoryMark::Black)),
                white_territory == count_upto(i as int, marked(m, TerritoryMark::White)),
                live_black <= i && live_white <= i && dead_black <= i && dead_white <= i,
                black_territory <= i && white_territory <= i,
            decreases 81 - i,
        {
            let is_dead = self.dead_stones[i];
            match self.board[i] {
                Some(StoneColor::Black) => {
                    if is_dead {
                        dead_black += 1;
                    } else {
                        live_black += 1;
                    }
                },
                Some(StoneColor::White) => {
                    if is_dead {
                        dead_white += 1;
                    } else {
                        live_white += 1;
                    }
                },
                None => {},
            }
            match self.territory_marks[i] {
                TerritoryMark::Black => {
                    black_territory += 1;
                },
                TerritoryMark::White => {
                    white_territory += 1;
                },
                TerritoryMark::Unmarked => {},
            }
            i += 1;
        }
        (live_black, live_white, dead_black, dead_white, black_territory, white_territory)
    }

    /// The current score in tenths of a point, (black, white): each side
    /// gets the opponent stones it captured, its live stones, the opponent
    /// stones marked dead and its territory; white also gets 6.5 komi.
    pub fn calculate_score(&self) -> (r: (u32, u32))
        requires
            self.wf(),
        ensures
            r.0 == 10 * black_points(self@),
            r.1 == 10 * white_points(self@) + KOMI_TENTHS,
    {
        let (lb, lw, db, dw, tb, tw) = self.score_counts();
        let black = self.captures.1 as u32 + lb + dw + tb;
        let white = self.captures.0 as u32 + lw + db + tw;
        (black * 10, white * 10 + KOMI_TENTHS)
    }

    /// The score broken down by source.
    pub fn get_score_breakdown(&self) -> (r: ScoreBreakdown)
        requires
            self.wf(),
            self@.captures.1 + count_upto(81, dead_of(self@.board, self@.dead, StoneColor::White))
                <= u16::MAX,
            self@.captures.0 + count_upto(81, dead_of(self@.board, self@.dead, StoneColor::Black))
                <= u16::MAX,
        ensures
            r == breakdown_of(self@),
    {
        let (lb, lw, db, dw, tb, tw) = self.score_counts();
        ScoreBreakdown {
            black_stones: lb,
            white_stones: lw,
            black_territory: tb,
            white_territory: tw,
            black_captures: self.captures.1 + dw as u16,
            white_captures: self.captures.0 + db as u16,
            komi_tenths: KOMI_TENTHS,
        }
    }
}


/// A point whose stone has colour `c`.
pub open spec fn stone_of(board: Seq<Option<StoneColor>>, c: StoneColor) -> spec_fn(int) -> bool {
    |i: int| board[i] == Some(c)
}

/// The two scores together do not depend on which stones are marked dead.
proof fn lemma_point_total_ignores_dead(s: OfflineState)
    requires
        well_sized(s),
    ensures
        black_points(s) + white_points(s) == s.captures.0 + s.captures.1 + count_upto(
            81,
            stone_of(s.board, StoneColor::Black),
        ) + count_upto(81, stone_of(s.board, StoneColor::White)) + count_upto(
            81,
            marked(s.marks, TerritoryMark::Black),
        ) + count_upto(81, marked(s.marks, TerritoryMark::White)),
{
    lemma_count_upto_sum(
        81,
        live_of(s.board, s.dead, StoneColor::Black),
        dead_of(s.board, s.dead, StoneColor::Black),
        stone_of(s.board, StoneColor::Black),
    );
    lemma_count_upto_sum(
        81,
        live_of(s.board, s.dead, StoneColor::White),
        dead_of(s.board, s.dead, StoneColor::White),
        stone_of(s.board, StoneColor::White),
    );
}

/// Marking or unmarking a group as dead moves its points from one side
/// to the other; the sum of both scores stays the same.
pub proof fn lemma_dead_marking_keeps_point_total(s: OfflineState, x: u8, y: u8, c: StoneColor)
    requires
        well_sized(s),
        x < 9,
        y < 9,
    ensures
        black_points(dead_toggle_state(s, x, y, c)) + white_points(dead_toggle_state(s, x, y, c))
            == black_points(s) + white_points(s),
{
    let t = dead_toggle_state(s, x, y, c);
    assert(well_sized(t));
    lemma_point_total_ignores_dead(s);
    lemma_point_total_ignores_dead(t);
}

/// Toggling the dead flag of a group twice gives back the flags it
/// started from, provided the group's stones all carried the same flag.
pub proof fn lemma_dead_toggle_twice_restores(s: OfflineState, x: u8, y: u8, c: StoneColor)
    requires
        well_sized(s),
        x < 9,
        y < 9,
        forall|p: Point|
            #![trigger reachable(with_stone(s.board, c), (x as int, y as int), p)]
            in_board(p) && reachable(with_stone(s.board, c), (x as int, y as int), p)
                ==> s.dead[cell(p)] == s.dead[idx(x, y)],
    ensures
        dead_toggle_state(dead_toggle_state(s, x, y, c), x, y, c) == s,
{
    let start = (x as int, y as int);
    let al = with_stone(s.board, c);
    let t = dead_toggle_state(s, x, y, c);
    let u = dead_toggle_state(t, x, y, c);
    assert(t.board == s.board);
    if s.board[idx(x, y)] == Some(c) {
        let path = seq![start];
        assert(is_walk(al, path));
        assert(reachable(al, start, start));
        lemma_index_of_point(start);
        assert(t.dead[idx(x, y)] == !s.dead[idx(x, y)]);
    } else {
        assert forall|p: Point| !reachable(al, start, p) by {
            if reachable(al, start, p) {
                let path = choose|path: Seq<Point>| is_walk(al, path) && path[0] == start && path.last() == p;
                assert(in_board(path[0]) && at(al, path[0]));
            }
        }
    }
    assert forall|i: int| 0 <= i < 81 implies u.dead[i] == s.dead[i] by {
        lemma_point_of_index(i);
        if reachable(al, start, point_of(i)) {
            assert(s.dead[cell(point_of(i))] == s.dead[idx(x, y)]);
        }
    }
    assert(u.dead =~= s.dead);
}

/// A walk stays a walk when more points are allowed.
proof fn lemma_walk_widen(a1: Seq<bool>, a2: Seq<bool>, path: Seq<Point>)
    requires
        is_walk(a1, path),
        forall|p: Point| #![trigger at(a2, p)] in_board(p) && at(a1, p) ==> at(a2, p),
    ensures
        is_walk(a2, path),
{
    assert forall|i: int| 0 <= i < path.len() implies in_board(#[trigger] path[i]) && at(a2, path[i]) by {
        assert(in_board(path[i]) && at(a1, path[i]));
    }
}

/// Filling territory from an empty point and then clearing the region
/// at the same point removes the mark from every point that was filled.
pub proof fn lemma_fill_then_clear_unmarks_region(s: OfflineState, x: u8, y: u8, m: TerritoryMark)
    requires
        well_sized(s),
        x < 9,
        y < 9,
        m != TerritoryMark::Unmarked,
    ensures
        forall|p: Point|
            #![trigger reachable(fillable(s.board, s.dead), (x as int, y as int), p)]
            in_board(p) && reachable(fillable(s.board, s.dead), (x as int, y as int), p)
                ==> clear_state(fill_state(s, x, y, m), x, y).marks[cell(p)]
                == TerritoryMark::Unmarked,
{
    let start = (x as int, y as int);
    let fl = fillable(s.board, s.dead);
    let t = fill_state(s, x, y, m);
    let wm = with_mark(t.marks, m);
    assert forall|p: Point|
        #![trigger reachable(fl, start, p)]
        in_board(p) && reachable(fl, start, p) implies clear_state(t, x, y).marks[cell(p)]
        == TerritoryMark::Unmarked by {
        let path = choose|path: Seq<Point>| is_walk(fl, path) && path[0] == start && path.last() == p;
        // every point of the walk got mark `m`
        assert forall|q: Point| #![trigger at(wm, q)] in_board(q) && reachable(fl, start, q) implies at(wm, q) by {
            lemma_index_of_point(q);
        }
        assert forall|q: Point| #![trigger at(wm, q)] in_board(q) && at(fl, q) && reachable(fl, start, q) implies at(wm, q) by {
        }
        // the prefix walks show each point of the walk is reachable
        let wide = Seq::new(81, |i: int| fl[i] && reachable(fl, start, point_of(i)));
        assert forall|i: int| 0 <= i < path.len() implies in_board(#[trigger] path[i]) && at(wide, path[i]) by {
            let pre = path.subrange(0, i + 1);
            assert(is_walk(fl, pre)) by {
                assert forall|j: int| 1 <= j < pre.len() implies adjacent(pre[j - 1], #[trigger] pre[j]) by {
                    assert(pre[j] == path[j] && pre[j - 1] == path[j - 1]);
                }
                assert forall|j: int| 0 <= j < pre.len() implies in_board(#[trigger] pre[j]) && at(fl, pre[j]) by {
                    assert(pre[j] == path[j]);
                }
            }
            assert(pre[0] == start && pre.last() == path[i]);
            assert(reachable(fl, start, path[i]));
            lemma_index_of_point(path[i]);
        }
        assert(is_walk(wide, path));
        assert forall|q: Point| #![trigger at(wm, q)] in_board(q) && at(wide, q) implies at(wm, q) by {
            lemma_index_of_point(q);
        }
        lemma_walk_widen(wide, wm, path);
        assert(reachable(wm, start, p));
        lemma_index_of_point(start);
        lemma_index_of_point(p);
        assert(at(fl, start));
        assert(reachable(fl, start, start)) by {
            assert(is_walk(fl, seq![start]));
        }
        assert(t.marks[idx(x, y)] == m);
    }
}

/// The breakdown's totals are the score.
pub proof fn lemma_breakdown_matches_score(s: OfflineState)
    requires
        well_sized(s),
        s.captures.1 + count_upto(81, dead_of(s.board, s.dead, StoneColor::White)) <= u16::MAX,
        s.captures.0 + count_upto(81, dead_of(s.board, s.dead, StoneColor::Black)) <= u16::MAX,
    ensures
        10 * (breakdown_of(s).black_stones + breakdown_of(s).black_territory + breakdown_of(s).black_captures)
            == 10 * black_points(s),
        10 * (breakdown_of(s).white_stones + breakdown_of(s).white_territory + breakdown_of(s).white_captures)
            + breakdown_of(s).komi_tenths == 10 * white_points(s) + KOMI_TENTHS,
{
    lemma_count_upto_bound(81, live_of(s.board, s.dead, StoneColor::Black));
    lemma_count_upto_bound(81, live_of(s.board, s.dead, StoneColor::White));
    lemma_count_upto_bound(81, marked(s.marks, TerritoryMark::Black));
    lemma_count_upto_bound(81, marked(s.marks, TerritoryMark::White));
}

/// Clicks never change the position itself (board, captures, player
/// to move, game end); only the rules engine does.
pub proof fn lemma_click_keeps_position(s: OfflineState, x: u8, y: u8)
    ensures
        click_outcome(s, x, y).0.board == s.board,
        click_outcome(s, x, y).0.captures == s.captures,
        click_outcome(s, x, y).0.current_player == s.current_player,
        click_outcome(s, x, y).0.game_over == s.game_over,
{
}


/// Label of the territory button in each agreement phase.
pub open spec fn territory_label_text(phase: ConsensusPhase) -> Seq<char> {
    match phase {
        ConsensusPhase::Inactive => "Mark Territory"@,
        ConsensusPhase::BothMarking => "Done Marking ✓"@,
        ConsensusPhase::WaitingAgreement => "Accept Territory"@,
        ConsensusPhase::Agreed => "Territory Agreed ✓"@,
    }
}

/// The territory button's label for `phase`.
pub fn territory_button_label(phase: ConsensusPhase) -> (s: &'static str)
    ensures
        s@ == territory_label_text(phase),
{
    match phase {
        ConsensusPhase::Inactive => "Mark Territory",
        ConsensusPhase::BothMarking => "Done Marking ✓",
        ConsensusPhase::WaitingAgreement => "Accept Territory",
        ConsensusPhase::Agreed => "Territory Agreed ✓",
    }
}

/// The instruction shown while marking, for `phase`.
pub open spec fn marking_instruction_text(phase: ConsensusPhase) -> Seq<char> {
    match phase {
        ConsensusPhase::BothMarking => "Click empty intersections to mark territory. Click stones to mark as dead."@,
        ConsensusPhase::WaitingAgreement => "Review territory markings. Click 'Accept Territory' if correct."@,
        _ => "Click empty intersections to mark territory"@,
    }
}

/// The instruction shown while marking territory in `phase`.
pub fn marking_instruction(phase: ConsensusPhase) -> (s: &'static str)
    ensures
        s@ == marking_instruction_text(phase),
{
    match phase {
        ConsensusPhase::BothMarking => "Click empty intersections to mark territory. Click stones to mark as dead.",
        ConsensusPhase::WaitingAgreement => "Review territory markings. Click 'Accept Territory' if correct.",
        _ => "Click empty intersections to mark territory",
    }
}

/// The end-of-game line: "Game Over! <winner> wins by <margin> points",
/// where the winner is Black only with a strictly higher score.
pub open spec fn result_line(black_tenths: nat, white_tenths: nat) -> Seq<char> {
    let winner = if black_tenths > white_tenths {
        "Black"@
    } else {
        "White"@
    };
    let margin = if black_tenths >= white_tenths {
        black_tenths - white_tenths
    } else {
        white_tenths - black_tenths
    };
    "Game Over! "@ + winner + " wins by "@ + crate::text::tenths_text(margin as nat) + " points"@
}

/// Raising both totals by the same amount leaves the result line as it
/// is: the line depends on the difference of the totals alone.
pub proof fn lemma_result_depends_on_difference(black_tenths: nat, white_tenths: nat, d: nat)
    ensures
        result_line(black_tenths + d, white_tenths + d) == result_line(black_tenths, white_tenths),
{
}

/// The result line names Black only when Black's total is strictly higher,
/// and the margin it shows is the absolute difference of the totals,
/// whoever wins.
pub proof fn lemma_result_margin_is_difference(black_tenths: nat, white_tenths: nat)
    ensures
        result_line(black_tenths, white_tenths) == "Game Over! "@ + (if black_tenths > white_tenths {
            "Black"@
        } else {
            "White"@
        }) + " wins by "@ + crate::text::tenths_text(
            abs_int(black_tenths - white_tenths) as nat,
        ) + " points"@,
{
}

impl OfflineGoGame {
    /// "New Game": a fresh position with all marking, replay and
    /// statistics state cleared; the mode stays.
    pub fn new_game(&mut self)
        requires
            old(self).wf(),
        ensures
            final(self).wf(),
            fresh_position(final(self)@),
            cleared_marking(final(self)@),
            !final(self)@.show_guild_stats,
            !final(self)@.sgf_replay_mode,
            final(self)@.sgf_current_move == 0,
            final(self)@.sgf_total_moves == 0,
            final(self)@.sgf_moves == Seq::<RecordMove>::empty(),
            final(self)@.game_mode == old(self)@.game_mode,
            final(self).go3d() == old(self).go3d(),
    {
        self.reset_position_and_marking();
        self.show_guild_stats = false;
        self.sgf_replay_mode = false;
        self.sgf_current_move = 0;
        self.sgf_total_moves = 0;
        self.sgf_moves = Vec::new();
        assert(self@.sgf_moves =~= Seq::<RecordMove>::empty());
    }

    fn reset_position_and_marking(&mut self)
        requires
            old(self).wf(),
        ensures
            final(self).wf(),
            fresh_position(final(self)@),
            cleared_marking(final(self)@),
            final(self)@.show_guild_stats == old(self)@.show_guild_stats,
            final(self)@.sgf_replay_mode == old(self)@.sgf_replay_mode,
            final(self)@.sgf_current_move == old(self)@.sgf_current_move,
            final(self)@.sgf_total_moves == old(self)@.sgf_total_moves,
            final(self)@.sgf_moves == old(self)@.sgf_moves,
            final(self)@.game_mode == old(self)@.game_mode,
            final(self).go3d() == old(self).go3d(),
    {
        self.board = empty_board();
        self.captures = (0, 0);
        self.current_player = StoneColor::Black;
        self.game_over = false;
        self.territory_marks = unmarked();
        self.dead_stones = no_dead();
        self.marking_territory = false;
        self.consensus_phase = ConsensusPhase::Inactive;
        self.last_move = None;
        self.error_message = None;
    }

    /// Load a game record for replay, given what parsing it gave: a parse
    /// error is passed on and nothing changes; a parsed record is kept and
    /// replay starts from the empty board with nothing marked.
    pub fn load_sgf(&mut self, parsed: Result<Vec<RecordMove>, String>) -> (r: Result<(), String>)
        requires
            old(self).wf(),
        ensures
            final(self).wf(),
            final(self).go3d() == old(self).go3d(),
            match parsed {
                Err(e) => r is Err && r->Err_0@ == e@ && final(self)@ == old(self)@,
                Ok(moves) => {
                    &&& r is Ok
                    &&& fresh_position(final(self)@)
                    &&& cleared_marking(final(self)@)
                    &&& final(self)@.sgf_replay_mode
                    &&& final(self)@.sgf_current_move == 0
                    &&& final(self)@.sgf_total_moves == moves@.len()
                    &&& final(self)@.sgf_moves == moves@
                    &&& final(self)@.show_guild_stats == old(self)@.show_guild_stats
                    &&& final(self)@.game_mode == old(self)@.game_mode
                },
            },
    {
        match parsed {
            Err(e) => Err(e),
            Ok(moves) => {
                self.reset_position_and_marking();
                self.sgf_total_moves = moves.len();
                self.sgf_moves = moves;
                self.sgf_current_move = 0;
                self.sgf_replay_mode = true;
                Ok(())
            },
        }
    }

    /// The record's move that replay applies next, if any.
    pub fn sgf_next_move(&self) -> (r: Option<RecordMove>)
        requires
            self.wf(),
        ensures
            r == next_record_move(self@),
    {
        if self.sgf_replay_mode && self.sgf_current_move < self.sgf_total_moves {
            Some(self.sgf_moves[self.sgf_current_move])
        } else {
            None
        }
    }

    /// The record's move at `index`.
    pub fn sgf_move_at(&self, index: usize) -> (r: RecordMove)
        requires
            index < self@.sgf_moves.len(),
        ensures
            r == self@.sgf_moves[index as int],
    {
        self.sgf_moves[index]
    }

    /// The number of record moves replayed so far.
    pub fn sgf_current_move(&self) -> (n: usize)
        ensures
            n == self@.sgf_current_move,
    {
        self.sgf_current_move
    }

    /// The number of moves in the record.
    pub fn sgf_total_moves(&self) -> (n: usize)
        ensures
            n == self@.sgf_total_moves,
    {
        self.sgf_total_moves
    }

    /// Record the position the rules engine produced after accepting the
    /// record's move `index`: replay stands after that move, and a placed
    /// stone becomes the last move. (Stepping forward is this with the
    /// move `sgf_next_move` gave and the current count as `index`; a move
    /// the engine refuses changes nothing.)
    pub fn sgf_move_applied(
        &mut self,
        index: usize,
        board: Vec<Option<StoneColor>>,
        captures: (u16, u16),
        current_player: StoneColor,
        game_over: bool,
    )
        requires
            old(self).wf(),
            index < old(self)@.sgf_moves.len(),
            board@.len() == 81,
        ensures
            final(self).wf(),
            final(self).go3d() == old(self).go3d(),
            final(self)@ == replayed_state(old(self)@, index as nat, board@, captures, current_player, game_over),
    {
        self.board = board;
        self.captures = captures;
        self.current_player = current_player;
        self.game_over = game_over;
        self.sgf_current_move = index + 1;
        match self.sgf_moves[index] {
            RecordMove::Place { x, y, .. } => {
                self.last_move = Some((x, y));
            },
            _ => {},
        }
    }

    /// One step of replaying to the end of the record, given what the rules
    /// engine made of the move `sgf_next_move` gave: the position it
    /// produced, or nothing when it refused the move. An accepted move is
    /// recorded as by `sgf_move_applied`, and the replay goes on while moves
    /// remain; a refused move changes nothing and ends the replay, which
    /// could not get past it.
    pub fn sgf_replay_step(
        &mut self,
        outcome: Option<(Vec<Option<StoneColor>>, (u16, u16), StoneColor, bool)>,
    ) -> (more: bool)
        requires
            old(self).wf(),
            next_record_move(old(self)@) is Some,
            outcome matches Some(o) ==> o.0@.len() == 81,
        ensures
            final(self).wf(),
            final(self).go3d() == old(self).go3d(),
            match outcome {
                Some(o) => {
                    &&& final(self)@ == replayed_state(
                        old(self)@,
                        old(self)@.sgf_current_move,
                        o.0@,
                        o.1,
                        o.2,
                        o.3,
                    )
                    &&& more == (final(self)@.sgf_current_move < final(self)@.sgf_total_moves)
                },
                None => final(self)@ == old(self)@ && !more,
            },
    {
        match outcome {
            Some((board, captures, player, over)) => {
                let index = self.sgf_current_move;
                self.sgf_move_applied(index, board, captures, player, over);
                self.sgf_current_move < self.sgf_total_moves
            },
            None => false,
        }
    }

    /// Step back one move: the position returns to the empty board with no
    /// last move and nothing replayed, and the number of record moves to
    /// replay again comes back (one fewer than had been replayed). The
    /// caller replays them through the rules engine, reporting each accepted
    /// one with `sgf_move_applied`. At the start nothing changes.
    pub fn sgf_step_backward(&mut self) -> (replay: usize)
        requires
            old(self).wf(),
        ensures
            final(self).wf(),
            final(self).go3d() == old(self).go3d(),
            old(self)@.sgf_current_move == 0 ==> replay == 0 && final(self)@ == old(self)@,
            old(self)@.sgf_current_move > 0 ==> {
                &&& replay == old(self)@.sgf_current_move - 1
                &&& final(self)@ == rewound_state(old(self)@)
            },
    {
        if self.sgf_current_move == 0 {
            return 0;
        }
        let target = self.sgf_current_move - 1;
        self.board = empty_board();
        self.captures = (0, 0);
        self.current_player = StoneColor::Black;
        self.game_over = false;
        self.sgf_current_move = 0;
        self.last_move = None;
        target
    }

    /// Leave replay and start a new game.
    pub fn exit_sgf_replay(&mut self)
        requires
            old(self).wf(),
        ensures
            final(self).wf(),
            fresh_position(final(self)@),
            cleared_marking(final(self)@),
            !final(self)@.sgf_replay_mode,
            final(self)@.sgf_current_move == 0,
            final(self)@.sgf_total_moves == 0,
            final(self)@.sgf_moves == Seq::<RecordMove>::empty(),
            final(self)@.show_guild_stats == old(self)@.show_guild_stats,
            final(self)@.game_mode == old(self)@.game_mode,
            final(self).go3d() == old(self).go3d(),
    {
        self.sgf_replay_mode = false;
        self.sgf_current_move = 0;
        self.sgf_total_moves = 0;
        self.sgf_moves = Vec::new();
        assert(self@.sgf_moves =~= Seq::<RecordMove>::empty());
        self.reset_position_and_marking();
    }

    /// The end-of-game line for the current score.
    pub fn result_text(&self) -> (s: String)
        requires
            self.wf(),
        ensures
            s@ == result_line(
                10 * black_points(self@),
                (10 * white_points(self@) + KOMI_TENTHS) as nat,
            ),
            s@ == "Game Over! "@ + (if 10 * black_points(self@) > 10 * white_points(self@) + KOMI_TENTHS {
                "Black"@
            } else {
                "White"@
            }) + " wins by "@ + crate::text::tenths_text(
                abs_int(10 * black_points(self@) - (10 * white_points(self@) + KOMI_TENTHS)) as nat,
            ) + " points"@,
    {
        let (black, white) = self.calculate_score();
        let winner = if black > white {
            "Black"
        } else {
            "White"
        };
        let margin = if black >= white {
            black - white
        } else {
            white - black
        };
        let mut s = String::from_str("Game Over! ");
        s.append(winner);
        s.append(" wins by ");
        let m = crate::text::tenths_string(margin as u64);
        s.append(m.as_str());
        s.append(" points");
        proof {
            reveal_strlit("Game Over! ");
            reveal_strlit("Black");
            reveal_strlit("White");
            reveal_strlit(" wins by ");
            reveal_strlit(" points");
        }
        s
    }

    /// Switch between the 2D and the 3D game.
    pub fn set_game_mode(&mut self, mode: GameMode)
        ensures
            final(self).wf() == old(self).wf(),
            final(self)@ == (OfflineState { game_mode: mode, ..old(self)@ }),
            final(self).go3d() == old(self).go3d(),
    {
        self.game_mode = mode;
    }

    /// Show or hide the play-style statistics.
    pub fn toggle_guild_stats(&mut self)
        ensures
            final(self).wf() == old(self).wf(),
            final(self)@ == (OfflineState { show_guild_stats: !old(self)@.show_guild_stats, ..old(self)@ }),
            final(self).go3d() == old(self).go3d(),
    {
        self.show_guild_stats = !self.show_guild_stats;
    }

    /// The side length of the board.
    pub fn board_size(&self) -> (n: u8)
        ensures
            n == 9,
    {
        9
    }

    /// The stone at (`x`, `y`).
    pub fn stone_at(&self, x: u8, y: u8) -> (r: Option<StoneColor>)
        requires
            self.wf(),
            x < 9,
            y < 9,
        ensures
            r == self@.board[idx(x, y)],
    {
        self.board[y as usize * 9 + x as usize]
    }

    /// The territory mark at (`x`, `y`).
    pub fn territory_mark(&self, x: u8, y: u8) -> (r: TerritoryMark)
        requires
            self.wf(),
            x < 9,
            y < 9,
        ensures
            r == self@.marks[idx(x, y)],
    {
        self.territory_marks[y as usize * 9 + x as usize]
    }

    /// Whether the stone at (`x`, `y`) is marked dead.
    pub fn is_dead(&self, x: u8, y: u8) -> (r: bool)
        requires
            self.wf(),
            x < 9,
            y < 9,
        ensures
            r == self@.dead[idx(x, y)],
    {
        self.dead_stones[y as usize * 9 + x as usize]
    }

    /// The number of points carrying a territory mark.
    pub fn territory_mark_count(&self) -> (n: u32)
        requires
            self.wf(),
        ensures
            n == count_upto(81, |i: int| self@.marks[i] != TerritoryMark::Unmarked),
    {
        let ghost f = |i: int| self@.marks[i] != TerritoryMark::Unmarked;
        let mut n: u32 = 0;
        let mut i: usize = 0;
        while i < 81
            invariant
                0 <= i <= 81,
                self.wf(),
                f == (|i: int| self@.marks[i] != TerritoryMark::Unmarked),
                n == count_upto(i as int, f),
                n <= i,
            decreases 81 - i,
        {
            if self.territory_marks[i] != TerritoryMark::Unmarked {
                n += 1;
            }
            i += 1;
        }
        n
    }

    /// Whether the players are marking territory.
    pub fn marking_territory(&self) -> (r: bool)
        ensures
            r == self@.marking_territory,
    {
        self.marking_territory
    }

    /// The agreement phase.
    pub fn consensus_phase(&self) -> (r: ConsensusPhase)
        ensures
            r == self@.consensus_phase,
    {
        self.consensus_phase
    }

    /// The last stone placed.
    pub fn last_move(&self) -> (r: Option<(u8, u8)>)
        ensures
            r == self@.last_move,
    {
        self.last_move
    }

    /// The message of the last refused move, if any.
    pub fn error_message(&self) -> (r: Option<&str>)
        ensures
            r matches Some(m) ==> self@.error_message == Some(m@),
            r is None <==> self@.error_message is None,
    {
        match &self.error_message {
            Some(m) => Some(m.as_str()),
            None => None,
        }
    }

    /// Captured stones, (black stones captured, white stones captured).
    pub fn captures(&self) -> (r: (u16, u16))
        ensures
            r == self@.captures,
    {
        self.captures
    }

    /// Whether the game has ended.
    pub fn is_game_over(&self) -> (r: bool)
        ensures
            r == self@.game_over,
    {
        self.game_over
    }

    /// The player to move.
    pub fn current_player(&self) -> (r: StoneColor)
        ensures
            r == self@.current_player,
    {
        self.current_player
    }

    /// The current game mode.
    pub fn game_mode(&self) -> (r: GameMode)
        ensures
            r == self@.game_mode,
    {
        self.game_mode
    }

    /// The 3D game.
    pub fn go3d_game(&self) -> (r: &Go3DWireframe)
        ensures
            *r == self.go3d(),
    {
        &self.go3d_game
    }

    /// The 3D game, for changes.
    pub fn go3d_game_mut(&mut self) -> (r: &mut Go3DWireframe)
        ensures
            *r == old(self).go3d(),
            final(self).go3d() == *final(r),
            final(self)@ == old(self)@,
            old(self).wf() && final(r).wf() ==> final(self).wf(),
    {
        &mut self.go3d_game
    }
}

fn empty_board() -> (v: Vec<Option<StoneColor>>)
    ensures
        v@ == Seq::new(81, |i: int| None::<StoneColor>),
{
    let mut v: Vec<Option<StoneColor>> = Vec::new();
    let mut i: usize = 0;
    while i < 81
        invariant
            0 <= i <= 81,
            v@ == Seq::new(i as nat, |j: int| None::<StoneColor>),
        decreases 81 - i,
    {
        v.push(None);
        i += 1;
        assert(v@ =~= Seq::new(i as nat, |j: int| None::<StoneColor>));
    }
    v
}

fn unmarked() -> (v: Vec<TerritoryMark>)
    ensures
        v@ == Seq::new(81, |i: int| TerritoryMark::Unmarked),
{
    let mut v: Vec<TerritoryMark> = Vec::new();
    let mut i: usize = 0;
    while i < 81
        invariant
            0 <= i <= 81,
            v@ == Seq::new(i as nat, |j: int| TerritoryMark::Unmarked),
        decreases 81 - i,
    {
        v.push(TerritoryMark::Unmarked);
        i += 1;
        assert(v@ =~= Seq::new(i as nat, |j: int| TerritoryMark::Unmarked));
    }
    v
}

fn no_dead() -> (v: Vec<bool>)
    ensures
        v@ == Seq::new(81, |i: int| false),
{
    let mut v: Vec<bool> = Vec::new();
    let mut i: usize = 0;
    while i < 81
        invariant
            0 <= i <= 81,
            v@ == Seq::new(i as nat, |j: int| false),
        decreases 81 - i,
    {
        v.push(false);
        i += 1;
        assert(v@ =~= Seq::new(i as nat, |j: int| false));
    }
    v
}

/// The record of a marked point in the training data: `x,y,Colour`.
pub open spec fn mark_label(i: int, m: TerritoryMark) -> Seq<char> {
    crate::text::decimal((i % 9) as nat) + ","@ + crate::text::decimal((i / 9) as nat) + ","@ + if m
        == TerritoryMark::Black {
        "Black"@
    } else {
        "White"@
    }
}

/// The records of the marked points among the first `n`, in board order.
pub open spec fn mark_labels_upto(marks: Seq<TerritoryMark>, n: int) -> Seq<Seq<char>>
    decreases n,
{
    if n <= 0 {
        Seq::empty()
    } else {
        mark_labels_upto(marks, n - 1) + if marks[n - 1] == TerritoryMark::Unmarked {
            Seq::<Seq<char>>::empty()
        } else {
            seq![mark_label(n - 1, marks[n - 1])]
        }
    }
}

/// The record of a dead stone in the training data: `x,y`.
pub open spec fn point_label(i: int) -> Seq<char> {
    crate::text::decimal((i % 9) as nat) + ","@ + crate::text::decimal((i / 9) as nat)
}

/// The records of the dead stones among the first `n` points, in board
/// order.
pub open spec fn dead_labels_upto(dead: Seq<bool>, n: int) -> Seq<Seq<char>>
    decreases n,
{
    if n <= 0 {
        Seq::empty()
    } else {
        dead_labels_upto(dead, n - 1) + if dead[n - 1] {
            seq![point_label(n - 1)]
        } else {
            Seq::<Seq<char>>::empty()
        }
    }
}

fn point_text(i: usize) -> (s: String)
    requires
        i < 81,
    ensures
        s@ == point_label(i as int),
{
    let mut s = crate::text::decimal_string((i % 9) as u64);
    s.append(",");
    crate::text::push_decimal(&mut s, (i / 9) as u64);
    proof {
        reveal_strlit(",");
    }
    s
}

impl OfflineGoGame {
    /// The territory marks of the training record of an agreed game:
    /// `x,y,Colour` for each marked point, in board order.
    pub fn training_marks(&self) -> (v: Vec<String>)
        requires
            self.wf(),
        ensures
            v@.map_values(|s: String| s@) == mark_labels_upto(self@.marks, 81),
    {
        let mut v: Vec<String> = Vec::new();
        let mut i: usize = 0;
        while i < 81
            invariant
                0 <= i <= 81,
                self.wf(),
                v@.map_values(|s: String| s@) == mark_labels_upto(self@.marks, i as int),
            decreases 81 - i,
        {
            let m = self.territory_marks[i];
            let ghost before = v@.map_values(|s: String| s@);
            if m != TerritoryMark::Unmarked {
                let mut s = point_text(i);
                s.append(",");
                if m == TerritoryMark::Black {
                    s.append("Black");
                } else {
                    s.append("White");
                }
                proof {
                    reveal_strlit(",");
                    reveal_strlit("Black");
                    reveal_strlit("White");
                }
                let ghost sv = s@;
                v.push(s);
                assert(v@.map_values(|s: String| s@) =~= before.push(sv));
                assert(sv == mark_label(i as int, m));
                assert(mark_labels_upto(self@.marks, i + 1) =~= before + seq![sv]);
            } else {
                assert(mark_labels_upto(self@.marks, i + 1) =~= before + Seq::<Seq<char>>::empty());
            }
            i += 1;
        }
        v
    }

    /// The dead stones of the training record of an agreed game: `x,y` for
    /// each, in board order.
    pub fn training_dead_stones(&self) -> (v: Vec<String>)
        requires
            self.wf(),
        ensures
            v@.map_values(|s: String| s@) == dead_labels_upto(self@.dead, 81),
    {
        let mut v: Vec<String> = Vec::new();
        let mut i: usize = 0;
        while i < 81
            invariant
                0 <= i <= 81,
                self.wf(),
                v@.map_values(|s: String| s@) == dead_labels_upto(self@.dead, i as int),
            decreases 81 - i,
        {
            let ghost before = v@.map_values(|s: String| s@);
            if self.dead_stones[i] {
                let s = point_text(i);
                let ghost sv = s@;
                v.push(s);
                assert(v@.map_values(|s: String| s@) =~= before.push(sv));
                assert(dead_labels_upto(self@.dead, i + 1) =~= before + seq![sv]);
            } else {
                assert(dead_labels_upto(self@.dead, i + 1) =~= before + Seq::<Seq<char>>::empty());
            }
            i += 1;
        }
        v
    }
}

} // verus!

//! Game lobby: ranks, colours and time controls, the texts the lobby shows
//! for them, the order in which open challenges are listed, and the lobby's
//! own form state and the actions it emits.
//!
//! Player profiles (peer ids, win rates) and the drawing of the three
//! lobby columns are held and done by the application.
use crate::text::{decimal, decimal_string, push_decimal, two_digit_string, two_digits};
use vstd::prelude::*;
use vstd::string::StringExecFns;

verus! {

/// A Go rank: 30 kyu up to 1 kyu, then 1 dan up to 9 dan.
#[derive(Debug, Clone, Copy, PartialEq, Eq, Structural)]
pub enum GoRank {
    Kyu(u8),
    Dan(u8),
}

/// A stone colour.
#[derive(Debug, Clone, Copy, PartialEq, Eq, Structural)]
pub enum GoColor {
    Black,
    White,
}

/// A time control.
#[derive(Debug, Clone, Copy, PartialEq, Eq, Structural)]
pub enum TimeControl {
    Blitz { minutes: u32, increment: u32 },
    Rapid { minutes: u32, increment: u32 },
    Correspondence { days_per_move: u32 },
}

/// What a quick match looks for.
#[derive(Debug, Clone, Copy, PartialEq, Eq, Structural)]
pub struct QuickMatchPreferences {
    /// Ranks accepted on either side of one's own.
    pub rank_range: u8,
    pub time_control: Option<TimeControl>,
    pub board_size: u8,
    pub allow_handicap: bool,
}

impl Default for QuickMatchPreferences {
    fn default() -> (p: Self)
        ensures
            p == (QuickMatchPreferences {
                rank_range: 0,
                time_control: None,
                board_size: 0,
                allow_handicap: false,
            }),
    {
        QuickMatchPreferences { rank_range: 0, time_control: None, board_size: 0, allow_handicap: false }
    }
}

/// The position of a rank on one scale: 30 kyu is 0, 1 kyu is 29, 1 dan
/// is 31.
pub open spec fn rank_value(r: GoRank) -> int {
    match r {
        GoRank::Kyu(k) => 30 - k,
        GoRank::Dan(d) => 30 + d,
    }
}

/// The rank can be placed on the scale without leaving the range of a
/// byte: at most 30 kyu, at most 225 dan.
pub open spec fn rank_in_range(r: GoRank) -> bool {
    match r {
        GoRank::Kyu(k) => k <= 30,
        GoRank::Dan(d) => d <= 225,
    }
}

/// The number of ranks between two ranks.
pub open spec fn rank_gap(a: GoRank, b: GoRank) -> nat {
    let d = rank_value(a) - rank_value(b);
    (if d < 0 {
        -d
    } else {
        d
    }) as nat
}

fn rank_value_of(r: GoRank) -> (v: u8)
    requires
        rank_in_range(r),
    ensures
        v == rank_value(r),
{
    match r {
        GoRank::Kyu(k) => 30 - k,
        GoRank::Dan(d) => 30 + d,
    }
}

/// The number of ranks between `a` and `b`.
pub fn rank_distance(a: &GoRank, b: &GoRank) -> (d: u8)
    requires
        rank_in_range(*a),
        rank_in_range(*b),
    ensures
        d == rank_gap(*a, *b),
{
    let av = rank_value_of(*a);
    let bv = rank_value_of(*b);
    if av >= bv {
        av - bv
    } else {
        bv - av
    }
}

/// The text of a rank: `5k`, `3d`.
pub open spec fn rank_text(r: GoRank) -> Seq<char> {
    match r {
        GoRank::Kyu(k) => decimal(k as nat) + "k"@,
        GoRank::Dan(d) => decimal(d as nat) + "d"@,
    }
}

/// The text of a rank.
pub fn format_rank(rank: &GoRank) -> (s: String)
    ensures
        s@ == rank_text(*rank),
{
    proof {
        reveal_strlit("k");
        reveal_strlit("d");
    }
    match rank {
        GoRank::Kyu(k) => {
            let mut s = decimal_string(*k as u64);
            s.append("k");
            s
        },
        GoRank::Dan(d) => {
            let mut s = decimal_string(*d as u64);
            s.append("d");
            s
        },
    }
}

/// The symbol of a colour.
pub open spec fn color_mark(c: GoColor) -> Seq<char> {
    match c {
        GoColor::Black => "●"@,
        GoColor::White => "○"@,
    }
}

/// The symbol of a colour.
pub fn color_symbol(color: GoColor) -> (s: &'static str)
    ensures
        s@ == color_mark(color),
{
    proof {
        reveal_strlit("●");
        reveal_strlit("○");
    }
    match color {
        GoColor::Black => "●",
        GoColor::White => "○",
    }
}

/// It is one's turn when the side to move has one's colour.
pub fn is_my_turn(current_turn: GoColor, my_color: GoColor) -> (r: bool)
    ensures
        r == (current_turn == my_color),
{
    current_turn == my_color
}

/// The text of a time control: minutes plus increment, or days per move.
pub open spec fn time_control_text(tc: TimeControl) -> Seq<char> {
    match tc {
        TimeControl::Blitz { minutes, increment } => decimal(minutes as nat) + "+"@ + decimal(
            increment as nat,
        ),
        TimeControl::Rapid { minutes, increment } => decimal(minutes as nat) + "+"@ + decimal(
            increment as nat,
        ),
        TimeControl::Correspondence { days_per_move } => decimal(days_per_move as nat) + " days"@,
    }
}

/// The text of a time control.
pub fn format_time_control(tc: &TimeControl) -> (s: String)
    ensures
        s@ == time_control_text(*tc),
{
    proof {
        reveal_strlit("+");
        reveal_strlit(" days");
    }
    match tc {
        TimeControl::Blitz { minutes, increment } | TimeControl::Rapid { minutes, increment } => {
            let mut s = decimal_string(*minutes as u64);
            s.append("+");
            push_decimal(&mut s, *increment as u64);
            s
        },
        TimeControl::Correspondence { days_per_move } => {
            let mut s = decimal_string(*days_per_move as u64);
            s.append(" days");
            s
        },
    }
}

/// A clock reading of `secs` seconds: `h:mm:ss` from an hour on, `m:ss`
/// below.
pub open spec fn clock_text(secs: nat) -> Seq<char> {
    let hours = secs / 3600;
    let minutes = (secs % 3600) / 60;
    let seconds = secs % 60;
    if hours > 0 {
        decimal(hours) + ":"@ + two_digits(minutes) + ":"@ + two_digits(seconds)
    } else {
        decimal(minutes) + ":"@ + two_digits(seconds)
    }
}

/// The time left on a clock, in whole seconds.
pub fn format_time_remaining(total_seconds: u64) -> (s: String)
    ensures
        s@ == clock_text(total_seconds as nat),
{
    let hours = total_seconds / 3600;
    let minutes = (total_seconds % 3600) / 60;
    let seconds = total_seconds % 60;
    proof {
        reveal_strlit(":");
    }
    if hours > 0 {
        let mut s = decimal_string(hours);
        s.append(":");
        let m = two_digit_string(minutes);
        s.append(m.as_str());
        s.append(":");
        let sec = two_digit_string(seconds);
        s.append(sec.as_str());
        s
    } else {
        let mut s = decimal_string(minutes);
        s.append(":");
        let sec = two_digit_string(seconds);
        s.append(sec.as_str());
        s
    }
}

/// An age of `secs` seconds in its largest whole unit.
pub open spec fn age_text(secs: nat) -> Seq<char> {
    if secs < 60 {
        decimal(secs) + "s"@
    } else if secs < 3600 {
        decimal(secs / 60) + "m"@
    } else {
        decimal(secs / 3600) + "h"@
    }
}

/// How long ago something happened, in whole seconds.
pub fn format_duration(seconds: u64) -> (s: String)
    ensures
        s@ == age_text(seconds as nat),
{
    proof {
        reveal_strlit("s");
        reveal_strlit("m");
        reveal_strlit("h");
    }
    if seconds < 60 {
        let mut s = decimal_string(seconds);
        s.append("s");
        s
    } else if seconds < 3600 {
        let mut s = decimal_string(seconds / 60);
        s.append("m");
        s
    } else {
        let mut s = decimal_string(seconds / 3600);
        s.append("h");
        s
    }
}

/// Challenge `i` is listed before challenge `j`: its challenger is nearer
/// in rank to `my_rank`, or as near and `i` came first.
pub open spec fn listed_before(ranks: Seq<GoRank>, my_rank: GoRank, i: int, j: int) -> bool {
    let gi = rank_gap(ranks[i], my_rank);
    let gj = rank_gap(ranks[j], my_rank);
    gi < gj || (gi == gj && i < j)
}

/// `order` lists every challenge once, nearest in rank first, ties in the
/// order the challenges were given.
pub open spec fn proximity_order(ranks: Seq<GoRank>, my_rank: GoRank, order: Seq<usize>) -> bool {
    &&& order.len() == ranks.len()
    &&& forall|k: int| 0 <= k < order.len() ==> order[k] < ranks.len()
    &&& forall|a: int, b: int|
        0 <= a < b < order.len() ==> listed_before(ranks, my_rank, #[trigger] order[a] as int, #[trigger] order[b] as int)
}

/// The order in which challenges whose challengers have `ranks` are
/// listed for a player of `my_rank`: a stable sort by rank distance.
pub fn challenge_order(ranks: &Vec<GoRank>, my_rank: GoRank) -> (order: Vec<usize>)
    requires
        forall|i: int| 0 <= i < ranks@.len() ==> rank_in_range(#[trigger] ranks@[i]),
        rank_in_range(my_rank),
    ensures
        proximity_order(ranks@, my_rank, order@),
{
    let ghost rs = ranks@;
    let mut order: Vec<usize> = Vec::new();
    let mut i: usize = 0;
    while i < ranks.len()
        invariant
            0 <= i <= ranks@.len(),
            rs == ranks@,
            forall|j: int| 0 <= j < rs.len() ==> rank_in_range(#[trigger] rs[j]),
            rank_in_range(my_rank),
            order@.len() == i,
            forall|k: int| 0 <= k < order@.len() ==> order@[k] < i,
            forall|a: int, b: int|
                0 <= a < b < order@.len() ==> listed_before(rs, my_rank, #[trigger] order@[a] as int, #[trigger] order@[b] as int),
        decreases ranks@.len() - i,
    {
        let ki = rank_distance(&ranks[i], &my_rank);
        let mut p: usize = 0;
        while p < order.len() && rank_distance(&ranks[order[p]], &my_rank) <= ki
            invariant
                0 <= p <= order@.len(),
                i < rs.len(),
                rs == ranks@,
                forall|j: int| 0 <= j < rs.len() ==> rank_in_range(#[trigger] rs[j]),
                rank_in_range(my_rank),
                ki == rank_gap(rs[i as int], my_rank),
                forall|k: int| 0 <= k < order@.len() ==> order@[k] < i,
                forall|q: int| 0 <= q < p ==> rank_gap(rs[#[trigger] order@[q] as int], my_rank) <= ki,
            decreases order@.len() - p,
        {
            p += 1;
        }
        let ghost old_order = order@;
        proof {
            assert forall|q: int| p <= q < old_order.len() implies rank_gap(rs[#[trigger] old_order[q] as int], my_rank) > ki by {
                if q > p {
                    assert(listed_before(rs, my_rank, old_order[p as int] as int, old_order[q] as int));
                }
            }
        }
        order.insert(p, i);
        proof {
            let n = order@;
            assert(n == old_order.insert(p as int, i));
            assert forall|k: int| 0 <= k < n.len() implies n[k] < i + 1 by {
                if k < p {
                    assert(n[k] == old_order[k]);
                } else if k > p {
                    assert(n[k] == old_order[k - 1]);
                }
            }
            assert forall|a: int, b: int| 0 <= a < b < n.len() implies listed_before(rs, my_rank, #[trigger] n[a] as int, #[trigger] n[b] as int) by {
                if b < p {
                    assert(n[a] == old_order[a] && n[b] == old_order[b]);
                } else if b == p {
                    assert(n[a] == old_order[a]);
                    assert(rank_gap(rs[old_order[a] as int], my_rank) <= ki);
                } else if a == p {
                    assert(n[b] == old_order[b - 1]);
                    assert(rank_gap(rs[old_order[b - 1] as int], my_rank) > ki);
                } else if a < p {
                    assert(n[a] == old_order[a] && n[b] == old_order[b - 1]);
                    assert(listed_before(rs, my_rank, old_order[a] as int, old_order[b - 1] as int));
                } else {
                    assert(n[a] == old_order[a - 1] && n[b] == old_order[b - 1]);
                    assert(listed_before(rs, my_rank, old_order[a - 1] as int, old_order[b - 1] as int));
                }
            }
        }
        i += 1;
    }
    order
}

/// The fields of the form for a new challenge.
#[derive(Debug, Clone, Copy, PartialEq, Eq, Structural)]
pub struct NewChallenge {
    /// 0 for blitz, 1 for rapid, 2 for correspondence.
    pub time_control_type: usize,
    pub minutes: u32,
    pub increment: u32,
    pub days_per_move: u32,
    pub board_size: u8,
    pub handicap: u8,
    pub ranked: bool,
}

impl Default for NewChallenge {
    fn default() -> (c: Self)
        ensures
            c == (NewChallenge {
                time_control_type: 0,
                minutes: 0,
                increment: 0,
                days_per_move: 0,
                board_size: 0,
                handicap: 0,
                ranked: false,
            }),
    {
        NewChallenge {
            time_control_type: 0,
            minutes: 0,
            increment: 0,
            days_per_move: 0,
            board_size: 0,
            handicap: 0,
            ranked: false,
        }
    }
}

/// The time control a challenge form describes; an unknown kind gives
/// rapid 10+5.
pub open spec fn form_time_control(nc: NewChallenge) -> TimeControl {
    if nc.time_control_type == 0 {
        TimeControl::Blitz { minutes: nc.minutes, increment: nc.increment }
    } else if nc.time_control_type == 1 {
        TimeControl::Rapid { minutes: nc.minutes, increment: nc.increment }
    } else if nc.time_control_type == 2 {
        TimeControl::Correspondence { days_per_move: nc.days_per_move }
    } else {
        TimeControl::Rapid { minutes: 10, increment: 5 }
    }
}

/// The choices of the form's time control, in the order of their numbers:
/// 0 Blitz, 1 Rapid, 2 Correspondence.
pub open spec fn form_choices() -> Seq<Seq<char>> {
    seq!["Blitz"@, "Rapid"@, "Correspondence"@]
}

/// The name of a time control's kind.
pub open spec fn time_control_name(tc: TimeControl) -> Seq<char> {
    match tc {
        TimeControl::Blitz { .. } => "Blitz"@,
        TimeControl::Rapid { .. } => "Rapid"@,
        TimeControl::Correspondence { .. } => "Correspondence"@,
    }
}

/// Each choice of the form gives a time control of the kind chosen, with
/// the form's own minutes and increment, or days per move; only a number
/// outside the choices gives the rapid 10+5 default.
pub proof fn lemma_form_choice_gives_its_time_control(nc: NewChallenge)
    ensures
        nc.time_control_type < 3 ==> time_control_name(form_time_control(nc))
            == form_choices()[nc.time_control_type as int],
        form_time_control(nc) matches TimeControl::Correspondence { days_per_move } ==> nc.time_control_type
            == 2 && days_per_move == nc.days_per_move,
        form_time_control(nc) matches TimeControl::Blitz { minutes, increment } ==> nc.time_control_type
            == 0 && minutes == nc.minutes && increment == nc.increment,
        nc.time_control_type == 1 ==> form_time_control(nc) == (TimeControl::Rapid {
            minutes: nc.minutes,
            increment: nc.increment,
        }),
        nc.time_control_type >= 3 ==> form_time_control(nc) == (TimeControl::Rapid {
            minutes: 10,
            increment: 5,
        }),
{
}

/// What the lobby asks of the application.
#[derive(Debug, Clone)]
pub enum LobbyAction {
    ResumeGame(String),
    AcceptChallenge(String),
    QuickMatch(QuickMatchPreferences),
    CreateChallenge { time_control: TimeControl, board_size: u8, handicap: u8, ranked: bool },
}

/// The lobby's own state: quick match preferences, selections and the
/// challenge form.
pub struct LobbyState {
    quick_match_prefs: QuickMatchPreferences,
    selected_game: Option<String>,
    create_challenge_open: bool,
    new_challenge: NewChallenge,
}

/// Abstract state of the lobby.
pub struct LobbyView {
    pub quick_match_prefs: QuickMatchPreferences,
    pub selected_game: Option<Seq<char>>,
    pub create_challenge_open: bool,
    pub new_challenge: NewChallenge,
}

impl View for LobbyState {
    type V = LobbyView;

    closed spec fn view(&self) -> LobbyView {
        LobbyView {
            quick_match_prefs: self.quick_match_prefs,
            selected_game: match self.selected_game {
                Some(g) => Some(g@),
                None => None,
            },
            create_challenge_open: self.create_challenge_open,
            new_challenge: self.new_challenge,
        }
    }
}

impl LobbyState {
    /// Quick match within three ranks on 9x9 with handicap allowed, no
    /// selection, the challenge form closed and empty.
    pub fn new() -> (l: Self)
        ensures
            l@.quick_match_prefs == (QuickMatchPreferences {
                rank_range: 3,
                time_control: None,
                board_size: 9,
                allow_handicap: true,
            }),
            l@.selected_game is None,
            !l@.create_challenge_open,
            l@.new_challenge == (NewChallenge {
                time_control_type: 0,
                minutes: 0,
                increment: 0,
                days_per_move: 0,
                board_size: 0,
                handicap: 0,
                ranked: false,
            }),
    {
        LobbyState {
            quick_match_prefs: QuickMatchPreferences {
                rank_range: 3,
                time_control: None,
                board_size: 9,
                allow_handicap: true,
            },
            selected_game: None,
            create_challenge_open: false,
            new_challenge: NewChallenge::default(),
        }
    }

    /// The quick match preferences.
    pub fn quick_match_prefs(&self) -> (p: QuickMatchPreferences)
        ensures
            p == self@.quick_match_prefs,
    {
        self.quick_match_prefs
    }

    /// Replace the quick match preferences.
    pub fn set_quick_match_prefs(&mut self, prefs: QuickMatchPreferences)
        ensures
            final(self)@ == (LobbyView { quick_match_prefs: prefs, ..old(self)@ }),
    {
        self.quick_match_prefs = prefs;
    }

    /// Ask for a quick match with the current preferences.
    pub fn quick_match(&self) -> (a: LobbyAction)
        ensures
            a == LobbyAction::QuickMatch(self@.quick_match_prefs),
    {
        LobbyAction::QuickMatch(self.quick_match_prefs)
    }

    /// Select an active game and resume it.
    pub fn select_game(&mut self, game_id: String) -> (a: LobbyAction)
        ensures
            final(self)@ == (LobbyView { selected_game: Some(game_id@), ..old(self)@ }),
            a == LobbyAction::ResumeGame(game_id),
    {
        self.selected_game = Some(game_id.clone());
        LobbyAction::ResumeGame(game_id)
    }

    /// Whether `game_id` is the selected game.
    pub fn is_selected(&self, game_id: &String) -> (r: bool)
        ensures
            r == (self@.selected_game == Some(game_id@)),
    {
        match &self.selected_game {
            Some(g) => *g == *game_id,
            None => false,
        }
    }

    /// Accept an open challenge.
    pub fn accept_challenge(&self, challenge_id: String) -> (a: LobbyAction)
        ensures
            a == LobbyAction::AcceptChallenge(challenge_id),
    {
        LobbyAction::AcceptChallenge(challenge_id)
    }

    /// Open or close the challenge form.
    pub fn toggle_create_challenge(&mut self)
        ensures
            final(self)@ == (LobbyView { create_challenge_open: !old(self)@.create_challenge_open, ..old(self)@ }),
    {
        self.create_challenge_open = !self.create_challenge_open;
    }

    /// Whether the challenge form is open.
    pub fn create_challenge_open(&self) -> (r: bool)
        ensures
            r == self@.create_challenge_open,
    {
        self.create_challenge_open
    }

    /// The fields of the challenge form.
    pub fn new_challenge(&self) -> (nc: NewChallenge)
        ensures
            nc == self@.new_challenge,
    {
        self.new_challenge
    }

    /// Take the edited fields of the challenge form; the board size is
    /// fixed at 9.
    pub fn set_new_challenge(&mut self, nc: NewChallenge)
        ensures
            final(self)@ == (LobbyView {
                new_challenge: NewChallenge { board_size: 9, ..nc },
                ..old(self)@
            }),
    {
        self.new_challenge = NewChallenge { board_size: 9, ..nc };
    }

    /// The time control the challenge form describes.
    pub fn create_time_control(&self) -> (tc: TimeControl)
        ensures
            tc == form_time_control(self@.new_challenge),
            self@.new_challenge.time_control_type < 3 ==> time_control_name(tc)
                == form_choices()[self@.new_challenge.time_control_type as int],
    {
        let nc = &self.new_challenge;
        match nc.time_control_type {
            0 => TimeControl::Blitz { minutes: nc.minutes, increment: nc.increment },
            1 => TimeControl::Rapid { minutes: nc.minutes, increment: nc.increment },
            2 => TimeControl::Correspondence { days_per_move: nc.days_per_move },
            _ => TimeControl::Rapid { minutes: 10, increment: 5 },
        }
    }

    /// Create the challenge the form describes, and close the form.
    pub fn create_challenge(&mut self) -> (a: LobbyAction)
        ensures
            final(self)@ == (LobbyView { create_challenge_open: false, ..old(self)@ }),
            a == (LobbyAction::CreateChallenge {
                time_control: form_time_control(old(self)@.new_challenge),
                board_size: old(self)@.new_challenge.board_size,
                handicap: old(self)@.new_challenge.handicap,
                ranked: old(self)@.new_challenge.ranked,
            }),
    {
        let a = LobbyAction::CreateChallenge {
            time_control: self.create_time_control(),
            board_size: self.new_challenge.board_size,
            handicap: self.new_challenge.handicap,
            ranked: self.new_challenge.ranked,
        };
        self.create_challenge_open = false;
        a
    }
}

} // verus!

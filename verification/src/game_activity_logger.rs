//! Game activity log: the records made of moves, game states and network
//! operations, the name of the log file, and the bounded buffer of recent
//! entries kept in memory.
//!
//! Stamping entries, turning them into JSON lines, writing the log file and
//! the process-wide logger are done by the application.
use crate::offline_game::{count_upto, stone_of, StoneColor};
use crate::text::{decimal, decimal_string};
use vstd::prelude::*;
use vstd::string::StringExecFns;

verus! {

/// A move as the activity log records it.
#[derive(Debug, Clone)]
pub struct MoveData {
    pub move_type: String,
    pub coord: Option<(u8, u8)>,
    pub color: String,
    pub move_number: u32,
    pub thinking_time_ms: Option<u32>,
}

/// A snapshot of a game's state.
#[derive(Debug)]
pub struct GameStateSnapshot {
    pub board_size: u8,
    pub current_player: String,
    pub captures: (u16, u16),
    pub pass_count: u8,
    pub stone_count: (usize, usize),
}

impl Clone for GameStateSnapshot {
    fn clone(&self) -> (s: Self)
        ensures
            s == *self,
    {
        GameStateSnapshot {
            board_size: self.board_size,
            current_player: self.current_player.clone(),
            captures: self.captures,
            pass_count: self.pass_count,
            stone_count: self.stone_count,
        }
    }
}

/// A network operation.
#[derive(Debug, Clone)]
pub struct NetworkOperation {
    pub op_type: String,
    pub peer_id: Option<String>,
    pub relay_id: Option<String>,
    pub latency_ms: Option<u32>,
    pub bytes_sent: Option<u64>,
    pub bytes_received: Option<u64>,
}

/// A move of a game.
#[derive(Debug, Clone, Copy, PartialEq, Eq, Structural)]
pub enum PlayedMove {
    Place { x: u8, y: u8, color: StoneColor },
    Pass,
    Resign,
}

/// The name of a colour in the log.
pub open spec fn color_name(c: StoneColor) -> Seq<char> {
    match c {
        StoneColor::Black => "Black"@,
        StoneColor::White => "White"@,
    }
}

fn color_name_str(c: StoneColor) -> (s: &'static str)
    ensures
        s@ == color_name(c),
{
    proof {
        reveal_strlit("Black");
        reveal_strlit("White");
    }
    match c {
        StoneColor::Black => "Black",
        StoneColor::White => "White",
    }
}

/// What the record of a move says: its kind, where, by whom.
pub open spec fn move_fields(mv: PlayedMove) -> (Seq<char>, Option<(u8, u8)>, Seq<char>) {
    match mv {
        PlayedMove::Place { x, y, color } => ("Place"@, Some((x, y)), color_name(color)),
        PlayedMove::Pass => ("Pass"@, None, "N/A"@),
        PlayedMove::Resign => ("Resign"@, None, "N/A"@),
    }
}

/// The record of move number `move_number`, made after `thinking_time_ms`
/// milliseconds of thought when that is known.
pub fn move_to_data(mv: &PlayedMove, move_number: u32, thinking_time_ms: Option<u32>) -> (d: MoveData)
    ensures
        (d.move_type@, d.coord, d.color@) == move_fields(*mv),
        d.move_number == move_number,
        d.thinking_time_ms == thinking_time_ms,
{
    proof {
        reveal_strlit("Place");
        reveal_strlit("Pass");
        reveal_strlit("Resign");
        reveal_strlit("N/A");
    }
    match mv {
        PlayedMove::Place { x, y, color } => MoveData {
            move_type: String::from_str("Place"),
            coord: Some((*x, *y)),
            color: String::from_str(color_name_str(*color)),
            move_number,
            thinking_time_ms,
        },
        PlayedMove::Pass => MoveData {
            move_type: String::from_str("Pass"),
            coord: None,
            color: String::from_str("N/A"),
            move_number,
            thinking_time_ms,
        },
        PlayedMove::Resign => MoveData {
            move_type: String::from_str("Resign"),
            coord: None,
            color: String::from_str("N/A"),
            move_number,
            thinking_time_ms,
        },
    }
}

/// A snapshot of a game on a `board_size` board laid out in `board`, with
/// the stones of each colour counted.
pub fn snapshot_game_state(
    board_size: u8,
    board: &Vec<Option<StoneColor>>,
    current_player: StoneColor,
    captures: (u16, u16),
    pass_count: u8,
) -> (s: GameStateSnapshot)
    ensures
        s.board_size == board_size,
        s.current_player@ == color_name(current_player),
        s.captures == captures,
        s.pass_count == pass_count,
        s.stone_count.0 == count_upto(board@.len() as int, stone_of(board@, StoneColor::Black)),
        s.stone_count.1 == count_upto(board@.len() as int, stone_of(board@, StoneColor::White)),
{
    let mut black: usize = 0;
    let mut white: usize = 0;
    let mut i: usize = 0;
    while i < board.len()
        invariant
            0 <= i <= board@.len(),
            black <= i,
            white <= i,
            black == count_upto(i as int, stone_of(board@, StoneColor::Black)),
            white == count_upto(i as int, stone_of(board@, StoneColor::White)),
        decreases board@.len() - i,
    {
        match board[i] {
            Some(StoneColor::Black) => {
                black = black + 1;
            },
            Some(StoneColor::White) => {
                white = white + 1;
            },
            None => {},
        }
        i += 1;
    }
    GameStateSnapshot {
        board_size,
        current_player: String::from_str(color_name_str(current_player)),
        captures,
        pass_count,
        stone_count: (black, white),
    }
}

/// The record of a message sent from the interface to the network, named
/// `kind`; such a message is counted as 256 bytes.
pub fn ui_message_op(kind: &str) -> (op: NetworkOperation)
    ensures
        op.op_type@ == "UiToNet::"@ + kind@,
        op.peer_id is None,
        op.relay_id is None,
        op.latency_ms is None,
        op.bytes_sent == Some(256u64),
        op.bytes_received is None,
{
    let mut t = String::from_str("UiToNet::");
    t.append(kind);
    proof {
        reveal_strlit("UiToNet::");
    }
    NetworkOperation {
        op_type: t,
        peer_id: None,
        relay_id: None,
        latency_ms: None,
        bytes_sent: Some(256),
        bytes_received: None,
    }
}

/// The record of a message received from the network, named `kind`; such
/// a message is counted as 512 bytes.
pub fn net_message_op(kind: &str) -> (op: NetworkOperation)
    ensures
        op.op_type@ == "NetToUi::"@ + kind@,
        op.peer_id is None,
        op.relay_id is None,
        op.latency_ms is None,
        op.bytes_sent is None,
        op.bytes_received == Some(512u64),
{
    let mut t = String::from_str("NetToUi::");
    t.append(kind);
    proof {
        reveal_strlit("NetToUi::");
    }
    NetworkOperation {
        op_type: t,
        peer_id: None,
        relay_id: None,
        latency_ms: None,
        bytes_sent: None,
        bytes_received: Some(512),
    }
}

/// The name of the log file started at `stamp`.
pub fn log_file_name(stamp: &str) -> (s: String)
    ensures
        s@ == "game_activity_"@ + stamp@ + ".jsonl"@,
{
    let mut s = String::from_str("game_activity_");
    s.append(stamp);
    s.append(".jsonl");
    proof {
        reveal_strlit("game_activity_");
        reveal_strlit(".jsonl");
    }
    s
}

/// The buffer after recording `e`: when it grows past `max`, the oldest
/// entry leaves.
pub open spec fn buffer_after<E>(entries: Seq<E>, max: nat, e: E) -> Seq<E> {
    if entries.len() + 1 > max {
        entries.push(e).drop_first()
    } else {
        entries.push(e)
    }
}

/// The last `count` entries, or all of them when there are fewer.
pub open spec fn newest<E>(entries: Seq<E>, count: nat) -> Seq<E> {
    if entries.len() > count {
        entries.skip(entries.len() - count)
    } else {
        entries
    }
}

/// The recent entries of the activity log, kept in memory up to a limit,
/// with the path of the log file they are also written to.
pub struct ActivityBuffer<E> {
    entries: Vec<E>,
    max_memory_entries: usize,
    log_file: String,
    console_output: bool,
}

impl<E> ActivityBuffer<E> {
    /// The entries kept, oldest first.
    pub closed spec fn entries(&self) -> Seq<E> {
        self.entries@
    }

    /// How many entries are kept at most.
    pub closed spec fn max_entries(&self) -> nat {
        self.max_memory_entries as nat
    }

    /// The path of the log file.
    pub closed spec fn log_path(&self) -> Seq<char> {
        self.log_file@
    }

    /// Whether entries are echoed to the console.
    pub closed spec fn echoes(&self) -> bool {
        self.console_output
    }

    /// At least one entry is kept, and no more than the limit.
    pub closed spec fn wf(&self) -> bool {
        0 < self.max_memory_entries && self.entries@.len() <= self.max_memory_entries
    }

    /// An empty buffer keeping up to 1000 entries, for the log file at
    /// `log_file`, echoing entries to the console when asked.
    pub fn new(log_file: String, console_output: bool) -> (b: Self)
        ensures
            b.wf(),
            b.entries() == Seq::<E>::empty(),
            b.max_entries() == 1000,
            b.log_path() == log_file@,
            b.echoes() == console_output,
    {
        ActivityBuffer { entries: Vec::new(), max_memory_entries: 1000, log_file, console_output }
    }

    /// The path of the log file.
    pub fn log_file(&self) -> (s: &String)
        ensures
            s@ == self.log_path(),
    {
        &self.log_file
    }

    /// Whether entries are also printed to the console.
    pub fn console_output(&self) -> (r: bool)
        ensures
            r == self.echoes(),
    {
        self.console_output
    }

    /// Keep `e`, dropping the oldest entry when the buffer is full.
    pub fn record(&mut self, e: E)
        requires
            old(self).wf(),
        ensures
            final(self).wf(),
            final(self).entries() == buffer_after(old(self).entries(), old(self).max_entries(), e),
            final(self).max_entries() == old(self).max_entries(),
            final(self).log_path() == old(self).log_path(),
            final(self).echoes() == old(self).echoes(),
    {
        self.entries.push(e);
        if self.entries.len() > self.max_memory_entries {
            self.entries.remove(0);
        }
    }

    /// The newest `count` entries, oldest first.
    pub fn recent(&self, count: usize) -> (r: Vec<&E>)
        ensures
            r@.map_values(|e: &E| *e) == newest(self.entries(), count as nat),
    {
        let start = if self.entries.len() > count {
            self.entries.len() - count
        } else {
            0
        };
        let mut r: Vec<&E> = Vec::new();
        let mut i = start;
        while i < self.entries.len()
            invariant
                start <= i <= self.entries@.len(),
                start == (if self.entries@.len() > count {
                    self.entries@.len() - count
                } else {
                    0
                }),
                r@.map_values(|e: &E| *e) == self.entries@.subrange(start as int, i as int),
            decreases self.entries@.len() - i,
        {
            let ghost before = r@;
            let e = &self.entries[i];
            r.push(e);
            proof {
                assert(*e == self.entries@[i as int]);
                assert(r@ == before.push(e));
                assert(r@.map_values(|e: &E| *e) =~= before.map_values(|e: &E| *e).push(*e));
                assert(r@.map_values(|e: &E| *e) =~= self.entries@.subrange(start as int, i + 1));
            }
            i += 1;
        }
        assert(self.entries@.subrange(start as int, self.entries@.len() as int) =~= newest(
            self.entries(),
            count as nat,
        ));
        r
    }
}

/// Recording entries one at a time leaves the buffer holding the newest of
/// them, at most its limit.
pub proof fn lemma_buffer_keeps_newest<E>(max: nat, es: Seq<E>, start: Seq<E>)
    requires
        max > 0,
        start.len() == 0,
    ensures
        record_all(start, max, es) == newest(es, max),
    decreases es.len(),
{
    if es.len() > 0 {
        lemma_buffer_keeps_newest(max, es.drop_last(), start);
        let prev = newest(es.drop_last(), max);
        if es.len() > max {
            assert(prev.push(es.last()).drop_first() =~= es.skip(es.len() - max));
        } else {
            assert(prev.push(es.last()) =~= es);
        }
    } else {
        assert(newest(es, max) =~= es);
    }
}

/// The buffer after recording each of `es` in turn, starting from `start`.
pub open spec fn record_all<E>(start: Seq<E>, max: nat, es: Seq<E>) -> Seq<E>
    decreases es.len(),
{
    if es.len() == 0 {
        start
    } else {
        buffer_after(record_all(start, max, es.drop_last()), max, es.last())
    }
}

} // verus!

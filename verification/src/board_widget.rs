//! State of the Go board widget: the board size, the move tag chosen from
//! the palette, the ghost stones suggested, and where the star points of
//! each board size lie.
//!
//! Pixel geometry (cell size, mapping clicks to points) and painting are
//! done by the application.
use crate::offline_game::StoneColor;
use vstd::prelude::*;

verus! {

/// Tags a player can attach to a move.
#[derive(Debug, Clone, Copy, PartialEq, Eq, Structural)]
pub enum MoveTag {
    Activity,
    Avoidance,
    Reactivity,
}

/// Keys the board widget reacts to.
#[derive(Debug, Clone, Copy, PartialEq, Eq, Structural)]
pub enum PaletteKey {
    /// `A`: tag moves as activity.
    A,
    /// `B`: tag moves as avoidance.
    B,
    /// `R`: tag moves as reactivity.
    R,
    /// `Escape`: clear the tag.
    Escape,
}

/// The tag selected after `key` is pressed.
pub open spec fn tag_after_key(key: PaletteKey) -> Option<MoveTag> {
    match key {
        PaletteKey::A => Some(MoveTag::Activity),
        PaletteKey::B => Some(MoveTag::Avoidance),
        PaletteKey::R => Some(MoveTag::Reactivity),
        PaletteKey::Escape => None,
    }
}

/// The star points drawn on a board of `size` lines: nine on 19x19, five on
/// 13x13 and on 9x9, none on other sizes.
pub open spec fn star_points_for(size: u8) -> Seq<(u8, u8)> {
    if size == 19 {
        seq![(3, 3), (3, 9), (3, 15), (9, 3), (9, 9), (9, 15), (15, 3), (15, 9), (15, 15)]
    } else if size == 13 {
        seq![(3, 3), (3, 9), (6, 6), (9, 3), (9, 9)]
    } else if size == 9 {
        seq![(2, 2), (2, 6), (4, 4), (6, 2), (6, 6)]
    } else {
        Seq::empty()
    }
}

/// The star points of a board of `size` lines.
pub fn star_points(size: u8) -> (v: Vec<(u8, u8)>)
    ensures
        v@ == star_points_for(size),
{
    let v: Vec<(u8, u8)> = if size == 19 {
        vec![(3, 3), (3, 9), (3, 15), (9, 3), (9, 9), (9, 15), (15, 3), (15, 9), (15, 15)]
    } else if size == 13 {
        vec![(3, 3), (3, 9), (6, 6), (9, 3), (9, 9)]
    } else if size == 9 {
        vec![(2, 2), (2, 6), (4, 4), (6, 2), (6, 6)]
    } else {
        Vec::new()
    };
    assert(v@ =~= star_points_for(size));
    v
}

/// The position of point (`x`, `y`) in a row-major board of `size` lines.
pub fn board_index(x: u8, y: u8, size: u8) -> (i: usize)
    ensures
        i == y as int * size as int + x as int,
{
    assert(y as int * size as int <= 255 * 255) by (nonlinear_arith)
        requires
            y <= 255,
            size <= 255,
    ;
    y as usize * size as usize + x as usize
}

/// Widget state for rendering and interacting with a Go board.
pub struct BoardWidget {
    board_size: u8,
    tag_palette: Option<MoveTag>,
    ghost_stones: Vec<(u8, u8)>,
}

impl BoardWidget {
    /// A widget for a board of `board_size` lines, no tag, no ghost stones.
    pub fn new(board_size: u8) -> (w: Self)
        ensures
            w.board_size() == board_size,
            w.tag_palette() is None,
            w.ghost_stones() == Seq::<(u8, u8)>::empty(),
    {
        let w = BoardWidget { board_size, tag_palette: None, ghost_stones: Vec::new() };
        assert(w.ghost_stones() =~= Seq::<(u8, u8)>::empty());
        w
    }

    /// The number of lines of the board.
    pub closed spec fn board_size(&self) -> u8 {
        self.board_size
    }

    /// The tag chosen from the palette.
    pub closed spec fn tag_palette(&self) -> Option<MoveTag> {
        self.tag_palette
    }

    /// The suggested points shown as ghost stones.
    pub closed spec fn ghost_stones(&self) -> Seq<(u8, u8)> {
        self.ghost_stones@
    }

    /// The number of lines of the board.
    pub fn get_board_size(&self) -> (n: u8)
        ensures
            n == self.board_size(),
    {
        self.board_size
    }

    /// React to a palette key.
    pub fn press_key(&mut self, key: PaletteKey)
        ensures
            final(self).tag_palette() == tag_after_key(key),
            final(self).board_size() == old(self).board_size(),
            final(self).ghost_stones() == old(self).ghost_stones(),
    {
        self.tag_palette = match key {
            PaletteKey::A => Some(MoveTag::Activity),
            PaletteKey::B => Some(MoveTag::Avoidance),
            PaletteKey::R => Some(MoveTag::Reactivity),
            PaletteKey::Escape => None,
        };
    }

    /// Show `stones` as ghost stones.
    pub fn set_ghost_stones(&mut self, stones: Vec<(u8, u8)>)
        ensures
            final(self).ghost_stones() == stones@,
            final(self).board_size() == old(self).board_size(),
            final(self).tag_palette() == old(self).tag_palette(),
    {
        self.ghost_stones = stones;
    }

    /// Remove all ghost stones.
    pub fn clear_ghost_stones(&mut self)
        ensures
            final(self).ghost_stones() == Seq::<(u8, u8)>::empty(),
            final(self).board_size() == old(self).board_size(),
            final(self).tag_palette() == old(self).tag_palette(),
    {
        self.ghost_stones.clear();
    }

    /// The ghost stones shown.
    pub fn ghost_stone_points(&self) -> (v: &Vec<(u8, u8)>)
        ensures
            v@ == self.ghost_stones(),
    {
        &self.ghost_stones
    }

    /// Choose a tag from the palette, or none.
    pub fn set_tag_palette(&mut self, tag: Option<MoveTag>)
        ensures
            final(self).tag_palette() == tag,
            final(self).board_size() == old(self).board_size(),
            final(self).ghost_stones() == old(self).ghost_stones(),
    {
        self.tag_palette = tag;
    }

    /// The tag chosen from the palette.
    pub fn get_tag_palette(&self) -> (t: Option<MoveTag>)
        ensures
            t == self.tag_palette(),
    {
        self.tag_palette
    }

    /// A shift-click opens the palette with activity chosen.
    pub fn handle_shift_click(&mut self, x: u8, y: u8)
        ensures
            final(self).tag_palette() == Some(MoveTag::Activity),
            final(self).board_size() == old(self).board_size(),
            final(self).ghost_stones() == old(self).ghost_stones(),
    {
        self.tag_palette = Some(MoveTag::Activity);
    }

    /// Whether (`x`, `y`) is a point of the board.
    pub fn on_board(&self, x: u8, y: u8) -> (r: bool)
        ensures
            r == (x < self.board_size() && y < self.board_size()),
    {
        x < self.board_size && y < self.board_size
    }
}

/// A point can be played when it lies on a board of `size` lines and
/// holds no stone in `board`, a row-major board of `game_size` lines
/// (positions past its end count as empty).
pub open spec fn playable(size: u8, x: u8, y: u8, board: Seq<Option<StoneColor>>, game_size: u8) -> bool {
    let i = y as int * game_size as int + x as int;
    x < size && y < size && !(0 <= i < board.len() && board[i] is Some)
}

/// Client-side check of a move before it is sent: on the board and on an
/// empty point.
pub fn is_valid_move(size: u8, x: u8, y: u8, board: &Vec<Option<StoneColor>>, game_size: u8) -> (r: bool)
    ensures
        r == playable(size, x, y, board@, game_size),
{
    if x >= size || y >= size {
        return false;
    }
    let i = board_index(x, y, game_size);
    if i < board.len() {
        board[i].is_none()
    } else {
        true
    }
}

/// Board interaction state: the point under the pointer.
pub struct BoardInteraction {
    board_size: u8,
    hover_pos: Option<(u8, u8)>,
}

impl BoardInteraction {
    /// Nothing hovered on a board of `board_size` lines.
    pub fn new(board_size: u8) -> (b: Self)
        ensures
            b.size() == board_size,
            b.hovered() is None,
    {
        BoardInteraction { board_size, hover_pos: None }
    }

    /// The number of lines of the board.
    pub closed spec fn size(&self) -> u8 {
        self.board_size
    }

    /// The point under the pointer.
    pub closed spec fn hovered(&self) -> Option<(u8, u8)> {
        self.hover_pos
    }

    /// Record the point under the pointer, if any.
    pub fn set_hover_pos(&mut self, pos: Option<(u8, u8)>)
        ensures
            final(self).hovered() == pos,
            final(self).size() == old(self).size(),
    {
        self.hover_pos = pos;
    }

    /// The point under the pointer.
    pub fn get_hover_pos(&self) -> (p: Option<(u8, u8)>)
        ensures
            p == self.hovered(),
    {
        self.hover_pos
    }

    /// Whether a click at (`x`, `y`) is a move to send.
    pub fn is_valid_move(&self, x: u8, y: u8, board: &Vec<Option<StoneColor>>, game_size: u8) -> (r: bool)
        ensures
            r == playable(self.size(), x, y, board@, game_size),
    {
        is_valid_move(self.board_size, x, y, board, game_size)
    }
}

} // verus!

//! Three-player Go on three intersecting 9x9 planes of a 9x9x9 cube.
//!
//! The playable points lie on the plane z = 4 (XY), the plane y = 4 (XZ)
//! and the plane x = 4 (YZ); there are 243 of them.
use crate::random::random_below;
use std::collections::HashMap;
use vstd::prelude::*;

verus! {

broadcast use vstd::std_specs::hash::group_hash_axioms;

/// Player colour in 3D Go (Black, White or Red).
#[derive(Debug, Clone, Copy, PartialEq, Eq, Hash, Structural)]
pub enum Color3D {
    Black,
    White,
    Red,
}

/// The player who moves after `c`.
pub open spec fn next_color(c: Color3D) -> Color3D {
    match c {
        Color3D::Black => Color3D::White,
        Color3D::White => Color3D::Red,
        Color3D::Red => Color3D::Black,
    }
}

impl Color3D {
    /// The next player in turn order: Black, White, Red, Black, ...
    pub fn next(&self) -> (r: Self)
        ensures
            r == next_color(*self),
    {
        match self {
            Color3D::Black => Color3D::White,
            Color3D::White => Color3D::Red,
            Color3D::Red => Color3D::Black,
        }
    }
}

/// Three turns bring the move back to the same player.
pub proof fn lemma_turn_order_has_period_three(c: Color3D)
    ensures
        next_color(next_color(next_color(c))) == c,
        next_color(c) != c,
        next_color(next_color(c)) != c,
{
}

/// A point of the cube; only the points on the three planes are playable.
#[derive(Debug, Clone, Copy, PartialEq, Eq, Hash, Structural)]
pub struct Coord3D {
    pub x: u8,
    pub y: u8,
    pub z: u8,
}

/// `c` lies on one of the three playable planes.
pub open spec fn on_planes(c: Coord3D) -> bool {
    ||| c.z == 4 && c.x < 9 && c.y < 9
    ||| c.y == 4 && c.x < 9 && c.z < 9
    ||| c.x == 4 && c.y < 9 && c.z < 9
}

/// `v - 1` in 8-bit wrapping arithmetic.
pub open spec fn dec_wrapping(v: u8) -> u8 {
    if v == 0 {
        255
    } else {
        (v - 1) as u8
    }
}

/// The six axis neighbours of `c`, in the order -x, +x, -y, +y, -z, +z.
pub open spec fn neighbour_candidates(c: Coord3D) -> Seq<Coord3D>
    recommends
        c.x < 255 && c.y < 255 && c.z < 255,
{
    seq![
        Coord3D { x: dec_wrapping(c.x), y: c.y, z: c.z },
        Coord3D { x: (c.x + 1) as u8, y: c.y, z: c.z },
        Coord3D { x: c.x, y: dec_wrapping(c.y), z: c.z },
        Coord3D { x: c.x, y: (c.y + 1) as u8, z: c.z },
        Coord3D { x: c.x, y: c.y, z: dec_wrapping(c.z) },
        Coord3D { x: c.x, y: c.y, z: (c.z + 1) as u8 },
    ]
}

/// The playable neighbours of `c`, in candidate order.
pub open spec fn playable_neighbours(c: Coord3D) -> Seq<Coord3D> {
    neighbour_candidates(c).filter(|d: Coord3D| on_planes(d))
}

impl Coord3D {
    pub fn new(x: u8, y: u8, z: u8) -> (r: Self)
        ensures
            r == (Coord3D { x, y, z }),
    {
        Coord3D { x, y, z }
    }

    /// Whether this point is on one of the three planes.
    pub fn is_valid(&self) -> (r: bool)
        ensures
            r == on_planes(*self),
    {
        let on_xy = self.z == 4 && self.x < 9 && self.y < 9;
        let on_xz = self.y == 4 && self.x < 9 && self.z < 9;
        let on_yz = self.x == 4 && self.y < 9 && self.z < 9;
        on_xy || on_xz || on_yz
    }

    /// The neighbours of this point that lie on the planes.
    pub fn adjacent(&self) -> (adj: Vec<Coord3D>)
        requires
            self.x < 255,
            self.y < 255,
            self.z < 255,
        ensures
            adj@ == playable_neighbours(*self),
    {
        let mut adj: Vec<Coord3D> = Vec::new();
        let candidates = [
            Coord3D::new(self.x.wrapping_sub(1), self.y, self.z),
            Coord3D::new(self.x + 1, self.y, self.z),
            Coord3D::new(self.x, self.y.wrapping_sub(1), self.z),
            Coord3D::new(self.x, self.y + 1, self.z),
            Coord3D::new(self.x, self.y, self.z.wrapping_sub(1)),
            Coord3D::new(self.x, self.y, self.z + 1),
        ];
        let ghost cands = neighbour_candidates(*self);
        assert(candidates@ =~= cands);
        let ghost pred = |d: Coord3D| on_planes(d);
        let mut i: usize = 0;
        while i < 6
            invariant
                0 <= i <= 6,
                candidates@ == cands,
                cands.len() == 6,
                pred == (|d: Coord3D| on_planes(d)),
                adj@ == cands.take(i as int).filter(pred),
            decreases 6 - i,
        {
            let coord = candidates[i];
            let ghost next = cands.take(i as int + 1);
            proof {
                assert(next.drop_last() =~= cands.take(i as int));
                assert(next.last() == coord);
                assert(pred(coord) == on_planes(coord));
                reveal_with_fuel(Seq::filter, 1);
                assert(next.filter(pred) == if pred(coord) {
                    cands.take(i as int).filter(pred).push(coord)
                } else {
                    cands.take(i as int).filter(pred)
                });
            }
            if coord.is_valid() {
                adj.push(coord);
            }
            assert(adj@ == next.filter(pred));
            i += 1;
        }
        assert(cands.take(6) =~= cands);
        adj
    }
}

/// Which plane the main board view shows.
#[derive(Debug, Clone, Copy, PartialEq, Eq, Structural)]
pub enum ViewPlane {
    /// The XY plane at z = 4.
    XY,
    /// The XZ plane at y = 4.
    XZ,
    /// The YZ plane at x = 4.
    YZ,
}

/// The map key under which the stone at `c` is stored.
pub open spec fn coord_key(c: Coord3D) -> u32 {
    (c.x as int * 65536 + c.y as int * 256 + c.z as int) as u32
}

/// Distinct points have distinct keys.
pub proof fn lemma_coord_key_injective(a: Coord3D, b: Coord3D)
    ensures
        coord_key(a) == coord_key(b) ==> a == b,
{
    assert(0 <= a.x as int * 65536 + a.y as int * 256 + a.z as int <= 16777215);
    assert(0 <= b.x as int * 65536 + b.y as int * 256 + b.z as int <= 16777215);
}

/// Whether `c` is shown in the 2D view of plane `v`.
pub open spec fn in_view(v: ViewPlane, c: Coord3D) -> bool {
    match v {
        ViewPlane::XY => c.z == 4,
        ViewPlane::XZ => c.y == 4,
        ViewPlane::YZ => c.x == 4,
    }
}

/// The 2D position of `c` in the view of plane `v`.
pub open spec fn project(v: ViewPlane, c: Coord3D) -> (u8, u8) {
    match v {
        ViewPlane::XY => (c.x, c.y),
        ViewPlane::XZ => (c.x, c.z),
        ViewPlane::YZ => (c.y, c.z),
    }
}

/// The point of plane `v` shown at 2D position (`x`, `y`).
pub open spec fn unproject(v: ViewPlane, x: u8, y: u8) -> Coord3D {
    match v {
        ViewPlane::XY => Coord3D { x: x, y: y, z: 4 },
        ViewPlane::XZ => Coord3D { x: x, y: 4, z: y },
        ViewPlane::YZ => Coord3D { x: 4, y: x, z: y },
    }
}

/// The position a view shows a point at is where a click selects that point
/// again, and every clicked board position selects a playable point in view.
pub proof fn lemma_view_roundtrip(v: ViewPlane, c: Coord3D, x: u8, y: u8)
    ensures
        in_view(v, c) ==> unproject(v, project(v, c).0, project(v, c).1) == c,
        project(v, unproject(v, x, y)) == (x, y),
        in_view(v, unproject(v, x, y)),
        x < 9 && y < 9 ==> on_planes(unproject(v, x, y)),
{
}

/// 3D Go game state.
pub struct Go3DGame {
    /// Stones, keyed by `coord_key`.
    board: HashMap<u32, Color3D>,
    current_player: Color3D,
    current_view: ViewPlane,
    highlighted: Option<Coord3D>,
    last_move: Option<Coord3D>,
    move_count: u32,
}

/// Abstract state of a 3D game.
pub struct Go3DState {
    pub stones: Map<Coord3D, Color3D>,
    pub current_player: Color3D,
    pub current_view: ViewPlane,
    pub highlighted: Option<Coord3D>,
    pub last_move: Option<Coord3D>,
    pub move_count: nat,
}

impl View for Go3DGame {
    type V = Go3DState;

    closed spec fn view(&self) -> Go3DState {
        Go3DState {
            stones: Map::new(
                |c: Coord3D| self.board@.contains_key(coord_key(c)),
                |c: Coord3D| self.board@[coord_key(c)],
            ),
            current_player: self.current_player,
            current_view: self.current_view,
            highlighted: self.highlighted,
            last_move: self.last_move,
            move_count: self.move_count as nat,
        }
    }
}

impl Go3DGame {
    /// Every stored key is the key of some point.
    pub closed spec fn wf(&self) -> bool {
        forall|k: u32| #[trigger] self.board@.contains_key(k) ==> k < 16777216
    }

    proof fn lemma_insert_view(&self, new_board: HashMap<u32, Color3D>, c: Coord3D, col: Color3D)
        requires
            new_board@ == self.board@.insert(coord_key(c), col),
        ensures
            Map::new(
                |d: Coord3D| new_board@.contains_key(coord_key(d)),
                |d: Coord3D| new_board@[coord_key(d)],
            ) =~= self@.stones.insert(c, col),
    {
        assert forall|d: Coord3D| #![auto] coord_key(d) == coord_key(c) implies d == c by {
            lemma_coord_key_injective(d, c);
        }
    }

    proof fn lemma_remove_view(&self, new_board: HashMap<u32, Color3D>, c: Coord3D)
        requires
            new_board@ == self.board@.remove(coord_key(c)),
        ensures
            Map::new(
                |d: Coord3D| new_board@.contains_key(coord_key(d)),
                |d: Coord3D| new_board@[coord_key(d)],
            ) =~= self@.stones.remove(c),
    {
        assert forall|d: Coord3D| #![auto] coord_key(d) == coord_key(c) implies d == c by {
            lemma_coord_key_injective(d, c);
        }
    }

    /// A new game: empty board, Black to move, viewing the XY plane.
    pub fn new() -> (g: Self)
        ensures
            g.wf(),
            g@.stones == Map::<Coord3D, Color3D>::empty(),
            g@.current_player == Color3D::Black,
            g@.current_view == ViewPlane::XY,
            g@.highlighted is None,
            g@.last_move is None,
            g@.move_count == 0,
    {
        let g = Go3DGame {
            board: HashMap::new(),
            current_player: Color3D::Black,
            current_view: ViewPlane::XY,
            highlighted: None,
            last_move: None,
            move_count: 0,
        };
        assert(g@.stones =~= Map::<Coord3D, Color3D>::empty());
        g
    }

    /// Place a stone of the current player at `coord`.
    ///
    /// Fails when `coord` is off the planes or already occupied, and then
    /// leaves the game unchanged.
    pub fn place_stone(&mut self, coord: Coord3D) -> (r: Result<(), &'static str>)
        requires
            old(self).wf(),
            old(self)@.move_count < u32::MAX,
        ensures
            final(self).wf(),
            !on_planes(coord) ==> r is Err && r->Err_0@ == "Position not on any plane"@
                && final(self)@ == old(self)@,
            on_planes(coord) && old(self)@.stones.contains_key(coord) ==> r is Err
                && r->Err_0@ == "Position already occupied"@ && final(self)@ == old(self)@,
            on_planes(coord) && !old(self)@.stones.contains_key(coord) ==> r is Ok
                && final(self)@ == (Go3DState {
                    stones: old(self)@.stones.insert(coord, old(self)@.current_player),
                    current_player: next_color(old(self)@.current_player),
                    last_move: Some(coord),
                    move_count: old(self)@.move_count + 1,
                    ..old(self)@
                }),
    {
        if !coord.is_valid() {
            return Err("Position not on any plane");
        }
        let key = Self::key_of(coord);
        if self.board.contains_key(&key) {
            return Err("Position already occupied");
        }
        let ghost before = *self;
        self.board.insert(key, self.current_player);
        proof {
            before.lemma_insert_view(self.board, coord, before.current_player);
        }
        self.last_move = Some(coord);
        self.move_count = self.move_count + 1;
        self.current_player = self.current_player.next();
        Ok(())
    }

    fn key_of(coord: Coord3D) -> (k: u32)
        ensures
            k == coord_key(coord),
            k < 16777216,
    {
        coord.x as u32 * 65536 + coord.y as u32 * 256 + coord.z as u32
    }

    /// Cycle the stone at `coord` (for testing): Black becomes White, White
    /// becomes Red, Red is removed; an empty point gets a stone of the
    /// current player, who then passes the turn.
    pub fn toggle_stone(&mut self, coord: Coord3D)
        requires
            old(self).wf(),
        ensures
            final(self).wf(),
            final(self)@ == (match old(self)@.stones.get(coord) {
                Some(Color3D::Black) => Go3DState {
                    stones: old(self)@.stones.insert(coord, Color3D::White),
                    ..old(self)@
                },
                Some(Color3D::White) => Go3DState {
                    stones: old(self)@.stones.insert(coord, Color3D::Red),
                    ..old(self)@
                },
                Some(Color3D::Red) => Go3DState {
                    stones: old(self)@.stones.remove(coord),
                    ..old(self)@
                },
                None => Go3DState {
                    stones: old(self)@.stones.insert(coord, old(self)@.current_player),
                    current_player: next_color(old(self)@.current_player),
                    ..old(self)@
                },
            }),
    {
        let key = Self::key_of(coord);
        let ghost before = *self;
        let existing = match self.board.get(&key) {
            Some(c) => Some(*c),
            None => None,
        };
        match existing {
            Some(color) => {
                let next_color = match color {
                    Color3D::Black => Color3D::White,
                    Color3D::White => Color3D::Red,
                    Color3D::Red => {
                        self.board.remove(&key);
                        proof {
                            before.lemma_remove_view(self.board, coord);
                        }
                        return;
                    },
                };
                self.board.insert(key, next_color);
                proof {
                    before.lemma_insert_view(self.board, coord, next_color);
                }
            },
            None => {
                self.board.insert(key, self.current_player);
                proof {
                    before.lemma_insert_view(self.board, coord, before.current_player);
                }
                self.current_player = self.current_player.next();
            },
        }
    }

    /// Whether `coord` is shown in the current view.
    pub fn coord_in_view(&self, coord: &Coord3D) -> (r: bool)
        ensures
            r == in_view(self@.current_view, *coord),
    {
        match self.current_view {
            ViewPlane::XY => coord.z == 4,
            ViewPlane::XZ => coord.y == 4,
            ViewPlane::YZ => coord.x == 4,
        }
    }

    /// The 2D position of `coord` in the current view.
    pub fn project_to_2d(&self, coord: &Coord3D) -> (r: (u8, u8))
        ensures
            r == project(self@.current_view, *coord),
    {
        match self.current_view {
            ViewPlane::XY => (coord.x, coord.y),
            ViewPlane::XZ => (coord.x, coord.z),
            ViewPlane::YZ => (coord.y, coord.z),
        }
    }

    /// The point of the current plane shown at 2D position (`x`, `y`).
    pub fn unproject_from_2d(&self, x: u8, y: u8) -> (r: Coord3D)
        ensures
            r == unproject(self@.current_view, x, y),
    {
        match self.current_view {
            ViewPlane::XY => Coord3D::new(x, y, 4),
            ViewPlane::XZ => Coord3D::new(x, 4, y),
            ViewPlane::YZ => Coord3D::new(4, x, y),
        }
    }

    /// Remove every stone and start again with Black; the view is kept.
    pub fn clear_board(&mut self)
        ensures
            final(self).wf(),
            final(self)@ == (Go3DState {
                stones: Map::empty(),
                current_player: Color3D::Black,
                last_move: None,
                move_count: 0,
                ..old(self)@
            }),
    {
        self.board.clear();
        self.current_player = Color3D::Black;
        self.move_count = 0;
        self.last_move = None;
        assert(self@.stones =~= Map::<Coord3D, Color3D>::empty());
    }

    /// Show plane `view` in the main board view.
    pub fn set_view(&mut self, view: ViewPlane)
        ensures
            final(self).wf() == old(self).wf(),
            final(self)@ == (Go3DState { current_view: view, ..old(self)@ }),
    {
        self.current_view = view;
    }

    /// Put a stone of `color` at `coord` unless the point is taken.
    fn put_if_empty(&mut self, coord: Coord3D, color: Color3D)
        requires
            old(self).wf(),
        ensures
            final(self).wf(),
            final(self)@ == (Go3DState {
                stones: if old(self)@.stones.contains_key(coord) {
                    old(self)@.stones
                } else {
                    old(self)@.stones.insert(coord, color)
                },
                ..old(self)@
            }),
    {
        let key = Self::key_of(coord);
        if !self.board.contains_key(&key) {
            let ghost before = *self;
            self.board.insert(key, color);
            proof {
                before.lemma_insert_view(self.board, coord, color);
            }
        }
        assert(self@.stones =~= (if old(self)@.stones.contains_key(coord) {
            old(self)@.stones
        } else {
            old(self)@.stones.insert(coord, color)
        }));
    }

    /// Scatter test stones: ten rounds, each drawing a random point of the XY
    /// plane for Black, of the XZ plane for White and of the YZ plane for Red,
    /// and placing the stone when the point is empty.
    pub fn add_random_stones(&mut self)
        requires
            old(self).wf(),
        ensures
            final(self).wf(),
            random_scatter_result(old(self)@, final(self)@),
            exists|draws: Seq<ScatterDraws>|
                {
                    &&& draws.len() == 10
                    &&& scatter_draws_in_range(draws)
                    &&& final(self)@ == (Go3DState {
                        stones: #[trigger] scatter_stones(old(self)@.stones, draws),
                        ..old(self)@
                    })
                },
    {
        let mut round: usize = 0;
        let ghost mut draws: Seq<ScatterDraws> = Seq::empty();
        while round < 10
            invariant
                self.wf(),
                0 <= round <= 10,
                random_scatter_result(old(self)@, self@),
                draws.len() == round,
                scatter_draws_in_range(draws),
                self@ == (Go3DState { stones: scatter_stones(old(self)@.stones, draws), ..old(self)@ }),
            decreases 10 - round,
        {
            let x1 = random_below(9);
            let y1 = random_below(9);
            self.put_if_empty(Coord3D::new(x1, y1, 4), Color3D::Black);
            let x2 = random_below(9);
            let z2 = random_below(9);
            self.put_if_empty(Coord3D::new(x2, 4, z2), Color3D::White);
            let y3 = random_below(9);
            let z3 = random_below(9);
            self.put_if_empty(Coord3D::new(4, y3, z3), Color3D::Red);
            proof {
                let d: ScatterDraws = (x1, y1, x2, z2, y3, z3);
                let prev = draws;
                draws = draws.push(d);
                assert(draws.drop_last() =~= prev);
                assert(draws.last() == d);
                assert forall|k: int| 0 <= k < draws.len() implies {
                    let e = #[trigger] draws[k];
                    e.0 < 9 && e.1 < 9 && e.2 < 9 && e.3 < 9 && e.4 < 9 && e.5 < 9
                } by {
                    if k < prev.len() {
                        assert(draws[k] == prev[k]);
                    }
                }
            }
            round += 1;
        }
        assert(self@.stones == scatter_stones(old(self)@.stones, draws));
    }

    /// The player to move.
    pub fn current_player(&self) -> (r: Color3D)
        ensures
            r == self@.current_player,
    {
        self.current_player
    }

    /// The plane shown in the main view.
    pub fn current_view(&self) -> (r: ViewPlane)
        ensures
            r == self@.current_view,
    {
        self.current_view
    }

    /// The number of stones placed with `place_stone` since the last clear.
    pub fn move_count(&self) -> (r: u32)
        ensures
            r == self@.move_count,
    {
        self.move_count
    }

    /// The point of the last stone placed with `place_stone`.
    pub fn last_move(&self) -> (r: Option<Coord3D>)
        ensures
            r == self@.last_move,
    {
        self.last_move
    }

    /// The stone at `coord`, if any.
    pub fn stone_at(&self, coord: Coord3D) -> (r: Option<Color3D>)
        ensures
            r == self@.stones.get(coord),
    {
        let key = Self::key_of(coord);
        match self.board.get(&key) {
            Some(c) => Some(*c),
            None => None,
        }
    }
}

/// `stones` with a stone of `color` put at `c` unless the point is taken.
pub open spec fn put_if_empty_spec(stones: Map<Coord3D, Color3D>, c: Coord3D, color: Color3D) -> Map<
    Coord3D,
    Color3D,
> {
    if stones.contains_key(c) {
        stones
    } else {
        stones.insert(c, color)
    }
}

/// The draws of one scatter round: (x, y) of a Black point on the XY plane,
/// (x, z) of a White point on the XZ plane and (y, z) of a Red point on the
/// YZ plane.
pub type ScatterDraws = (u8, u8, u8, u8, u8, u8);

/// Every draw is a coordinate below 9.
pub open spec fn scatter_draws_in_range(draws: Seq<ScatterDraws>) -> bool {
    forall|k: int|
        0 <= k < draws.len() ==> {
            let d = #[trigger] draws[k];
            d.0 < 9 && d.1 < 9 && d.2 < 9 && d.3 < 9 && d.4 < 9 && d.5 < 9
        }
}

/// One scatter round with the draws `d`, in order Black, White, Red.
pub open spec fn scatter_round(stones: Map<Coord3D, Color3D>, d: ScatterDraws) -> Map<
    Coord3D,
    Color3D,
> {
    let s1 = put_if_empty_spec(stones, Coord3D { x: d.0, y: d.1, z: 4 }, Color3D::Black);
    let s2 = put_if_empty_spec(s1, Coord3D { x: d.2, y: 4, z: d.3 }, Color3D::White);
    put_if_empty_spec(s2, Coord3D { x: 4, y: d.4, z: d.5 }, Color3D::Red)
}

/// The stones after scatter rounds with the draws `draws`, in order.
pub open spec fn scatter_stones(stones: Map<Coord3D, Color3D>, draws: Seq<ScatterDraws>) -> Map<
    Coord3D,
    Color3D,
>
    decreases draws.len(),
{
    if draws.len() == 0 {
        stones
    } else {
        scatter_round(scatter_stones(stones, draws.drop_last()), draws.last())
    }
}

/// What a random scatter may do to a game: stones already present stay, each
/// new stone lies on the plane of its colour, and nothing else changes.
pub open spec fn random_scatter_result(before: Go3DState, after: Go3DState) -> bool {
    &&& forall|c: Coord3D| #[trigger]
        before.stones.contains_key(c) ==> after.stones.contains_key(c) && after.stones[c]
            == before.stones[c]
    &&& forall|c: Coord3D| #[trigger]
        after.stones.contains_key(c) && !before.stones.contains_key(c) ==> on_planes(c) && match
            after.stones[c] {
            Color3D::Black => c.z == 4,
            Color3D::White => c.y == 4,
            Color3D::Red => c.x == 4,
        }
    &&& after.current_player == before.current_player
    &&& after.current_view == before.current_view
    &&& after.highlighted == before.highlighted
    &&& after.last_move == before.last_move
    &&& after.move_count == before.move_count
}

} // verus!

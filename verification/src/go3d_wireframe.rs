//! Board state of the wireframe rendering of 3D Go: three 9x9 planes through
//! the origin, with coordinates from -4 to 4 on each axis.
//!
//! The camera (rotation angles, scale, drag state) is floating point and is
//! kept by the renderer; this module holds the stones and the turn.
use crate::random::random_below;
use std::collections::HashMap;
use vstd::prelude::*;

verus! {

broadcast use vstd::std_specs::hash::group_hash_axioms;

/// Player colour in 3D Go.
#[derive(Debug, Clone, Copy, PartialEq, Eq, Hash, Structural)]
pub enum Color3D {
    Black,
    White,
    Red,
}

/// The player who moves after `c`.
pub open spec fn next_color(c: Color3D) -> Color3D {
    match c {
        Color3D::Black => Color3D::White,
        Color3D::White => Color3D::Red,
        Color3D::Red => Color3D::Black,
    }
}

impl Color3D {
    /// The next player in turn order: Black, White, Red, Black, ...
    pub fn next(&self) -> (r: Self)
        ensures
            r == next_color(*self),
    {
        match self {
            Color3D::Black => Color3D::White,
            Color3D::White => Color3D::Red,
            Color3D::Red => Color3D::Black,
        }
    }
}

/// A point of space with integer coordinates.
#[derive(Debug, Clone, Copy, PartialEq, Eq, Hash, Structural)]
pub struct Coord3D {
    pub x: i8,
    pub y: i8,
    pub z: i8,
}

/// `c` lies on the plane z = 0, y = 0 or x = 0 within the 9x9 square.
pub open spec fn on_planes(c: Coord3D) -> bool {
    ||| c.z == 0 && -4 <= c.x <= 4 && -4 <= c.y <= 4
    ||| c.y == 0 && -4 <= c.x <= 4 && -4 <= c.z <= 4
    ||| c.x == 0 && -4 <= c.y <= 4 && -4 <= c.z <= 4
}

impl Coord3D {
    pub fn new(x: i8, y: i8, z: i8) -> (r: Self)
        ensures
            r == (Coord3D { x, y, z }),
    {
        Coord3D { x, y, z }
    }

    /// Whether this point is on one of the three planes.
    pub fn is_valid(&self) -> (r: bool)
        ensures
            r == on_planes(*self),
    {
        let on_xy = self.z == 0 && self.x >= -4 && self.x <= 4 && self.y >= -4 && self.y <= 4;
        let on_xz = self.y == 0 && self.x >= -4 && self.x <= 4 && self.z >= -4 && self.z <= 4;
        let on_yz = self.x == 0 && self.y >= -4 && self.y <= 4 && self.z >= -4 && self.z <= 4;
        on_xy || on_xz || on_yz
    }
}

/// The map key under which the stone at `c` is stored.
pub open spec fn coord_key(c: Coord3D) -> u32 {
    ((c.x + 128) * 65536 + (c.y + 128) * 256 + (c.z + 128)) as u32
}

/// Distinct points have distinct keys.
pub proof fn lemma_coord_key_injective(a: Coord3D, b: Coord3D)
    ensures
        coord_key(a) == coord_key(b) ==> a == b,
{
    assert(0 <= (a.x + 128) * 65536 + (a.y + 128) * 256 + (a.z + 128) <= 16777215);
    assert(0 <= (b.x + 128) * 65536 + (b.y + 128) * 256 + (b.z + 128) <= 16777215);
}

/// Stones and turn of a wireframe game.
pub struct Go3DWireframe {
    /// Stones, keyed by `coord_key`.
    stones: HashMap<u32, Color3D>,
    current_player: Color3D,
    /// Point picked for placement, if any.
    selected_pos: Option<Coord3D>,
}

/// Abstract state of a wireframe game.
pub struct WireframeState {
    pub stones: Map<Coord3D, Color3D>,
    pub current_player: Color3D,
    pub selected_pos: Option<Coord3D>,
}

impl View for Go3DWireframe {
    type V = WireframeState;

    closed spec fn view(&self) -> WireframeState {
        WireframeState {
            stones: Map::new(
                |c: Coord3D| self.stones@.contains_key(coord_key(c)),
                |c: Coord3D| self.stones@[coord_key(c)],
            ),
            current_player: self.current_player,
            selected_pos: self.selected_pos,
        }
    }
}

/// The draws of one scatter round: a plane (below 3: XY, XZ, YZ), two
/// offsets (below 9, shifted by -4 to coordinates) and a colour pick (below
/// 3: Black, White, Red), the last drawn only when the point is empty.
pub type ScatterDraws = (u8, u8, u8, u8);

/// Every draw is within its range.
pub open spec fn scatter_draws_in_range(draws: Seq<ScatterDraws>) -> bool {
    forall|k: int|
        0 <= k < draws.len() ==> {
            let d = #[trigger] draws[k];
            d.0 < 3 && d.1 < 9 && d.2 < 9 && d.3 < 3
        }
}

/// The point that the draws `d` select.
pub open spec fn scatter_point(d: ScatterDraws) -> Coord3D {
    let i = (d.1 - 4) as i8;
    let j = (d.2 - 4) as i8;
    if d.0 == 0 {
        Coord3D { x: i, y: j, z: 0 }
    } else if d.0 == 1 {
        Coord3D { x: i, y: 0, z: j }
    } else {
        Coord3D { x: 0, y: i, z: j }
    }
}

/// The colour that the pick `p` selects.
pub open spec fn scatter_color(p: u8) -> Color3D {
    if p == 0 {
        Color3D::Black
    } else if p == 1 {
        Color3D::White
    } else {
        Color3D::Red
    }
}

/// The stones after scatter rounds with the draws `draws`, in order: each
/// round puts a stone of the picked colour on the selected point if it is
/// empty.
pub open spec fn scatter_stones(stones: Map<Coord3D, Color3D>, draws: Seq<ScatterDraws>) -> Map<
    Coord3D,
    Color3D,
>
    decreases draws.len(),
{
    if draws.len() == 0 {
        stones
    } else {
        let s = scatter_stones(stones, draws.drop_last());
        let d = draws.last();
        if s.contains_key(scatter_point(d)) {
            s
        } else {
            s.insert(scatter_point(d), scatter_color(d.3))
        }
    }
}

/// What a random scatter may do: stones already present stay, each new stone
/// lies on the planes, and the turn does not change.
pub open spec fn random_scatter_result(before: WireframeState, after: WireframeState) -> bool {
    &&& forall|c: Coord3D| #[trigger]
        before.stones.contains_key(c) ==> after.stones.contains_key(c) && after.stones[c]
            == before.stones[c]
    &&& forall|c: Coord3D| #[trigger]
        after.stones.contains_key(c) && !before.stones.contains_key(c) ==> on_planes(c)
    &&& after.current_player == before.current_player
    &&& after.selected_pos == before.selected_pos
}

impl Go3DWireframe {
    /// Every stored key is the key of some point.
    pub closed spec fn wf(&self) -> bool {
        forall|k: u32| #[trigger] self.stones@.contains_key(k) ==> k < 16777216
    }

    proof fn lemma_insert_view(&self, new_stones: HashMap<u32, Color3D>, c: Coord3D, col: Color3D)
        requires
            new_stones@ == self.stones@.insert(coord_key(c), col),
        ensures
            Map::new(
                |d: Coord3D| new_stones@.contains_key(coord_key(d)),
                |d: Coord3D| new_stones@[coord_key(d)],
            ) =~= self@.stones.insert(c, col),
    {
        assert forall|d: Coord3D| #![auto] coord_key(d) == coord_key(c) implies d == c by {
            lemma_coord_key_injective(d, c);
        }
    }

    fn key_of(coord: Coord3D) -> (k: u32)
        ensures
            k == coord_key(coord),
            k < 16777216,
    {
        let x = (coord.x as i32 + 128) as u32;
        let y = (coord.y as i32 + 128) as u32;
        let z = (coord.z as i32 + 128) as u32;
        x * 65536 + y * 256 + z
    }

    /// An empty board with Black to move.
    pub fn new() -> (g: Self)
        ensures
            g.wf(),
            g@.stones == Map::<Coord3D, Color3D>::empty(),
            g@.current_player == Color3D::Black,
            g@.selected_pos is None,
    {
        let g = Go3DWireframe { stones: HashMap::new(), current_player: Color3D::Black, selected_pos: None };
        assert(g@.stones =~= Map::<Coord3D, Color3D>::empty());
        g
    }

    /// Place a stone of the current player at `coord` if the point is on the
    /// planes and empty, and pass the turn; otherwise do nothing.
    pub fn place_stone(&mut self, coord: Coord3D)
        requires
            old(self).wf(),
        ensures
            final(self).wf(),
            final(self)@ == (if on_planes(coord) && !old(self)@.stones.contains_key(coord) {
                WireframeState {
                    stones: old(self)@.stones.insert(coord, old(self)@.current_player),
                    current_player: next_color(old(self)@.current_player),
                    ..old(self)@
                }
            } else {
                old(self)@
            }),
    {
        let key = Self::key_of(coord);
        if coord.is_valid() && !self.stones.contains_key(&key) {
            let ghost before = *self;
            self.stones.insert(key, self.current_player);
            proof {
                before.lemma_insert_view(self.stones, coord, before.current_player);
            }
            self.current_player = self.current_player.next();
        }
    }

    /// Remove every stone; Black moves next.
    pub fn clear_board(&mut self)
        ensures
            final(self).wf(),
            final(self)@ == (WireframeState {
                stones: Map::empty(),
                current_player: Color3D::Black,
                ..old(self)@
            }),
    {
        self.stones.clear();
        self.current_player = Color3D::Black;
        assert(self@.stones =~= Map::<Coord3D, Color3D>::empty());
    }

    /// Scatter fifteen random test stones: each round picks a plane, a point
    /// on it and a colour at random and places the stone if the point is
    /// empty.
    pub fn add_random_stones(&mut self)
        requires
            old(self).wf(),
        ensures
            final(self).wf(),
            random_scatter_result(old(self)@, final(self)@),
            exists|draws: Seq<ScatterDraws>|
                {
                    &&& draws.len() == 15
                    &&& scatter_draws_in_range(draws)
                    &&& final(self)@ == (WireframeState {
                        stones: #[trigger] scatter_stones(old(self)@.stones, draws),
                        ..old(self)@
                    })
                },
    {
        let mut round: usize = 0;
        let ghost mut draws: Seq<ScatterDraws> = Seq::empty();
        while round < 15
            invariant
                self.wf(),
                0 <= round <= 15,
                random_scatter_result(old(self)@, self@),
                draws.len() == round,
                scatter_draws_in_range(draws),
                self@ == (WireframeState {
                    stones: scatter_stones(old(self)@.stones, draws),
                    ..old(self)@
                }),
            decreases 15 - round,
        {
            let plane = random_below(3);
            let ri = random_below(9);
            let rj = random_below(9);
            let i = ri as i8 - 4;
            let j = rj as i8 - 4;
            let coord = if plane == 0 {
                Coord3D::new(i, j, 0)
            } else if plane == 1 {
                Coord3D::new(i, 0, j)
            } else {
                Coord3D::new(0, i, j)
            };
            let ghost mut pick_drawn: u8 = 0;
            let key = Self::key_of(coord);
            if !self.stones.contains_key(&key) {
                let pick = random_below(3);
                proof {
                    pick_drawn = pick;
                }
                let color = if pick == 0 {
                    Color3D::Black
                } else if pick == 1 {
                    Color3D::White
                } else {
                    Color3D::Red
                };
                let ghost before = *self;
                self.stones.insert(key, color);
                proof {
                    before.lemma_insert_view(self.stones, coord, color);
                }
            }
            proof {
                let d: ScatterDraws = (plane, ri, rj, pick_drawn);
                assert(scatter_point(d) == coord);
                let prev = draws;
                draws = draws.push(d);
                assert(draws.drop_last() =~= prev);
                assert(draws.last() == d);
                assert forall|k: int| 0 <= k < draws.len() implies {
                    let e = #[trigger] draws[k];
                    e.0 < 3 && e.1 < 9 && e.2 < 9 && e.3 < 3
                } by {
                    if k < prev.len() {
                        assert(draws[k] == prev[k]);
                    }
                }
            }
            round += 1;
        }
        assert(self@.stones == scatter_stones(old(self)@.stones, draws));
    }

    /// The number of stones on the board.
    pub fn stone_count(&self) -> (n: usize)
        requires
            self.wf(),
        ensures
            n == self@.stones.dom().len(),
    {
        let n = self.stones.len();
        proof {
            let m = self@.stones;
            let keys = self.stones@.dom();
            assert(keys.finite());
            assert(m.dom() =~= keys.map(|k: u32| key_coord(k))) by {
                assert forall|c: Coord3D| m.dom().contains(c) implies keys.map(
                    |k: u32| key_coord(k),
                ).contains(c) by {
                    lemma_key_roundtrip(c);
                    assert(keys.contains(coord_key(c)));
                }
                assert forall|c: Coord3D| keys.map(|k: u32| key_coord(k)).contains(c) implies m.dom().contains(c) by {
                    let k = choose|k: u32| keys.contains(k) && key_coord(k) == c;
                    lemma_coord_roundtrip(k);
                }
            }
            assert(vstd::relations::injective_on(|k: u32| key_coord(k), keys)) by {
                assert forall|a: u32, b: u32| keys.contains(a) && keys.contains(b) && key_coord(a) == key_coord(b) implies a == b by {
                    lemma_coord_roundtrip(a);
                    lemma_coord_roundtrip(b);
                }
            }
            vstd::set_lib::lemma_map_size(keys, keys.map(|k: u32| key_coord(k)), |k: u32| key_coord(k));
        }
        n
    }

    /// The stone at `coord`, if any.
    pub fn stone_at(&self, coord: Coord3D) -> (r: Option<Color3D>)
        ensures
            r == self@.stones.get(coord),
    {
        let key = Self::key_of(coord);
        match self.stones.get(&key) {
            Some(c) => Some(*c),
            None => None,
        }
    }

    /// The player to move.
    pub fn current_player(&self) -> (r: Color3D)
        ensures
            r == self@.current_player,
    {
        self.current_player
    }
}

/// The point whose key is `k`.
pub open spec fn key_coord(k: u32) -> Coord3D {
    Coord3D {
        x: ((k / 65536) as int - 128) as i8,
        y: (((k / 256) % 256) as int - 128) as i8,
        z: ((k % 256) as int - 128) as i8,
    }
}

proof fn lemma_key_roundtrip(c: Coord3D)
    ensures
        key_coord(coord_key(c)) == c,
{
    let v = (c.x + 128) * 65536 + (c.y + 128) * 256 + (c.z + 128);
    assert(0 <= v <= 16777215);
    let xx = c.x + 128;
    let yy = c.y + 128;
    let zz = c.z + 128;
    assert(v / 65536 == xx && (v / 256) % 256 == yy && v % 256 == zz) by (nonlinear_arith)
        requires
            v == xx * 65536 + yy * 256 + zz,
            0 <= xx < 256,
            0 <= yy < 256,
            0 <= zz < 256,
    ;
}

proof fn lemma_coord_roundtrip(k: u32)
    requires
        k < 16777216,
    ensures
        coord_key(key_coord(k)) == k,
{
    let kk = k as int;
    assert(kk == (kk / 65536) * 65536 + ((kk / 256) % 256) * 256 + kk % 256
        && 0 <= kk / 65536 < 256) by (nonlinear_arith)
        requires
            0 <= kk < 16777216,
    ;
}

} // verus!

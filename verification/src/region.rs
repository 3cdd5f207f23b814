//! Connected regions of the 9x9 board.
//!
//! A region is grown from a start point through the points that a mask
//! allows, stepping between horizontally or vertically adjacent points; this
//! is the search behind territory filling, territory clearing and dead-group
//! marking.
use vstd::prelude::*;

verus! {

/// Side length of the offline board.
pub const BOARD_SIDE: usize = 9;

/// Number of points of the offline board.
pub const BOARD_POINTS: usize = 81;

/// A point given as (column, row).
pub type Point = (int, int);

pub open spec fn in_board(p: Point) -> bool {
    0 <= p.0 < 9 && 0 <= p.1 < 9
}

/// Row-major index of a point.
pub open spec fn cell(p: Point) -> int {
    p.1 * 9 + p.0
}

/// The point of an exec (column, row) pair.
pub open spec fn pt(p: (u8, u8)) -> Point {
    (p.0 as int, p.1 as int)
}

/// `a` and `b` are on the board and one step apart horizontally or vertically.
pub open spec fn adjacent(a: Point, b: Point) -> bool {
    &&& in_board(a)
    &&& in_board(b)
    &&& {
        ||| a.0 == b.0 && (a.1 - b.1 == 1 || b.1 - a.1 == 1)
        ||| a.1 == b.1 && (a.0 - b.0 == 1 || b.0 - a.0 == 1)
    }
}

/// `m` holds at point `p`.
pub open spec fn at(m: Seq<bool>, p: Point) -> bool {
    m[cell(p)]
}

/// `path` is a walk over allowed points, each step to an adjacent point.
pub open spec fn is_walk(allowed: Seq<bool>, path: Seq<Point>) -> bool {
    &&& path.len() > 0
    &&& forall|i: int| 0 <= i < path.len() ==> in_board(#[trigger] path[i]) && at(allowed, path[i])
    &&& forall|i: int| 1 <= i < path.len() ==> adjacent(path[i - 1], #[trigger] path[i])
}

/// `to` can be reached from `from` by a walk over allowed points.
pub open spec fn reachable(allowed: Seq<bool>, from: Point, to: Point) -> bool {
    exists|path: Seq<Point>|
        #![trigger is_walk(allowed, path)]
        is_walk(allowed, path) && path[0] == from && path.last() == to
}

/// The four candidate neighbours of `p` (some may be off the board).
pub open spec fn left(p: Point) -> Point {
    (p.0 - 1, p.1)
}

pub open spec fn right(p: Point) -> Point {
    (p.0 + 1, p.1)
}

pub open spec fn up(p: Point) -> Point {
    (p.0, p.1 - 1)
}

pub open spec fn down(p: Point) -> Point {
    (p.0, p.1 + 1)
}

/// `p` is the point of some entry of the stack.
pub open spec fn on_stack(stack: Seq<(u8, u8)>, p: Point) -> bool {
    exists|k: int| 0 <= k < stack.len() && #[trigger] pt(stack[k]) == p
}

/// Every board neighbour of `p` is visited or waiting on the stack.
pub open spec fn neighbours_covered(visited: Seq<bool>, stack: Seq<(u8, u8)>, p: Point) -> bool {
    &&& in_board(left(p)) ==> at(visited, left(p)) || on_stack(stack, left(p))
    &&& in_board(right(p)) ==> at(visited, right(p)) || on_stack(stack, right(p))
    &&& in_board(up(p)) ==> at(visited, up(p)) || on_stack(stack, up(p))
    &&& in_board(down(p)) ==> at(visited, down(p)) || on_stack(stack, down(p))
}

/// The invariant of the region search: stack entries are on the board and
/// each is the start or next to a visited allowed point; visited allowed
/// points are reachable and have their neighbours visited or stacked; the
/// start is visited or stacked.
#[verifier::opaque]
pub open spec fn search_inv(al: Seq<bool>, visited: Seq<bool>, stack: Seq<(u8, u8)>, s0: Point) -> bool {
    &&& forall|j: int| 0 <= j < stack.len() ==> in_board(#[trigger] pt(stack[j]))
    &&& forall|p: Point|
        in_board(p) && #[trigger] at(visited, p) && at(al, p) ==> reachable(al, s0, p)
    &&& forall|j: int|
        0 <= j < stack.len() ==> #[trigger] pt(stack[j]) == s0 || exists|q: Point|
            in_board(q) && at(visited, q) && at(al, q) && adjacent(q, pt(stack[j]))
    &&& forall|p: Point|
        in_board(p) && #[trigger] at(visited, p) && at(al, p) ==> neighbours_covered(
            visited,
            stack,
            p,
        )
    &&& at(visited, s0) || on_stack(stack, s0)
}

/// Number of `true` entries.
pub open spec fn count_true(s: Seq<bool>) -> nat
    decreases s.len(),
{
    if s.len() == 0 {
        0
    } else {
        count_true(s.drop_last()) + if s.last() {
            1nat
        } else {
            0nat
        }
    }
}

proof fn lemma_count_true_bound(s: Seq<bool>)
    ensures
        count_true(s) <= s.len(),
    decreases s.len(),
{
    if s.len() > 0 {
        lemma_count_true_bound(s.drop_last());
    }
}

proof fn lemma_count_true_set(s: Seq<bool>, i: int)
    requires
        0 <= i < s.len(),
        !s[i],
    ensures
        count_true(s.update(i, true)) == count_true(s) + 1,
    decreases s.len(),
{
    let t = s.update(i, true);
    if i == s.len() - 1 {
        assert(t.drop_last() =~= s.drop_last());
    } else {
        assert(t.drop_last() =~= s.drop_last().update(i, true));
        lemma_count_true_set(s.drop_last(), i);
    }
}

/// A walk extended by one adjacent allowed point is a walk.
proof fn lemma_extend_walk(allowed: Seq<bool>, path: Seq<Point>, p: Point)
    requires
        is_walk(allowed, path),
        adjacent(path.last(), p),
        at(allowed, p),
    ensures
        is_walk(allowed, path.push(p)),
        path.push(p)[0] == path[0],
        path.push(p).last() == p,
{
    let q = path.push(p);
    assert forall|i: int| 1 <= i < q.len() implies adjacent(q[i - 1], #[trigger] q[i]) by {
        if i < path.len() {
            assert(q[i - 1] == path[i - 1] && q[i] == path[i]);
        }
    }
}

/// In a region closed under allowed neighbours, every walk from a member
/// stays inside the region.
proof fn lemma_closed_contains_walk(
    allowed: Seq<bool>,
    visited: Seq<bool>,
    path: Seq<Point>,
    n: int,
)
    requires
        allowed.len() == 81,
        visited.len() == 81,
        is_walk(allowed, path),
        at(visited, path[0]),
        0 <= n < path.len(),
        forall|p: Point|
            in_board(p) && #[trigger] at(visited, p) && at(allowed, p) ==> neighbours_covered(
                visited,
                Seq::<(u8, u8)>::empty(),
                p,
            ),
    ensures
        at(visited, path[n]),
    decreases n,
{
    if n > 0 {
        lemma_closed_contains_walk(allowed, visited, path, n - 1);
        let a = path[n - 1];
        let b = path[n];
        assert(adjacent(a, b));
        assert(in_board(a) && at(allowed, a));
        assert(neighbours_covered(visited, Seq::<(u8, u8)>::empty(), a));
        assert(!on_stack(Seq::<(u8, u8)>::empty(), b));
        assert(b == left(a) || b == right(a) || b == up(a) || b == down(a));
    }
}

/// The region reachable from `start` through points that `allowed` marks:
/// the result marks exactly the points with a walk from `start` over allowed
/// points (none when `start` itself is not allowed).
pub fn connected_region(allowed: &Vec<bool>, start: (u8, u8)) -> (region: Vec<bool>)
    requires
        allowed@.len() == 81,
        start.0 < 9,
        start.1 < 9,
    ensures
        region@.len() == 81,
        forall|p: Point| in_board(p) ==> (#[trigger] at(region@, p) <==> reachable(allowed@, pt(start), p)),
{
    let ghost al = allowed@;
    let ghost s0 = pt(start);
    let mut visited: Vec<bool> = Vec::new();
    let mut k: usize = 0;
    while k < 81
        invariant
            0 <= k <= 81,
            visited@.len() == k,
            forall|j: int| 0 <= j < k ==> !visited@[j],
        decreases 81 - k,
    {
        visited.push(false);
        k += 1;
    }
    proof {
        assert(count_true(visited@) == 0) by {
            lemma_count_all_false(visited@);
        }
    }
    let mut stack: Vec<(u8, u8)> = Vec::new();
    stack.push(start);
    let mut nvisited: usize = 0;
    assert(pt(stack@[0]) == s0);
    proof {
        reveal(search_inv);
        assert(on_stack(stack@, s0));
    }
    while stack.len() > 0
        invariant
            al == allowed@,
            al.len() == 81,
            s0 == pt(start),
            in_board(s0),
            visited@.len() == 81,
            nvisited == count_true(visited@),
            nvisited <= 81,
            search_inv(al, visited@, stack@, s0),
        decreases (81 - nvisited) * 5 + stack@.len(),
    {
        let ghost old_stack = stack@;
        let ghost old_visited = visited@;
        let cur = stack.pop().unwrap();
        let ghost c = pt(cur);
        assert(old_stack.last() == cur);
        assert(stack@ == old_stack.drop_last());
        proof {
            lemma_top_facts(al, visited@, old_stack, s0);
        }
        let idx = cur.1 as usize * 9 + cur.0 as usize;
        assert(idx == cell(c));
        if visited[idx] {
            // Already handled; dropping the entry keeps every cover.
            proof {
                lemma_skip_visited(al, visited@, old_stack, stack@, c, s0);
            }
        } else {
            // A newly visited point: it is reachable when allowed.
            proof {
                lemma_count_true_bound(visited@);
                lemma_count_true_set(visited@, cell(c));
            }
            visited.set(idx, true);
            nvisited = nvisited + 1;
            assert(visited@ == old_visited.update(cell(c), true));
            proof {
                lemma_count_true_bound(visited@);
            }
            if allowed[idx] {
                push_neighbours(&mut stack, cur);
            }
            assert(stack@.subrange(0, old_stack.len() - 1) =~= old_stack.drop_last());
            proof {
                lemma_visit(al, old_visited, visited@, old_stack, stack@, c, s0);
            }
        }
    }
    // The visited allowed points form a closed region around `start`.
    proof {
        reveal(search_inv);
        assert(stack@ =~= Seq::<(u8, u8)>::empty());
        assert forall|p: Point| in_board(p) implies (at(visited@, p) && at(al, p) <==> reachable(
            al,
            s0,
            p,
        )) by {
            if reachable(al, s0, p) {
                let path = choose|path: Seq<Point>|
                    is_walk(al, path) && path[0] == s0 && path.last() == p;
                assert(at(al, s0) && in_board(s0));
                assert(!on_stack(stack@, s0));
                lemma_closed_contains_walk(al, visited@, path, path.len() - 1);
            }
        }
    }
    let mut region: Vec<bool> = Vec::new();
    let mut i: usize = 0;
    while i < 81
        invariant
            0 <= i <= 81,
            region@.len() == i,
            visited@.len() == 81,
            al == allowed@,
            al.len() == 81,
            forall|j: int| #![trigger region@[j]] 0 <= j < i ==> region@[j] == (visited@[j] && al[j]),
            forall|p: Point| in_board(p) ==> (at(visited@, p) && at(al, p) <==> reachable(al, s0, p)),
        decreases 81 - i,
    {
        let v = visited[i] && allowed[i];
        region.push(v);
        assert(region@[i as int] == (visited@[i as int] && al[i as int]));
        i += 1;
    }
    assert forall|p: Point| in_board(p) implies (#[trigger] at(region@, p) <==> reachable(
        al,
        s0,
        p,
    )) by {
        assert(0 <= cell(p) < 81);
        assert(region@[cell(p)] == (visited@[cell(p)] && al[cell(p)]));
    }
    region
}

/// Push the on-board neighbours of `cur` (left, right, up, down).
fn push_neighbours(stack: &mut Vec<(u8, u8)>, cur: (u8, u8))
    requires
        cur.0 < 9,
        cur.1 < 9,
    ensures
        old(stack)@.len() <= final(stack)@.len() <= old(stack)@.len() + 4,
        final(stack)@.subrange(0, old(stack)@.len() as int) == old(stack)@,
        ({
            let extra = final(stack)@.subrange(old(stack)@.len() as int, final(stack)@.len() as int);
            let c = pt(cur);
            &&& forall|j: int| 0 <= j < extra.len() ==> adjacent(c, #[trigger] pt(extra[j]))
            &&& in_board(left(c)) ==> on_stack(extra, left(c))
            &&& in_board(right(c)) ==> on_stack(extra, right(c))
            &&& in_board(up(c)) ==> on_stack(extra, up(c))
            &&& in_board(down(c)) ==> on_stack(extra, down(c))
        }),
{
    let ghost base = old(stack)@;
    let x = cur.0;
    let y = cur.1;
    if x > 0 {
        stack.push((x - 1, y));
    }
    let ghost s1 = stack@;
    if x < 8 {
        stack.push((x + 1, y));
    }
    let ghost s2 = stack@;
    if y > 0 {
        stack.push((x, y - 1));
    }
    let ghost s3 = stack@;
    if y < 8 {
        stack.push((x, y + 1));
    }
    proof {
        let c = pt(cur);
        let extra = stack@.subrange(base.len() as int, stack@.len() as int);
        assert(stack@.subrange(0, base.len() as int) =~= base);
        assert forall|j: int| 0 <= j < extra.len() implies adjacent(c, #[trigger] pt(extra[j])) by {
            assert(extra[j] == stack@[base.len() + j]);
        }
        if in_board(left(c)) {
            assert(pt(extra[0]) == left(c));
        }
        if in_board(right(c)) {
            let k = s1.len() - base.len();
            assert(pt(extra[k]) == right(c));
        }
        if in_board(up(c)) {
            let k = s2.len() - base.len();
            assert(pt(extra[k]) == up(c));
        }
        if in_board(down(c)) {
            let k = s3.len() - base.len();
            assert(pt(extra[k]) == down(c));
        }
    }
}

proof fn lemma_count_all_false(s: Seq<bool>)
    requires
        forall|j: int| 0 <= j < s.len() ==> !s[j],
    ensures
        count_true(s) == 0,
    decreases s.len(),
{
    if s.len() > 0 {
        lemma_count_all_false(s.drop_last());
    }
}

/// Facts about the top entry of the stack under the search invariant.
proof fn lemma_top_facts(al: Seq<bool>, visited: Seq<bool>, stack: Seq<(u8, u8)>, s0: Point)
    requires
        search_inv(al, visited, stack, s0),
        stack.len() > 0,
    ensures
        in_board(pt(stack.last())),
        pt(stack.last()) == s0 || exists|q: Point|
            in_board(q) && at(visited, q) && at(al, q) && adjacent(q, pt(stack.last())),
{
    reveal(search_inv);
    assert(in_board(pt(stack[stack.len() - 1])));
    assert(pt(stack[stack.len() - 1]) == s0 || exists|q: Point|
        in_board(q) && at(visited, q) && at(al, q) && adjacent(q, pt(stack[stack.len() - 1])));
}

/// Dropping an already visited top entry keeps the search invariant.
proof fn lemma_skip_visited(
    al: Seq<bool>,
    visited: Seq<bool>,
    old_stack: Seq<(u8, u8)>,
    stack: Seq<(u8, u8)>,
    c: Point,
    s0: Point,
)
    requires
        visited.len() == 81,
        old_stack.len() > 0,
        pt(old_stack.last()) == c,
        stack == old_stack.drop_last(),
        in_board(c),
        at(visited, c),
        search_inv(al, visited, old_stack, s0),
    ensures
        search_inv(al, visited, stack, s0),
{
    reveal(search_inv);
    lemma_skip_visited_raw(al, visited, old_stack, stack, c, s0);
}

/// Visiting the top entry keeps the search invariant.
proof fn lemma_visit(
    al: Seq<bool>,
    old_visited: Seq<bool>,
    visited: Seq<bool>,
    old_stack: Seq<(u8, u8)>,
    stack: Seq<(u8, u8)>,
    c: Point,
    s0: Point,
)
    requires
        al.len() == 81,
        old_visited.len() == 81,
        in_board(c),
        in_board(s0),
        old_stack.len() > 0,
        pt(old_stack.last()) == c,
        !at(old_visited, c),
        visited == old_visited.update(cell(c), true),
        search_inv(al, old_visited, old_stack, s0),
        stack.len() >= old_stack.len() - 1,
        stack.subrange(0, old_stack.len() - 1) == old_stack.drop_last(),
        !at(al, c) ==> stack.len() == old_stack.len() - 1,
        at(al, c) ==> {
            let extra = stack.subrange(old_stack.len() - 1, stack.len() as int);
            &&& forall|j: int| 0 <= j < extra.len() ==> adjacent(c, #[trigger] pt(extra[j]))
            &&& in_board(left(c)) ==> on_stack(extra, left(c))
            &&& in_board(right(c)) ==> on_stack(extra, right(c))
            &&& in_board(up(c)) ==> on_stack(extra, up(c))
            &&& in_board(down(c)) ==> on_stack(extra, down(c))
        },
    ensures
        search_inv(al, visited, stack, s0),
{
    reveal(search_inv);
    assert(pt(old_stack[old_stack.len() - 1]) == c);
    lemma_visit_reachable(al, old_visited, c, s0);
    lemma_after_visit(al, old_visited, visited, old_stack, stack, c, s0);
}

proof fn lemma_skip_visited_raw(
    al: Seq<bool>,
    visited: Seq<bool>,
    old_stack: Seq<(u8, u8)>,
    stack: Seq<(u8, u8)>,
    c: Point,
    s0: Point,
)
    requires
        visited.len() == 81,
        old_stack.len() > 0,
        pt(old_stack.last()) == c,
        stack == old_stack.drop_last(),
        in_board(c),
        at(visited, c),
        forall|j: int| 0 <= j < old_stack.len() ==> in_board(#[trigger] pt(old_stack[j])),
        forall|j: int|
            0 <= j < old_stack.len() ==> #[trigger] pt(old_stack[j]) == s0 || exists|q: Point|
                in_board(q) && at(visited, q) && at(al, q) && adjacent(q, pt(old_stack[j])),
        forall|p: Point|
            in_board(p) && #[trigger] at(visited, p) && at(al, p) ==> neighbours_covered(
                visited,
                old_stack,
                p,
            ),
        at(visited, s0) || on_stack(old_stack, s0),
    ensures
        forall|j: int| 0 <= j < stack.len() ==> in_board(#[trigger] pt(stack[j])),
        forall|j: int|
            0 <= j < stack.len() ==> #[trigger] pt(stack[j]) == s0 || exists|q: Point|
                in_board(q) && at(visited, q) && at(al, q) && adjacent(q, pt(stack[j])),
        forall|p: Point|
            in_board(p) && #[trigger] at(visited, p) && at(al, p) ==> neighbours_covered(
                visited,
                stack,
                p,
            ),
        at(visited, s0) || on_stack(stack, s0),
{
    assert forall|j: int| 0 <= j < stack.len() implies in_board(#[trigger] pt(stack[j])) by {
        assert(stack[j] == old_stack[j]);
    }
    assert forall|j: int| 0 <= j < stack.len() implies #[trigger] pt(stack[j]) == s0 || exists|q: Point|
        in_board(q) && at(visited, q) && at(al, q) && adjacent(q, pt(stack[j])) by {
        assert(stack[j] == old_stack[j]);
    }
    assert forall|p: Point| in_board(p) && #[trigger] at(visited, p) && at(al, p) implies neighbours_covered(
        visited,
        stack,
        p,
    ) by {
        lemma_cover_after_pop(visited, old_stack, p, c);
    }
    if !at(visited, s0) {
        let j = choose|j: int| 0 <= j < old_stack.len() && #[trigger] pt(old_stack[j]) == s0;
        assert(j != old_stack.len() - 1);
        assert(pt(stack[j]) == s0);
    }
}

/// Marking the popped point `c` visited keeps every visited allowed point
/// reachable from the start.
proof fn lemma_visit_reachable(al: Seq<bool>, old_visited: Seq<bool>, c: Point, s0: Point)
    requires
        old_visited.len() == 81,
        in_board(c),
        in_board(s0),
        forall|p: Point|
            in_board(p) && #[trigger] at(old_visited, p) && at(al, p) ==> reachable(al, s0, p),
        c == s0 || exists|q: Point|
            in_board(q) && at(old_visited, q) && at(al, q) && adjacent(q, c),
    ensures
        forall|p: Point|
            in_board(p) && #[trigger] at(old_visited.update(cell(c), true), p) && at(al, p)
                ==> reachable(al, s0, p),
{
    let visited = old_visited.update(cell(c), true);
    if at(al, c) {
        if c != s0 {
            let q = choose|q: Point| in_board(q) && at(old_visited, q) && at(al, q) && adjacent(q, c);
            assert(reachable(al, s0, q));
            let path = choose|path: Seq<Point>|
                is_walk(al, path) && path[0] == s0 && path.last() == q;
            lemma_extend_walk(al, path, c);
            assert(is_walk(al, path.push(c)));
        } else {
            let path = seq![s0];
            assert(is_walk(al, path));
        }
    }
    assert forall|p: Point| in_board(p) && #[trigger] at(visited, p) && at(al, p) implies reachable(al, s0, p) by {
        if p != c {
            lemma_cell_injective_contra(p, c);
            assert(at(old_visited, p));
        }
    }
}

/// Popping the top entry `c`, now visited, keeps a point's neighbours covered.
proof fn lemma_cover_after_pop(visited: Seq<bool>, stack: Seq<(u8, u8)>, p: Point, c: Point)
    requires
        stack.len() > 0,
        pt(stack.last()) == c,
        in_board(c),
        visited.len() == 81,
        at(visited, c),
        neighbours_covered(visited, stack, p),
    ensures
        neighbours_covered(visited, stack.drop_last(), p),
{
    let s = stack.drop_last();
    assert forall|n: Point| on_stack(stack, n) && n != c implies on_stack(s, n) by {
        let k = choose|k: int| 0 <= k < stack.len() && #[trigger] pt(stack[k]) == n;
        assert(k != stack.len() - 1);
        assert(pt(s[k]) == n);
    }
}

/// The loop invariants survive visiting the popped point `c`.
proof fn lemma_after_visit(
    al: Seq<bool>,
    old_visited: Seq<bool>,
    visited: Seq<bool>,
    old_stack: Seq<(u8, u8)>,
    stack: Seq<(u8, u8)>,
    c: Point,
    s0: Point,
)
    requires
        al.len() == 81,
        old_visited.len() == 81,
        in_board(c),
        in_board(s0),
        old_stack.len() > 0,
        pt(old_stack.last()) == c,
        !at(old_visited, c),
        visited == old_visited.update(cell(c), true),
        forall|j: int| 0 <= j < old_stack.len() ==> in_board(#[trigger] pt(old_stack[j])),
        forall|j: int|
            0 <= j < old_stack.len() ==> #[trigger] pt(old_stack[j]) == s0 || exists|q: Point|
                in_board(q) && at(old_visited, q) && at(al, q) && adjacent(q, pt(old_stack[j])),
        forall|p: Point|
            in_board(p) && #[trigger] at(old_visited, p) && at(al, p) ==> neighbours_covered(
                old_visited,
                old_stack,
                p,
            ),
        at(old_visited, s0) || on_stack(old_stack, s0),
        // the new stack: the old one without its top, plus the on-board
        // neighbours of `c` when `c` is allowed
        stack.len() >= old_stack.len() - 1,
        stack.subrange(0, old_stack.len() - 1) == old_stack.drop_last(),
        !at(al, c) ==> stack.len() == old_stack.len() - 1,
        at(al, c) ==> {
            let extra = stack.subrange(old_stack.len() - 1, stack.len() as int);
            &&& forall|j: int| 0 <= j < extra.len() ==> adjacent(c, #[trigger] pt(extra[j]))
            &&& in_board(left(c)) ==> on_stack(extra, left(c))
            &&& in_board(right(c)) ==> on_stack(extra, right(c))
            &&& in_board(up(c)) ==> on_stack(extra, up(c))
            &&& in_board(down(c)) ==> on_stack(extra, down(c))
        },
    ensures
        forall|j: int| 0 <= j < stack.len() ==> in_board(#[trigger] pt(stack[j])),
        forall|j: int|
            0 <= j < stack.len() ==> #[trigger] pt(stack[j]) == s0 || exists|q: Point|
                in_board(q) && at(visited, q) && at(al, q) && adjacent(q, pt(stack[j])),
        forall|p: Point|
            in_board(p) && #[trigger] at(visited, p) && at(al, p) ==> neighbours_covered(
                visited,
                stack,
                p,
            ),
        at(visited, s0) || on_stack(stack, s0),
{
    let last = old_stack.len() - 1;
    assert forall|j: int| 0 <= j < last implies stack[j] == old_stack[j] by {
        assert(stack.subrange(0, last)[j] == stack[j]);
    }
    assert forall|q: Point| in_board(q) && #[trigger] at(old_visited, q) implies at(visited, q) by {
        if cell(q) == cell(c) {
        }
    }
    assert forall|j: int| 0 <= j < stack.len() implies in_board(#[trigger] pt(stack[j])) by {
        if j < last {
            assert(stack[j] == old_stack[j]);
        } else {
            let extra = stack.subrange(last, stack.len() as int);
            assert(extra[j - last] == stack[j]);
        }
    }
    assert forall|j: int| 0 <= j < stack.len() implies #[trigger] pt(stack[j]) == s0 || exists|q: Point|
        in_board(q) && at(visited, q) && at(al, q) && adjacent(q, pt(stack[j])) by {
        if j < last {
            assert(stack[j] == old_stack[j]);
            if pt(old_stack[j]) != s0 {
                let q = choose|q: Point|
                    in_board(q) && at(old_visited, q) && at(al, q) && adjacent(q, pt(old_stack[j]));
                assert(at(visited, q));
            }
        } else {
            let extra = stack.subrange(last, stack.len() as int);
            assert(extra[j - last] == stack[j]);
            assert(at(visited, c));
        }
    }
    assert forall|n: Point| on_stack(old_stack, n) && n != c implies on_stack(stack, n) by {
        let k = choose|k: int| 0 <= k < old_stack.len() && #[trigger] pt(old_stack[k]) == n;
        assert(k != last);
        assert(stack[k] == old_stack[k]);
    }
    assert forall|n: Point| on_stack(stack.subrange(last, stack.len() as int), n) implies on_stack(stack, n) by {
        let extra = stack.subrange(last, stack.len() as int);
        let k = choose|k: int| 0 <= k < extra.len() && #[trigger] pt(extra[k]) == n;
        assert(stack[k + last] == extra[k]);
    }
    assert forall|p: Point| in_board(p) && #[trigger] at(visited, p) && at(al, p) implies neighbours_covered(
        visited,
        stack,
        p,
    ) by {
        if p == c {
        } else {
            lemma_cell_injective_contra(p, c);
            assert(at(old_visited, p));
            assert(neighbours_covered(old_visited, old_stack, p));
            assert(at(visited, c));
        }
    }
    if !at(old_visited, s0) {
        if s0 != c {
            assert(on_stack(stack, s0));
        }
    }
}

proof fn lemma_cell_injective_contra(p: Point, q: Point)
    requires
        in_board(p),
        in_board(q),
        p != q,
    ensures
        cell(p) != cell(q),
{
}

} // verus!

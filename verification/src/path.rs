//! A* path planning over the grid.
//!
//! A step moves between 4-directionally adjacent tiles at unit cost. A
//! tile is a valid successor unless an obstacle (tree or rock) occupies
//! it — except the goal tile itself, which is always a valid successor so
//! the search can terminate by stepping onto the task's own target. The
//! search is confined to a caller-supplied rectangular region, which
//! bounds the worst case: a fully enclosed goal yields `None` instead of
//! an unbounded expansion over the infinite tile plane.

use vstd::prelude::*;
use vstd::math::abs;
use crate::grid::{Grid, Placement, Tile, is_obstacle, spec_in_rect};

verus! {

/// Divisor applied to the Manhattan distance to form the A* heuristic.
pub const HEURISTIC_DIVISOR: u64 = 3;

/// A rectangular, inclusive region of tiles bounding a path search.
#[derive(Clone, Copy, PartialEq, Eq, Structural, Debug)]
pub struct TileRect {
    pub lo: Tile,
    pub hi: Tile,
}

impl TileRect {
    /// The region is non-empty and small enough that every simple path and
    /// heuristic value inside it fits comfortably in the search's 32-bit
    /// cost arithmetic.
    pub open spec fn wf(self) -> bool {
        &&& self.lo.x <= self.hi.x
        &&& self.lo.y <= self.hi.y
        &&& (self.hi.x - self.lo.x + 1) * (self.hi.y - self.lo.y + 1) <= 0x7fff_ffff
    }

    /// `t` lies inside the region.
    pub open spec fn spec_contains(self, t: Tile) -> bool {
        spec_in_rect(t, self.lo, self.hi)
    }

    /// Runtime check of `wf` (the area is computed in 128 bits; the spans
    /// can each approach `2^32`).
    pub fn check_wf(&self) -> (r: bool)
        ensures
            r == self.wf(),
    {
        if self.lo.x > self.hi.x || self.lo.y > self.hi.y {
            return false;
        }
        let w: i128 = self.hi.x as i128 - self.lo.x as i128 + 1;
        let h: i128 = self.hi.y as i128 - self.lo.y as i128 + 1;
        proof {
            assert(w * h <= 0x10000000000000000i128) by (nonlinear_arith)
                requires
                    1 <= w <= 0x100000000,
                    1 <= h <= 0x100000000,
            ;
        }
        w * h <= 0x7fff_ffff
    }

    /// Runtime check of `spec_contains`.
    pub fn contains(&self, t: Tile) -> (r: bool)
        ensures
            r == self.spec_contains(t),
    {
        self.lo.x <= t.x && t.x <= self.hi.x && self.lo.y <= t.y && t.y <= self.hi.y
    }
}

/// The Manhattan distance between two tiles.
pub open spec fn spec_manhattan(a: Tile, b: Tile) -> int {
    (abs(a.x - b.x) + abs(a.y - b.y)) as int
}

/// Two tiles are 4-directionally adjacent: they differ by one in exactly
/// one coordinate (equivalently, their Manhattan distance is 1).
pub open spec fn spec_adjacent(a: Tile, b: Tile) -> bool {
    ||| a.x == b.x && (b.y == a.y + 1 || b.y == a.y - 1)
    ||| a.y == b.y && (b.x == a.x + 1 || b.x == a.x - 1)
}

/// An obstacle placement occupies tile `t` in the placement list `s`.
pub open spec fn spec_blocked(s: Seq<Placement>, t: Tile) -> bool {
    exists|i: int| 0 <= i < s.len() && (#[trigger] s[i]).tile == t && is_obstacle(s[i].object)
}

/// Moving from `from` to `to` is a legal search step: the tiles are
/// adjacent, and `to` is either the goal itself or an unblocked tile
/// inside the search region.
pub open spec fn spec_step_ok(
    s: Seq<Placement>,
    rect: TileRect,
    goal: Tile,
    from: Tile,
    to: Tile,
) -> bool {
    spec_adjacent(from, to) && (to == goal || (rect.spec_contains(to) && !spec_blocked(s, to)))
}

/// `p` is a legal path from `start` to `goal`: it visits at least one
/// tile, begins at `start`, ends at `goal`, and every move is a legal
/// search step.
pub open spec fn spec_is_path(
    s: Seq<Placement>,
    rect: TileRect,
    start: Tile,
    goal: Tile,
    p: Seq<Tile>,
) -> bool {
    &&& p.len() >= 1
    &&& p[0] == start
    &&& p[p.len() - 1] == goal
    &&& forall|i: int| 0 <= i < p.len() - 1 ==> spec_step_ok(s, rect, goal, #[trigger] p[i], p[i + 1])
}

/// Some legal path leads from `start` to `goal`.
pub open spec fn spec_reachable(s: Seq<Placement>, rect: TileRect, start: Tile, goal: Tile) -> bool {
    exists|p: Seq<Tile>| spec_is_path(s, rect, start, goal, p)
}

/// An obstacle placement occupies tile `t`.
fn blocked(grid: &Grid, t: Tile) -> (r: bool)
    requires
        grid.wf(),
    ensures
        r == spec_blocked(grid@, t),
{
    match grid.get_at(t) {
        Some(p) => {
            let r = match p.object {
                crate::grid::WorldObject::Tree => true,
                crate::grid::WorldObject::Rock => true,
                _ => false,
            };
            proof {
                if !r {
                    let j = choose|j: int| 0 <= j < grid@.len() && grid@[j] == p;
                    assert forall|i: int|
                        0 <= i < grid@.len() && (#[trigger] grid@[i]).tile == t implies !is_obstacle(
                        grid@[i].object,
                    ) by {
                        if i < j {
                            assert(grid@[i].tile != grid@[j].tile);
                        } else if j < i {
                            assert(grid@[j].tile != grid@[i].tile);
                        }
                    }
                }
            }
            r
        },
        None => false,
    }
}

/// Append `c` to the successor list when stepping from `from` onto it is
/// legal.
fn push_candidate(
    grid: &Grid,
    rect: TileRect,
    goal: Tile,
    from: Tile,
    c: Tile,
    r: &mut Vec<(Tile, u32)>,
)
    requires
        grid.wf(),
        spec_adjacent(from, c),
    ensures
        spec_step_ok(grid@, rect, goal, from, c) ==> final(r)@ == old(r)@.push((c, 1u32)),
        !spec_step_ok(grid@, rect, goal, from, c) ==> final(r)@ == old(r)@,
        spec_step_ok(grid@, rect, goal, from, c) ==> final(r)@.contains((c, 1u32)),
        forall|y: (Tile, u32)| old(r)@.contains(y) ==> final(r)@.contains(y),
{
    let ghost r0 = r@;
    if c == goal || (rect.contains(c) && !blocked(grid, c)) {
        r.push((c, 1));
        proof {
            assert(r@[r0.len() as int] == (c, 1u32));
            assert forall|y: (Tile, u32)| r0.contains(y) implies r@.contains(y) by {
                let i = choose|i: int| 0 <= i < r0.len() && r0[i] == y;
                assert(r@[i] == y);
            }
        }
    }
}

/// The valid successors of `t`: each adjacent tile that is the goal or an
/// unblocked tile inside the region, paired with its unit move cost.
fn successors(grid: &Grid, rect: TileRect, goal: Tile, t: Tile) -> (r: Vec<(Tile, u32)>)
    requires
        grid.wf(),
    ensures
        forall|k: int|
            0 <= k < r@.len() ==> (#[trigger] r@[k]).1 == 1 && spec_step_ok(
                grid@,
                rect,
                goal,
                t,
                r@[k].0,
            ),
        forall|to: Tile| #[trigger]
            spec_step_ok(grid@, rect, goal, t, to) ==> exists|k: int|
                0 <= k < r@.len() && (#[trigger] r@[k]).0 == to,
{
    let mut r: Vec<(Tile, u32)> = Vec::new();
    if t.x < i32::MAX {
        push_candidate(grid, rect, goal, t, Tile { x: t.x + 1, y: t.y }, &mut r);
    }
    if t.x > i32::MIN {
        push_candidate(grid, rect, goal, t, Tile { x: t.x - 1, y: t.y }, &mut r);
    }
    if t.y < i32::MAX {
        push_candidate(grid, rect, goal, t, Tile { x: t.x, y: t.y + 1 }, &mut r);
    }
    if t.y > i32::MIN {
        push_candidate(grid, rect, goal, t, Tile { x: t.x, y: t.y - 1 }, &mut r);
    }
    proof {
        assert forall|to: Tile| #[trigger]
            spec_step_ok(grid@, rect, goal, t, to) implies exists|k: int|
            0 <= k < r@.len() && (#[trigger] r@[k]).0 == to by {
            if to.y == t.y && to.x == t.x + 1 {
                assert(t.x < i32::MAX);
                assert(to == Tile { x: (t.x + 1) as i32, y: t.y });
            } else if to.y == t.y && to.x == t.x - 1 {
                assert(t.x > i32::MIN);
                assert(to == Tile { x: (t.x - 1) as i32, y: t.y });
            } else if to.x == t.x && to.y == t.y + 1 {
                assert(t.y < i32::MAX);
                assert(to == Tile { x: t.x, y: (t.y + 1) as i32 });
            } else {
                assert(to.x == t.x && to.y == t.y - 1);
                assert(t.y > i32::MIN);
                assert(to == Tile { x: t.x, y: (t.y - 1) as i32 });
            }
            assert(r@.contains((to, 1u32)));
            let k = choose|k: int| 0 <= k < r@.len() && r@[k] == (to, 1u32);
            assert(r@[k].0 == to);
        }
    }
    r
}

/// The A* heuristic of the original design: Manhattan distance divided by
/// the movement-cost constant. It never exceeds the true remaining cost
/// (any 4-directional path from `a` to `goal` takes at least the Manhattan
/// distance in unit steps), as the search requires of an admissible
/// heuristic. Total: computed in 64 bits, and the result always fits `u32`
/// because each coordinate difference is below `2^32`.
fn heuristic(a: Tile, goal: Tile) -> (r: u32)
    ensures
        r == spec_manhattan(a, goal) / (HEURISTIC_DIVISOR as int),
{
    let dx: i64 = a.x as i64 - goal.x as i64;
    let dy: i64 = a.y as i64 - goal.y as i64;
    let adx: u64 = if dx >= 0 {
        dx as u64
    } else {
        (-dx) as u64
    };
    let ady: u64 = if dy >= 0 {
        dy as u64
    } else {
        (-dy) as u64
    };
    ((adx + ady) / HEURISTIC_DIVISOR) as u32
}

/// Relies on `pathfinding::prelude::astar`: it returns a path of minimal
/// total cost from `start` to a node satisfying the success test, both
/// endpoints included, in `Some`, and `None` exactly when no path exists.
/// The successor, heuristic and success closures only call this crate's
/// verified functions (or compare tiles), so the searched graph is the one
/// `spec_step_ok` describes, with unit cost per step: minimal cost is
/// minimal length. The heuristic is admissible (see `heuristic`), which
/// the search requires for the shortest-path guarantee. `rect.wf()` keeps
/// the node set finite (the search terminates) and the 32-bit costs small.
#[verifier::external_body]
fn astar_search(grid: &Grid, rect: TileRect, start: Tile, goal: Tile) -> (r: Option<Vec<Tile>>)
    requires
        grid.wf(),
        rect.wf(),
        rect.spec_contains(start),
        rect.spec_contains(goal),
    ensures
        match r {
            Some(path) => spec_is_path(grid@, rect, start, goal, path@) && forall|q: Seq<Tile>|
                spec_is_path(grid@, rect, start, goal, q) ==> path@.len() <= q.len(),
            None => !spec_reachable(grid@, rect, start, goal),
        },
{
    let result = pathfinding::prelude::astar(
        &start,
        |p: &Tile| successors(grid, rect, goal, *p),
        |p: &Tile| heuristic(*p, goal),
        |p: &Tile| *p == goal,
    );
    result.map(|pair| pair.0)
}

/// Compute a step sequence from `start` to `goal` over the current grid
/// snapshot, confined to the region `rect`. Returns the shortest path
/// (both endpoints included), or `None` when the goal cannot be reached —
/// a fully enclosed goal is a recoverable failure, not a panic. When
/// either endpoint lies outside the region no search runs and the result
/// is `None`.
pub fn find_path(grid: &Grid, rect: TileRect, start: Tile, goal: Tile) -> (r: Option<Vec<Tile>>)
    requires
        grid.wf(),
        rect.wf(),
    ensures
        match r {
            Some(path) => rect.spec_contains(start) && rect.spec_contains(goal) && spec_is_path(
                grid@,
                rect,
                start,
                goal,
                path@,
            ) && forall|q: Seq<Tile>|
                spec_is_path(grid@, rect, start, goal, q) ==> path@.len() <= q.len(),
            None => !rect.spec_contains(start) || !rect.spec_contains(goal) || !spec_reachable(
                grid@,
                rect,
                start,
                goal,
            ),
        },
{
    if !rect.contains(start) || !rect.contains(goal) {
        return None;
    }
    astar_search(grid, rect, start, goal)
}

} // verus!

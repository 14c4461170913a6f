//! World positions, tile coordinates and the authoritative occupancy map.
//!
//! A world position is an integer point in world units; a tile is the
//! 50-by-50-unit cell containing it, addressed by the floored quotient of
//! each coordinate. The [`Grid`] owns the set of placed objects (at most
//! one per tile) and the current selection rectangle.

use vstd::prelude::*;
use vstd::arithmetic::div_mod::{lemma_div_is_ordered, lemma_fundamental_div_mod_converse};

verus! {

/// Side length of a tile in world units, shared by every subsystem.
pub const TILE_SIZE: i64 = 50;

/// Half a tile: the offset from a tile's corner to its center.
pub const TILE_HALF: i64 = 25;

/// Least world coordinate whose tile index fits in `i32` (`i32::MIN * 50`).
pub const WORLD_MIN_COORD: i64 = -107374182400;

/// Greatest world coordinate whose tile index fits in `i32`
/// (`i32::MAX * 50 + 49`).
pub const WORLD_MAX_COORD: i64 = 107374182399;

/// Hit points of a freshly spawned tree.
pub const TREE_HITS: i64 = 3;

/// Hit points of a freshly spawned rock.
pub const ROCK_HITS: i64 = 2;

/// A point in continuous world space, in integer world units.
#[derive(Clone, Copy, PartialEq, Eq, Structural, Debug)]
pub struct WorldPos {
    pub x: i64,
    pub y: i64,
}

/// A tile coordinate: the world is divided into `TILE_SIZE`-sized cells.
#[derive(Clone, Copy, PartialEq, Eq, Structural, Hash, Debug)]
pub struct Tile {
    pub x: i32,
    pub y: i32,
}

/// The kind of an object standing in the world.
#[derive(Clone, Copy, PartialEq, Eq, Structural, Debug)]
pub enum WorldObject {
    Tree,
    Rock,
    Grass,
    Flowerbed,
    FlowerbedWithBeans,
    FlowerbedWithPotatoSeeds,
}

/// An object's occupancy record at a specific tile.
///
/// `damage` is the remaining hit points of a harvestable object (trees and
/// rocks); `planted_at` is the growth start time, in seconds, of a planted
/// flowerbed. Both are zero for kinds they do not apply to.
#[derive(Clone, Copy, PartialEq, Eq, Structural, Debug)]
pub struct Placement {
    pub id: u64,
    pub tile: Tile,
    pub object: WorldObject,
    pub damage: i64,
    pub planted_at: u64,
}

/// Trees and rocks block movement; everything else is walkable.
pub open spec fn is_obstacle(o: WorldObject) -> bool {
    o == WorldObject::Tree || o == WorldObject::Rock
}

/// Hit points an object starts with when it enters the grid.
pub open spec fn initial_damage(o: WorldObject) -> i64 {
    match o {
        WorldObject::Tree => TREE_HITS,
        WorldObject::Rock => ROCK_HITS,
        _ => 0,
    }
}

/// Both coordinates of `p` lie in the band whose tile index fits in `i32`.
pub open spec fn in_world_bounds(p: WorldPos) -> bool {
    WORLD_MIN_COORD <= p.x <= WORLD_MAX_COORD && WORLD_MIN_COORD <= p.y <= WORLD_MAX_COORD
}

/// The tile index of a world coordinate: the quotient by `TILE_SIZE`,
/// rounded toward negative infinity (spec-level `/` on `int` is Euclidean,
/// which is flooring for a positive divisor).
pub open spec fn spec_coord_to_tile(c: i64) -> int {
    c as int / (TILE_SIZE as int)
}

/// The tile containing a world position.
pub open spec fn spec_world_to_grid(p: WorldPos) -> Tile {
    Tile { x: spec_coord_to_tile(p.x) as i32, y: spec_coord_to_tile(p.y) as i32 }
}

/// The world-space center point of a tile.
pub open spec fn spec_grid_to_world(t: Tile) -> WorldPos {
    WorldPos {
        x: (t.x * (TILE_SIZE as int) + TILE_HALF) as i64,
        y: (t.y * (TILE_SIZE as int) + TILE_HALF) as i64,
    }
}

/// No two placements occupy the same tile.
pub open spec fn tiles_distinct(s: Seq<Placement>) -> bool {
    forall|i: int, j: int| 0 <= i < j < s.len() ==> s[i].tile != s[j].tile
}

/// The normalized selection rectangle spanned by two arbitrary corners:
/// the componentwise minimum and maximum of the corners' tiles, so a drag
/// in any of the four diagonal directions yields the same rectangle.
pub open spec fn spec_norm_rect(a: WorldPos, b: WorldPos) -> (Tile, Tile) {
    let ta = spec_world_to_grid(a);
    let tb = spec_world_to_grid(b);
    (
        Tile {
            x: if ta.x <= tb.x { ta.x } else { tb.x },
            y: if ta.y <= tb.y { ta.y } else { tb.y },
        },
        Tile {
            x: if ta.x >= tb.x { ta.x } else { tb.x },
            y: if ta.y >= tb.y { ta.y } else { tb.y },
        },
    )
}

/// `t` lies inside the inclusive rectangle from `lo` to `hi`.
pub open spec fn spec_in_rect(t: Tile, lo: Tile, hi: Tile) -> bool {
    lo.x <= t.x <= hi.x && lo.y <= t.y <= hi.y
}

/// The placements of `s` whose tile falls inside the rectangle spanned by
/// the corners `a` and `b`, in scan order.
pub open spec fn spec_objects_in_rect(s: Seq<Placement>, a: WorldPos, b: WorldPos) -> Seq<
    Placement,
> {
    let rect = spec_norm_rect(a, b);
    s.filter(|p: Placement| spec_in_rect(p.tile, rect.0, rect.1))
}

/// Floored division of a world coordinate by the tile size.
fn coord_to_tile(c: i64) -> (r: i64)
    ensures
        r == spec_coord_to_tile(c),
{
    if c >= 0 {
        c / TILE_SIZE
    } else {
        let m = -1 - c;
        let q = m / TILE_SIZE;
        proof {
            lemma_fundamental_div_mod_converse(
                c as int,
                TILE_SIZE as int,
                -1 - q,
                TILE_SIZE - 1 - (m as int % (TILE_SIZE as int)),
            );
        }
        -1 - q
    }
}

/// The authoritative mapping from tiles to placed objects, together with
/// the player's current selection rectangle (a pair of world-space anchor
/// corners, normalized on read).
pub struct Grid {
    placements: Vec<Placement>,
    selection: Option<(WorldPos, WorldPos)>,
}

impl View for Grid {
    type V = Seq<Placement>;

    closed spec fn view(&self) -> Seq<Placement> {
        self.placements@
    }
}

impl Grid {
    /// The current selection corners, if a drag is in progress.
    pub closed spec fn spec_selection(self) -> Option<(WorldPos, WorldPos)> {
        self.selection
    }

    /// Some placement occupies tile `t`.
    pub open spec fn spec_occupied(self, t: Tile) -> bool {
        exists|i: int| 0 <= i < self@.len() && self@[i].tile == t
    }

    /// Tile `t` carries no placement.
    pub open spec fn spec_is_free(self, t: Tile) -> bool {
        !self.spec_occupied(t)
    }

    /// The index of the placement at tile `t` (meaningful when occupied;
    /// unique under `wf`).
    pub open spec fn spec_index_of(self, t: Tile) -> int {
        choose|i: int| 0 <= i < self@.len() && self@[i].tile == t
    }

    /// The placement at tile `t`, if any.
    pub open spec fn spec_get(self, t: Tile) -> Option<Placement> {
        if self.spec_occupied(t) {
            Some(self@[self.spec_index_of(t)])
        } else {
            None
        }
    }

    /// Well-formedness: each tile is associated with at most one placement,
    /// and the selection corners, if any, lie in world bounds.
    pub open spec fn wf(self) -> bool {
        &&& tiles_distinct(self@)
        &&& forall|i: int|
            0 <= i < self@.len() && is_obstacle(#[trigger] self@[i].object) ==> self@[i].damage
                >= 1
        &&& match self.spec_selection() {
            Some((a, b)) => in_world_bounds(a) && in_world_bounds(b),
            None => true,
        }
    }

    /// An empty grid with no selection.
    pub fn new() -> (g: Grid)
        ensures
            g@.len() == 0,
            g.spec_selection() is None,
            g.wf(),
    {
        Grid { placements: Vec::new(), selection: None }
    }

    /// The tile containing a world position: floor-divide by the tile size
    /// on both axes, rounding toward negative infinity.
    pub fn world_to_grid(&self, pos: WorldPos) -> (t: Tile)
        requires
            in_world_bounds(pos),
        ensures
            t == spec_world_to_grid(pos),
    {
        proof {
            lemma_div_is_ordered(WORLD_MIN_COORD as int, pos.x as int, TILE_SIZE as int);
            lemma_div_is_ordered(pos.x as int, WORLD_MAX_COORD as int, TILE_SIZE as int);
            lemma_div_is_ordered(WORLD_MIN_COORD as int, pos.y as int, TILE_SIZE as int);
            lemma_div_is_ordered(pos.y as int, WORLD_MAX_COORD as int, TILE_SIZE as int);
            lemma_fundamental_div_mod_converse(
                WORLD_MIN_COORD as int,
                TILE_SIZE as int,
                i32::MIN as int,
                0,
            );
            lemma_fundamental_div_mod_converse(
                WORLD_MAX_COORD as int,
                TILE_SIZE as int,
                i32::MAX as int,
                49,
            );
        }
        Tile { x: coord_to_tile(pos.x) as i32, y: coord_to_tile(pos.y) as i32 }
    }

    /// The world-space center of a tile (`tile * size + size/2`), used for
    /// centering objects on their tile.
    pub fn grid_to_world(&self, t: Tile) -> (pos: WorldPos)
        ensures
            pos == spec_grid_to_world(t),
            in_world_bounds(pos),
    {
        WorldPos { x: t.x as i64 * TILE_SIZE + TILE_HALF, y: t.y as i64 * TILE_SIZE + TILE_HALF }
    }

    /// Snap an arbitrary world position to the center of its tile.
    pub fn cursor_to_world(&self, pos: WorldPos) -> (r: WorldPos)
        requires
            in_world_bounds(pos),
        ensures
            r == spec_grid_to_world(spec_world_to_grid(pos)),
            in_world_bounds(r),
    {
        let t = self.world_to_grid(pos);
        self.grid_to_world(t)
    }

    /// True iff no placement occupies the tile containing `pos`.
    pub fn is_free(&self, pos: WorldPos) -> (r: bool)
        requires
            in_world_bounds(pos),
        ensures
            r == self.spec_is_free(spec_world_to_grid(pos)),
    {
        let t = self.world_to_grid(pos);
        let n = self.placements.len();
        let mut i: usize = 0;
        while i < n
            invariant
                n == self@.len(),
                0 <= i <= n,
                forall|j: int| 0 <= j < i ==> self@[j].tile != t,
            decreases n - i,
        {
            if self.placements[i].tile == t {
                return false;
            }
            i += 1;
        }
        true
    }

    /// The placement occupying the tile containing `pos`, if any.
    pub fn get_object(&self, pos: WorldPos) -> (r: Option<Placement>)
        requires
            in_world_bounds(pos),
        ensures
            match r {
                Some(p) => self@.contains(p) && p.tile == spec_world_to_grid(pos),
                None => self.spec_is_free(spec_world_to_grid(pos)),
            },
            r is Some <==> self.spec_occupied(spec_world_to_grid(pos)),
    {
        let t = self.world_to_grid(pos);
        self.get_at(t)
    }

    /// The placement occupying tile `t`, if any.
    pub fn get_at(&self, t: Tile) -> (r: Option<Placement>)
        ensures
            match r {
                Some(p) => self@.contains(p) && p.tile == t,
                None => self.spec_is_free(t),
            },
            r is Some <==> self.spec_occupied(t),
    {
        let n = self.placements.len();
        let mut i: usize = 0;
        while i < n
            invariant
                n == self@.len(),
                0 <= i <= n,
                forall|j: int| 0 <= j < i ==> self@[j].tile != t,
            decreases n - i,
        {
            if self.placements[i].tile == t {
                return Some(self.placements[i]);
            }
            i += 1;
        }
        None
    }

    /// Insert a placement at the tile containing `pos`, with the hit points
    /// its kind starts with. Rejects an already-occupied tile (reporting
    /// `false`) rather than silently duplicating.
    pub fn place_object(&mut self, id: u64, pos: WorldPos, object: WorldObject) -> (r: bool)
        requires
            in_world_bounds(pos),
            old(self).wf(),
        ensures
            r == old(self).spec_is_free(spec_world_to_grid(pos)),
            r ==> final(self)@ == old(self)@.push(
                Placement {
                    id,
                    tile: spec_world_to_grid(pos),
                    object,
                    damage: initial_damage(object),
                    planted_at: 0,
                },
            ),
            !r ==> final(self)@ == old(self)@,
            final(self).spec_selection() == old(self).spec_selection(),
            final(self).wf(),
    {
        if !self.is_free(pos) {
            return false;
        }
        let t = self.world_to_grid(pos);
        let damage = match object {
            WorldObject::Tree => TREE_HITS,
            WorldObject::Rock => ROCK_HITS,
            _ => 0,
        };
        self.placements.push(Placement { id, tile: t, object, damage, planted_at: 0 });
        true
    }

    /// Delete the placement (if any) occupying the tile containing `pos`;
    /// a no-op if the tile is free.
    pub fn remove_object(&mut self, pos: WorldPos)
        requires
            in_world_bounds(pos),
            old(self).wf(),
        ensures
            ({
                let t = spec_world_to_grid(pos);
                if old(self).spec_occupied(t) {
                    final(self)@ == old(self)@.remove(old(self).spec_index_of(t))
                } else {
                    final(self)@ == old(self)@
                }
            }),
            final(self).spec_is_free(spec_world_to_grid(pos)),
            final(self).spec_selection() == old(self).spec_selection(),
            final(self).wf(),
    {
        let t = self.world_to_grid(pos);
        let ghost s0 = self@;
        let n = self.placements.len();
        let mut i: usize = 0;
        while i < n
            invariant
                n == self@.len(),
                self@ == s0,
                self.spec_selection() == old(self).spec_selection(),
                0 <= i <= n,
                forall|j: int| 0 <= j < i ==> self@[j].tile != t,
            decreases n - i,
        {
            if self.placements[i].tile == t {
                self.placements.remove(i);
                proof {
                    assert(old(self).spec_occupied(t));
                    assert(old(self).spec_index_of(t) == i) by {
                        let k = old(self).spec_index_of(t);
                        assert(0 <= k < s0.len() && s0[k].tile == t);
                    }
                    assert forall|k: int| 0 <= k < self@.len() implies self@[k].tile != t by {
                        if k < i {
                            assert(self@[k] == s0[k]);
                        } else {
                            assert(self@[k] == s0[k + 1]);
                        }
                    }
                }
                return ;
            }
            i += 1;
        }
        proof {
            assert(!old(self).spec_occupied(t));
        }
    }

    /// Update the placement at tile `t` in place (same position in scan
    /// order), keeping the tile occupied by the new record.
    pub(crate) fn replace_at(&mut self, t: Tile, p: Placement)
        requires
            old(self).wf(),
            old(self).spec_occupied(t),
            p.tile == t,
            is_obstacle(p.object) ==> p.damage >= 1,
        ensures
            final(self)@ == old(self)@.update(old(self).spec_index_of(t), p),
            final(self).spec_selection() == old(self).spec_selection(),
            final(self).wf(),
    {
        let ghost s0 = self@;
        let n = self.placements.len();
        let mut i: usize = 0;
        while i < n
            invariant
                n == self@.len(),
                self@ == s0,
                self.spec_selection() == old(self).spec_selection(),
                0 <= i <= n,
                forall|j: int| 0 <= j < i ==> self@[j].tile != t,
            decreases n - i,
        {
            if self.placements[i].tile == t {
                self.placements.set(i, p);
                proof {
                    assert(old(self).spec_index_of(t) == i) by {
                        let k = old(self).spec_index_of(t);
                        assert(0 <= k < s0.len() && s0[k].tile == t);
                    }
                    assert(tiles_distinct(self@)) by {
                        assert forall|a: int, b: int|
                            0 <= a < b < self@.len() implies self@[a].tile != self@[b].tile by {
                            if a != i && b != i {
                                assert(self@[a] == s0[a] && self@[b] == s0[b]);
                            }
                        }
                    }
                }
                return ;
            }
            i += 1;
        }
        proof {
            assert(false);
        }
    }

    /// Start a new selection drag anchored at `pos`, replacing any prior
    /// selection.
    pub fn begin_selection(&mut self, pos: WorldPos)
        requires
            in_world_bounds(pos),
            old(self).wf(),
        ensures
            final(self)@ == old(self)@,
            final(self).spec_selection() == Some((pos, pos)),
            final(self).wf(),
    {
        self.selection = Some((pos, pos));
    }

    /// Extend the current drag: keep the anchor corner, move the other
    /// corner to `pos`.
    pub fn extend_selection(&mut self, pos: WorldPos)
        requires
            in_world_bounds(pos),
            old(self).wf(),
            old(self).spec_selection() is Some,
        ensures
            final(self)@ == old(self)@,
            final(self).spec_selection() == Some(
                (old(self).spec_selection()->Some_0.0, pos),
            ),
            final(self).wf(),
    {
        match self.selection {
            Some((a, _)) => {
                self.selection = Some((a, pos));
            },
            None => {
            },
        }
    }

    /// Drop the current selection, if any.
    pub fn clear_selection(&mut self)
        requires
            old(self).wf(),
        ensures
            final(self)@ == old(self)@,
            final(self).spec_selection() is None,
            final(self).wf(),
    {
        self.selection = None;
    }

    /// How many placements the grid holds.
    pub fn len(&self) -> (n: usize)
        ensures
            n == self@.len(),
    {
        self.placements.len()
    }

    /// The placement at scan-order position `i`.
    pub fn placement(&self, i: usize) -> (p: Placement)
        requires
            i < self@.len(),
        ensures
            p == self@[i as int],
    {
        self.placements[i]
    }

    /// The current selection corners, if a drag is in progress.
    pub fn selection(&self) -> (r: Option<(WorldPos, WorldPos)>)
        ensures
            r == self.spec_selection(),
    {
        self.selection
    }

    /// Every placement whose tile falls inside the normalized selection
    /// rectangle, in scan order; empty when no selection exists.
    pub fn get_objects_in_selection(&self) -> (r: Vec<Placement>)
        requires
            self.wf(),
        ensures
            match self.spec_selection() {
                Some((a, b)) => r@ == spec_objects_in_rect(self@, a, b),
                None => r@.len() == 0,
            },
    {
        let (a, b) = match self.selection {
            Some(corners) => corners,
            None => {
                return Vec::new();
            },
        };
        let ta = self.world_to_grid(a);
        let tb = self.world_to_grid(b);
        let lo = Tile {
            x: if ta.x <= tb.x { ta.x } else { tb.x },
            y: if ta.y <= tb.y { ta.y } else { tb.y },
        };
        let hi = Tile {
            x: if ta.x >= tb.x { ta.x } else { tb.x },
            y: if ta.y >= tb.y { ta.y } else { tb.y },
        };
        let ghost rect = spec_norm_rect(a, b);
        let ghost pred = |p: Placement| spec_in_rect(p.tile, rect.0, rect.1);
        let mut r: Vec<Placement> = Vec::new();
        let n = self.placements.len();
        let mut i: usize = 0;
        while i < n
            invariant
                n == self@.len(),
                0 <= i <= n,
                lo == rect.0,
                hi == rect.1,
                pred == (|p: Placement| spec_in_rect(p.tile, rect.0, rect.1)),
                r@ == self@.take(i as int).filter(pred),
            decreases n - i,
        {
            let p = self.placements[i];
            proof {
                reveal(Seq::filter);
                assert(self@.take(i + 1).drop_last() =~= self@.take(i as int));
                assert(self@.take(i + 1).last() == p);
            }
            if lo.x <= p.tile.x && p.tile.x <= hi.x && lo.y <= p.tile.y && p.tile.y <= hi.y {
                r.push(p);
            }
            i += 1;
        }
        proof {
            assert(self@.take(n as int) =~= self@);
        }
        r
    }
}

/// Law: mapping a tile to its world-space center and back recovers the
/// same tile, for every tile.
pub proof fn law_tile_roundtrip(t: Tile)
    ensures
        spec_world_to_grid(spec_grid_to_world(t)) == t,
{
    lemma_fundamental_div_mod_converse(
        t.x * (TILE_SIZE as int) + TILE_HALF,
        TILE_SIZE as int,
        t.x as int,
        TILE_HALF as int,
    );
    lemma_fundamental_div_mod_converse(
        t.y * (TILE_SIZE as int) + TILE_HALF,
        TILE_SIZE as int,
        t.y as int,
        TILE_HALF as int,
    );
}

/// Law: a tile is free exactly when lookup at that tile returns nothing.
pub proof fn law_free_iff_get_none(g: Grid, t: Tile)
    ensures
        g.spec_is_free(t) <==> g.spec_get(t) is None,
{
}

/// Law: dragging a selection from corner `a` to corner `b` and from `b` to
/// `a` normalize to the same rectangle and select the same placements, in
/// the same order.
pub proof fn law_selection_normalization(s: Seq<Placement>, a: WorldPos, b: WorldPos)
    ensures
        spec_norm_rect(a, b) == spec_norm_rect(b, a),
        spec_objects_in_rect(s, a, b) == spec_objects_in_rect(s, b, a),
{
    let rect = spec_norm_rect(a, b);
    let f = |p: Placement| spec_in_rect(p.tile, spec_norm_rect(a, b).0, spec_norm_rect(a, b).1);
    let g = |p: Placement| spec_in_rect(p.tile, spec_norm_rect(b, a).0, spec_norm_rect(b, a).1);
    assert(f =~= g);
}

} // verus!

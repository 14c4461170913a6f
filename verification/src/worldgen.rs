//! World generation: scatter trees, rocks and grass at random positions.
//!
//! Each kind is placed on randomly drawn positions in the spawn band,
//! skipping positions near the player's starting point (for trees and
//! rocks) and already-occupied tiles, until the requested count stands or
//! an attempt budget runs out — the budget bounds a loop that the chance
//! of collisions could otherwise extend without limit.

use vstd::prelude::*;
use rand::Rng;
use crate::grid::{Grid, WorldObject, WorldPos, initial_damage, spec_world_to_grid};

verus! {

/// Objects are scattered at world coordinates drawn from
/// `[-SPAWN_BAND, SPAWN_BAND)` on each axis.
pub const SPAWN_BAND: i64 = 700;

/// Trees and rocks keep this far (in world units, per axis) from the
/// player's starting point at the origin.
pub const SPAWN_CLEARANCE: i64 = 100;

/// How many of each kind world generation aims to place.
pub const SPAWN_COUNT: usize = 20;

/// Relies on `rand::Rng::gen_range` on the thread-local generator: it
/// returns a uniformly drawn value of the half-open range, and panics only
/// on an empty range, which the precondition rules out. Nothing more is
/// promised of a random value.
#[verifier::external_body]
fn random_in_range(lo: i64, hi: i64) -> (r: i64)
    requires
        lo < hi,
    ensures
        lo <= r < hi,
{
    rand::thread_rng().gen_range(lo..hi)
}

/// The new placements appended by a scatter run: each has the requested
/// kind, its starting hit points, a consecutive handle from `first_id`,
/// and a tile drawn from the spawn band (outside the clearance cross when
/// `avoid_spawn` is set).
pub open spec fn spec_scattered(
    s0: Seq<crate::grid::Placement>,
    s1: Seq<crate::grid::Placement>,
    object: WorldObject,
    first_id: u64,
    avoid_spawn: bool,
) -> bool {
    &&& s1.len() >= s0.len()
    &&& forall|i: int| 0 <= i < s0.len() ==> s1[i] == s0[i]
    &&& forall|i: int|
        s0.len() <= i < s1.len() ==> {
            let p = #[trigger] s1[i];
            &&& p.object == object
            &&& p.damage == initial_damage(object)
            &&& p.planted_at == 0
            &&& p.id == first_id + (i - s0.len())
            &&& -14 <= p.tile.x <= 13
            &&& -14 <= p.tile.y <= 13
            &&& avoid_spawn ==> (p.tile.x <= -2 || p.tile.x >= 2) && (p.tile.y <= -2 || p.tile.y
                >= 2)
        }
}

/// Scatter up to `target` objects of one kind on free tiles at random
/// positions, giving them consecutive handles starting at `first_id`.
/// Each loop turn spends one attempt whether or not it places; the count
/// placed is returned.
pub fn scatter_objects(
    grid: &mut Grid,
    object: WorldObject,
    target: usize,
    avoid_spawn: bool,
    first_id: u64,
    max_attempts: usize,
) -> (placed: usize)
    requires
        old(grid).wf(),
        first_id + target <= u64::MAX,
    ensures
        final(grid).wf(),
        final(grid).spec_selection() == old(grid).spec_selection(),
        placed <= target,
        final(grid)@.len() == old(grid)@.len() + placed,
        spec_scattered(old(grid)@, final(grid)@, object, first_id, avoid_spawn),
{
    let ghost s0 = grid@;
    let mut placed: usize = 0;
    let mut attempts: usize = 0;
    while placed < target && attempts < max_attempts
        invariant
            0 <= placed <= target,
            grid.wf(),
            grid.spec_selection() == old(grid).spec_selection(),
            grid@.len() == s0.len() + placed,
            spec_scattered(s0, grid@, object, first_id, avoid_spawn),
        decreases max_attempts - attempts,
    {
        attempts += 1;
        let x = random_in_range(-SPAWN_BAND, SPAWN_BAND);
        let y = random_in_range(-SPAWN_BAND, SPAWN_BAND);
        let pos = WorldPos { x, y };
        if avoid_spawn && ((x < SPAWN_CLEARANCE && x > -SPAWN_CLEARANCE) || (y < SPAWN_CLEARANCE
            && y > -SPAWN_CLEARANCE)) {
            continue ;
        }
        if grid.is_free(pos) {
            let id = first_id + placed as u64;
            let ok = grid.place_object(id, pos, object);
            proof {
                assert(ok);
                assert(spec_world_to_grid(pos).x <= 13 && spec_world_to_grid(pos).x >= -14);
                assert(spec_world_to_grid(pos).y <= 13 && spec_world_to_grid(pos).y >= -14);
            }
            placed += 1;
        }
    }
    placed
}

/// Populate a fresh world with trees (kept clear of the starting point).
pub fn spawn_trees(grid: &mut Grid, first_id: u64, max_attempts: usize) -> (placed: usize)
    requires
        old(grid).wf(),
        first_id + SPAWN_COUNT <= u64::MAX,
    ensures
        final(grid).wf(),
        final(grid).spec_selection() == old(grid).spec_selection(),
        placed <= SPAWN_COUNT,
        final(grid)@.len() == old(grid)@.len() + placed,
        spec_scattered(old(grid)@, final(grid)@, WorldObject::Tree, first_id, true),
{
    scatter_objects(grid, WorldObject::Tree, SPAWN_COUNT, true, first_id, max_attempts)
}

/// Populate a fresh world with rocks (kept clear of the starting point).
pub fn spawn_rocks(grid: &mut Grid, first_id: u64, max_attempts: usize) -> (placed: usize)
    requires
        old(grid).wf(),
        first_id + SPAWN_COUNT <= u64::MAX,
    ensures
        final(grid).wf(),
        final(grid).spec_selection() == old(grid).spec_selection(),
        placed <= SPAWN_COUNT,
        final(grid)@.len() == old(grid)@.len() + placed,
        spec_scattered(old(grid)@, final(grid)@, WorldObject::Rock, first_id, true),
{
    scatter_objects(grid, WorldObject::Rock, SPAWN_COUNT, true, first_id, max_attempts)
}

/// Populate a fresh world with grass (anywhere in the spawn band).
pub fn spawn_grass(grid: &mut Grid, first_id: u64, max_attempts: usize) -> (placed: usize)
    requires
        old(grid).wf(),
        first_id + SPAWN_COUNT <= u64::MAX,
    ensures
        final(grid).wf(),
        final(grid).spec_selection() == old(grid).spec_selection(),
        placed <= SPAWN_COUNT,
        final(grid)@.len() == old(grid)@.len() + placed,
        spec_scattered(old(grid)@, final(grid)@, WorldObject::Grass, first_id, false),
{
    scatter_objects(grid, WorldObject::Grass, SPAWN_COUNT, false, first_id, max_attempts)
}

} // verus!

//! Player interactions: harvesting trees and rocks, collecting dropped
//! pickups, digging flowerbeds and planting seeds.
//!
//! On an interact press the nearest harvestable object is selected by
//! Euclidean distance from the player; within the break range, and with
//! the matching tool equipped, its hit points drop by one, and at zero the
//! object leaves the grid and a pickup appears in its place. Pickups are
//! folded into the inventory by a proximity check each tick.

use vstd::prelude::*;
use crate::grid::{
    Grid,
    Placement,
    Tile,
    WorldObject,
    WorldPos,
    in_world_bounds,
    is_obstacle,
    spec_grid_to_world,
    spec_world_to_grid,
    law_tile_roundtrip,
};
use crate::inventory::{Inventory, InventoryObject};

verus! {

/// A harvest press reaches an object strictly closer than this many world
/// units.
pub const BREAK_RANGE: i64 = 80;

/// A pickup is collected when the player is strictly closer than this
/// many world units.
pub const PICKUP_RANGE: i64 = 80;

/// A pickup lying in the world, waiting to be collected.
#[derive(Clone, Copy, PartialEq, Eq, Structural, Debug)]
pub struct DropItem {
    pub id: u64,
    pub object: InventoryObject,
    pub pos: WorldPos,
}

/// The squared Euclidean distance between two world positions.
pub open spec fn spec_dist2(p: WorldPos, q: WorldPos) -> int {
    (p.x - q.x) * (p.x - q.x) + (p.y - q.y) * (p.y - q.y)
}

/// `q` lies strictly within `range` world units of `p`.
pub open spec fn spec_within(p: WorldPos, q: WorldPos, range: i64) -> bool {
    spec_dist2(p, q) < range * range
}

/// The squared distance between two in-bounds world positions (computed
/// in 128 bits: coordinates reach about `2^37`, so squares need more than
/// 64 bits).
fn dist2(p: WorldPos, q: WorldPos) -> (r: i128)
    requires
        in_world_bounds(p),
        in_world_bounds(q),
    ensures
        r == spec_dist2(p, q),
{
    let dx: i128 = p.x as i128 - q.x as i128;
    let dy: i128 = p.y as i128 - q.y as i128;
    proof {
        assert(dx * dx + dy * dy <= 0x100000000000000000000000i128) by (nonlinear_arith)
            requires
                -0x8000000000 <= dx <= 0x8000000000,
                -0x8000000000 <= dy <= 0x8000000000,
        ;
        assert(dx * dx >= 0 && dy * dy >= 0) by (nonlinear_arith);
    }
    dx * dx + dy * dy
}

/// Index `i` holds the nearest harvestable placement: it is a tree or
/// rock, and every other tree or rock is strictly farther from the player,
/// or equally far but later in scan order (the scan keeps the first of
/// equals).
pub open spec fn spec_is_nearest(s: Seq<Placement>, player: WorldPos, i: int) -> bool {
    &&& 0 <= i < s.len()
    &&& is_obstacle(s[i].object)
    &&& forall|j: int|
        0 <= j < s.len() && is_obstacle(#[trigger] s[j].object) ==> spec_dist2(
            player,
            spec_grid_to_world(s[i].tile),
        ) < spec_dist2(player, spec_grid_to_world(s[j].tile)) || (spec_dist2(
            player,
            spec_grid_to_world(s[i].tile),
        ) == spec_dist2(player, spec_grid_to_world(s[j].tile)) && i <= j)
}

/// The nearest harvestable placement, if any tree or rock stands in the
/// world.
pub open spec fn spec_nearest(s: Seq<Placement>, player: WorldPos) -> Option<Placement> {
    if exists|i: int| spec_is_nearest(s, player, i) {
        Some(s[choose|i: int| spec_is_nearest(s, player, i)])
    } else {
        None
    }
}

/// Scan all placements and return the nearest harvestable one (ties keep
/// the earliest in scan order).
fn nearest_harvestable(grid: &Grid, player: WorldPos) -> (r: Option<Placement>)
    requires
        in_world_bounds(player),
    ensures
        r == spec_nearest(grid@, player),
{
    let ghost s = grid@;
    let n = grid.len();
    let mut best: Option<(usize, i128)> = None;
    let mut i: usize = 0;
    while i < n
        invariant
            n == s.len(),
            0 <= i <= n,
            match best {
                None => forall|j: int| 0 <= j < i ==> !is_obstacle(#[trigger] s[j].object),
                Some((bi, bd)) => {
                    &&& 0 <= bi < i
                    &&& is_obstacle(s[bi as int].object)
                    &&& bd == spec_dist2(player, spec_grid_to_world(s[bi as int].tile))
                    &&& forall|j: int|
                        0 <= j < i && is_obstacle(#[trigger] s[j].object) ==> bd < spec_dist2(
                            player,
                            spec_grid_to_world(s[j].tile),
                        ) || (bd == spec_dist2(player, spec_grid_to_world(s[j].tile)) && bi <= j)
                },
            },
        decreases n - i,
    {
        let p = grid.placement(i);
        let harvestable = match p.object {
            WorldObject::Tree => true,
            WorldObject::Rock => true,
            _ => false,
        };
        if harvestable {
            let d = dist2(player, tile_center(p.tile));
            match best {
                None => {
                    best = Some((i, d));
                },
                Some((_, bd)) => {
                    if d < bd {
                        best = Some((i, d));
                    }
                },
            }
        }
        i += 1;
    }
    match best {
        Some((bi, _)) => {
            proof {
                assert(spec_is_nearest(s, player, bi as int));
                let k = choose|k: int| spec_is_nearest(s, player, k);
                assert(spec_is_nearest(s, player, k));
                assert(k == bi as int);
            }
            Some(grid.placement(bi))
        },
        None => {
            proof {
                assert forall|k: int| !spec_is_nearest(s, player, k) by {}
            }
            None
        },
    }
}

/// The world-space center of a tile (standalone form of
/// `Grid::grid_to_world`).
fn tile_center(t: Tile) -> (pos: WorldPos)
    ensures
        pos == spec_grid_to_world(t),
        in_world_bounds(pos),
{
    WorldPos {
        x: t.x as i64 * crate::grid::TILE_SIZE + crate::grid::TILE_HALF,
        y: t.y as i64 * crate::grid::TILE_SIZE + crate::grid::TILE_HALF,
    }
}

/// The pickup kind a destroyed object turns into.
pub open spec fn spec_drop_of(o: WorldObject) -> InventoryObject {
    match o {
        WorldObject::Tree => InventoryObject::Wood,
        _ => InventoryObject::Rocks,
    }
}

/// What an interact press did.
#[derive(Clone, Copy, PartialEq, Eq, Structural, Debug)]
pub enum BreakOutcome {
    /// Neither the axe nor the pickaxe is equipped; the press is not a
    /// harvest attempt.
    Idle,
    /// No harvestable object exists anywhere.
    NoTarget,
    /// The nearest harvestable object is out of reach.
    OutOfRange { tile: Tile },
    /// The nearest harvestable object does not match the equipped tool.
    WrongTool { tile: Tile },
    /// The object lost one hit point and survives with `remaining`.
    Damaged { tile: Tile, object: WorldObject, remaining: i64 },
    /// The object's hit points reached zero: it left the grid and a
    /// pickup of kind `drop` was spawned at its former position.
    Destroyed { tile: Tile, object: WorldObject, drop: InventoryObject },
}

/// The full effect of one interact press on the grid and the pickup list,
/// given the pre-state `g0`/`d0`, the equipped item and the player's
/// position. Shared by `break_press` and the task executor, which triggers
/// the same interaction on arrival.
pub open spec fn spec_break_post(
    g0: Grid,
    d0: Seq<DropItem>,
    eqp: Option<InventoryObject>,
    player: WorldPos,
    g1: Grid,
    d1: Seq<DropItem>,
    r: BreakOutcome,
) -> bool {
    let unchanged = g1@ == g0@ && g1.spec_selection() == g0.spec_selection() && d1 == d0;
    let has_tool = eqp == Some(InventoryObject::Axe) || eqp == Some(InventoryObject::Pickaxe);
    if !has_tool {
        r == BreakOutcome::Idle && unchanged
    } else {
        match spec_nearest(g0@, player) {
            None => r == BreakOutcome::NoTarget && unchanged,
            Some(p) => {
                let center = spec_grid_to_world(p.tile);
                let tool_ok = (p.object == WorldObject::Tree && eqp == Some(InventoryObject::Axe))
                    || (p.object == WorldObject::Rock && eqp == Some(InventoryObject::Pickaxe));
                if !spec_within(player, center, BREAK_RANGE) {
                    r == (BreakOutcome::OutOfRange { tile: p.tile }) && unchanged
                } else if !tool_ok {
                    r == (BreakOutcome::WrongTool { tile: p.tile }) && unchanged
                } else if p.damage > 1 {
                    &&& r == (BreakOutcome::Damaged {
                        tile: p.tile,
                        object: p.object,
                        remaining: (p.damage - 1) as i64,
                    })
                    &&& g1@ == g0@.update(
                        g0.spec_index_of(p.tile),
                        Placement { damage: (p.damage - 1) as i64, ..p },
                    )
                    &&& g1.spec_selection() == g0.spec_selection()
                    &&& d1 == d0
                } else {
                    &&& r == (BreakOutcome::Destroyed {
                        tile: p.tile,
                        object: p.object,
                        drop: spec_drop_of(p.object),
                    })
                    &&& g1@ == g0@.remove(g0.spec_index_of(p.tile))
                    &&& g1.spec_selection() == g0.spec_selection()
                    &&& d1 == d0.push(
                        DropItem { id: p.id, object: spec_drop_of(p.object), pos: center },
                    )
                }
            },
        }
    }
}

/// On an interact press with the axe or pickaxe equipped: find the nearest
/// harvestable object; if it is within reach and matches the tool, lower
/// its hit points by one; at zero, despawn it from the grid and spawn the
/// corresponding pickup (wood or rocks) at its former position.
pub fn break_press(grid: &mut Grid, inv: &Inventory, drops: &mut Vec<DropItem>, player: WorldPos)
    -> (r: BreakOutcome)
    requires
        old(grid).wf(),
        in_world_bounds(player),
    ensures
        final(grid).wf(),
        spec_break_post(
            *old(grid),
            old(drops)@,
            inv.spec_equipped(),
            player,
            *final(grid),
            final(drops)@,
            r,
        ),
{
    let has_tool = inv.is_equipped(InventoryObject::Axe) || inv.is_equipped(
        InventoryObject::Pickaxe,
    );
    if !has_tool {
        return BreakOutcome::Idle;
    }
    let p = match nearest_harvestable(grid, player) {
        Some(p) => p,
        None => {
            return BreakOutcome::NoTarget;
        },
    };
    let center = tile_center(p.tile);
    if dist2(player, center) >= (BREAK_RANGE as i128) * (BREAK_RANGE as i128) {
        return BreakOutcome::OutOfRange { tile: p.tile };
    }
    let tool_ok = (matches!(p.object, WorldObject::Tree) && inv.is_equipped(InventoryObject::Axe))
        || (matches!(p.object, WorldObject::Rock) && inv.is_equipped(InventoryObject::Pickaxe));
    if !tool_ok {
        return BreakOutcome::WrongTool { tile: p.tile };
    }
    proof {
        assert(grid@.contains(p)) by {
            let k = choose|k: int| spec_is_nearest(grid@, player, k);
            assert(grid@[k] == p);
        }
        assert(grid.spec_occupied(p.tile)) by {
            let k = choose|k: int| 0 <= k < grid@.len() && grid@[k] == p;
            assert(grid@[k].tile == p.tile);
        }
    }
    if p.damage > 1 {
        let updated = Placement {
            id: p.id,
            tile: p.tile,
            object: p.object,
            damage: p.damage - 1,
            planted_at: p.planted_at,
        };
        grid.replace_at(p.tile, updated);
        BreakOutcome::Damaged { tile: p.tile, object: p.object, remaining: p.damage - 1 }
    } else {
        proof {
            law_tile_roundtrip(p.tile);
        }
        grid.remove_object(center);
        let drop = match p.object {
            WorldObject::Tree => InventoryObject::Wood,
            _ => InventoryObject::Rocks,
        };
        drops.push(DropItem { id: p.id, object: drop, pos: center });
        BreakOutcome::Destroyed { tile: p.tile, object: p.object, drop }
    }
}

/// How many pickups of kind `k` in `s` lie within collection range of the
/// player.
pub open spec fn spec_collected(s: Seq<DropItem>, player: WorldPos, k: InventoryObject) -> int {
    s.filter(|d: DropItem| spec_within(player, d.pos, PICKUP_RANGE) && d.object == k).len() as int
}

/// Extending a pickup prefix by one item raises the collected tally of its
/// kind exactly when it is in range.
proof fn lemma_collected_step(s: Seq<DropItem>, player: WorldPos, i: int, k: InventoryObject)
    requires
        0 <= i < s.len(),
    ensures
        spec_collected(s.take(i + 1), player, k) == spec_collected(s.take(i), player, k) + if
        spec_within(player, s[i].pos, PICKUP_RANGE) && s[i].object == k {
            1int
        } else {
            0int
        },
{
    reveal(Seq::filter);
    assert(s.take(i + 1).drop_last() =~= s.take(i));
    assert(s.take(i + 1).last() == s[i]);
}

/// Collect every pickup within range of the player: each one is folded
/// into the inventory counts and removed from the world; pickups out of
/// range stay, in order. Returns how many were collected.
pub fn collect_drops(drops: &mut Vec<DropItem>, inv: &mut Inventory, player: WorldPos) -> (collected:
    usize)
    requires
        in_world_bounds(player),
        forall|i: int| 0 <= i < old(drops)@.len() ==> in_world_bounds((#[trigger] old(drops)@[i]).pos),
        forall|k: InventoryObject|
            #[trigger] old(inv).spec_count(k) + old(drops)@.len() <= i64::MAX,
    ensures
        final(drops)@ == old(drops)@.filter(
            (|d: DropItem| !spec_within(player, d.pos, PICKUP_RANGE)),
        ),
        forall|k: InventoryObject|
            #[trigger] final(inv).spec_count(k) == old(inv).spec_count(k) + spec_collected(
                old(drops)@,
                player,
                k,
            ),
        final(inv).spec_coins() == old(inv).spec_coins(),
        final(inv).spec_equipped() == old(inv).spec_equipped(),
        collected == old(drops)@.len() - final(drops)@.len(),
        old(inv).wf() ==> final(inv).wf(),
{
    let ghost s = old(drops)@;
    let ghost far_pred = |d: DropItem| !spec_within(player, d.pos, PICKUP_RANGE);
    let mut kept: Vec<DropItem> = Vec::new();
    let mut collected: usize = 0;
    let range2: i128 = (PICKUP_RANGE as i128) * (PICKUP_RANGE as i128);
    let n = drops.len();
    let mut i: usize = 0;
    while i < n
        invariant
            n == s.len(),
            drops@ == s,
            0 <= i <= n,
            far_pred == (|d: DropItem| !spec_within(player, d.pos, PICKUP_RANGE)),
            kept@ == s.take(i as int).filter(far_pred),
            collected == i - kept@.len(),
            forall|k: InventoryObject|
                #[trigger] inv.spec_count(k) == old(inv).spec_count(k) + spec_collected(
                    s.take(i as int),
                    player,
                    k,
                ),
            inv.spec_coins() == old(inv).spec_coins(),
            inv.spec_equipped() == old(inv).spec_equipped(),
            old(inv).wf() ==> inv.wf(),
        decreases n - i,
    {
        let d = drops[i];
        proof {
            reveal(Seq::filter);
            assert(s.take(i + 1).drop_last() =~= s.take(i as int));
            assert(s.take(i + 1).last() == d);
            s.take(i as int).lemma_filter_len(far_pred);
            s.take(i as int).lemma_filter_len(
                |x: DropItem| spec_within(player, x.pos, PICKUP_RANGE) && x.object == d.object,
            );
        }
        if dist2(player, d.pos) < range2 {
            inv.add_item(d.object);
            collected += 1;
        } else {
            kept.push(d);
        }
        proof {
            assert forall|k: InventoryObject|
                #[trigger] inv.spec_count(k) == old(inv).spec_count(k) + spec_collected(
                    s.take(i as int + 1),
                    player,
                    k,
                ) by {
                lemma_collected_step(s, player, i as int, k);
            }
        }
        i += 1;
    }
    proof {
        assert(s.take(n as int) =~= s);
    }
    *drops = kept;
    collected
}

/// What a dig press (hoe equipped) did.
#[derive(Clone, Copy, PartialEq, Eq, Structural, Debug)]
pub enum DigOutcome {
    /// The hoe is not equipped; the press is not a dig attempt.
    Idle,
    /// Grass stood on the player's tile: it was removed (and no flowerbed
    /// dug this press).
    RemovedGrass { id: u64 },
    /// The tile was free: a fresh flowerbed placement was dug.
    Dug { tile: Tile },
    /// Another object occupies the tile; nothing happened.
    Blocked { tile: Tile },
}

/// On an interact press with the hoe equipped: clear grass from the
/// player's tile, or dig a flowerbed there when the tile is free. The new
/// flowerbed placement carries the caller-supplied object handle.
pub fn dig_press(grid: &mut Grid, inv: &Inventory, player: WorldPos, new_id: u64) -> (r: DigOutcome)
    requires
        old(grid).wf(),
        in_world_bounds(player),
    ensures
        final(grid).wf(),
        final(grid).spec_selection() == old(grid).spec_selection(),
        inv.spec_equipped() != Some(InventoryObject::Hoe) ==> r == DigOutcome::Idle && final(grid)@
            == old(grid)@,
        inv.spec_equipped() == Some(InventoryObject::Hoe) ==> ({
            let t = spec_world_to_grid(player);
            match old(grid).spec_get(t) {
                Some(p) => if p.object == WorldObject::Grass {
                    r == (DigOutcome::RemovedGrass { id: p.id }) && final(grid)@ == old(
                        grid,
                    )@.remove(old(grid).spec_index_of(t))
                } else {
                    r == (DigOutcome::Blocked { tile: t }) && final(grid)@ == old(grid)@
                },
                None => r == (DigOutcome::Dug { tile: t }) && final(grid)@ == old(grid)@.push(
                    Placement {
                        id: new_id,
                        tile: t,
                        object: WorldObject::Flowerbed,
                        damage: 0,
                        planted_at: 0,
                    },
                ),
            }
        }),
{
    if !inv.is_equipped(InventoryObject::Hoe) {
        return DigOutcome::Idle;
    }
    let t = grid.world_to_grid(player);
    match grid.get_object(player) {
        Some(p) => {
            if matches!(p.object, WorldObject::Grass) {
                proof {
                    let k = choose|k: int| 0 <= k < grid@.len() && grid@[k] == p;
                    assert(grid@[k].tile == t);
                    assert(grid.spec_index_of(t) == k);
                    assert(grid.spec_get(t) == Some(p));
                }
                grid.remove_object(player);
                DigOutcome::RemovedGrass { id: p.id }
            } else {
                proof {
                    let k = choose|k: int| 0 <= k < grid@.len() && grid@[k] == p;
                    assert(grid@[k].tile == t);
                    assert(grid.spec_index_of(t) == k);
                    assert(grid.spec_get(t) == Some(p));
                }
                DigOutcome::Blocked { tile: t }
            }
        },
        None => {
            let ok = grid.place_object(new_id, player, WorldObject::Flowerbed);
            proof {
                assert(ok);
            }
            DigOutcome::Dug { tile: t }
        },
    }
}

/// What a plant press (seed equipped) did.
#[derive(Clone, Copy, PartialEq, Eq, Structural, Debug)]
pub enum PlantOutcome {
    /// No seed with stock is equipped; the press is not a plant attempt.
    Idle,
    /// A seed was planted: the flowerbed converted to the planted kind and
    /// one seed was consumed.
    Planted { tile: Tile, object: WorldObject },
    /// The player's tile holds no plain flowerbed; nothing happened.
    NoSpot,
}

/// The planted variant a seed kind grows into, if the item is a seed.
pub open spec fn spec_planted_kind(o: InventoryObject) -> Option<WorldObject> {
    match o {
        InventoryObject::Beans => Some(WorldObject::FlowerbedWithBeans),
        InventoryObject::PotatoSeeds => Some(WorldObject::FlowerbedWithPotatoSeeds),
        _ => None,
    }
}

/// On an interact press with a seed equipped and in stock, standing on a
/// dug flowerbed: consume one seed, convert the flowerbed placement to the
/// corresponding planted kind, and stamp the growth start time `now`.
pub fn plant_press(grid: &mut Grid, inv: &mut Inventory, player: WorldPos, now: u64) -> (r:
    PlantOutcome)
    requires
        old(grid).wf(),
        in_world_bounds(player),
    ensures
        final(grid).wf(),
        final(grid).spec_selection() == old(grid).spec_selection(),
        final(inv).spec_coins() == old(inv).spec_coins(),
        final(inv).spec_equipped() == old(inv).spec_equipped(),
        old(inv).wf() ==> final(inv).wf(),
        ({
            let armed = match old(inv).spec_equipped() {
                Some(e) => spec_planted_kind(e) is Some && old(inv).spec_count(e) >= 1,
                None => false,
            };
            if !armed {
                r == PlantOutcome::Idle && final(grid)@ == old(grid)@ && *final(inv) == *old(inv)
            } else {
                let seed = old(inv).spec_equipped()->Some_0;
                let kind = spec_planted_kind(seed)->Some_0;
                let t = spec_world_to_grid(player);
                match old(grid).spec_get(t) {
                    Some(p) => if p.object == WorldObject::Flowerbed {
                        &&& r == (PlantOutcome::Planted { tile: t, object: kind })
                        &&& final(grid)@ == old(grid)@.update(
                            old(grid).spec_index_of(t),
                            Placement {
                                id: p.id,
                                tile: t,
                                object: kind,
                                damage: 0,
                                planted_at: now,
                            },
                        )
                        &&& final(inv).spec_count(seed) == old(inv).spec_count(seed) - 1
                        &&& forall|q: InventoryObject|
                            q != seed ==> final(inv).spec_count(q) == old(inv).spec_count(q)
                    } else {
                        r == PlantOutcome::NoSpot && final(grid)@ == old(grid)@ && *final(inv)
                            == *old(inv)
                    },
                    None => r == PlantOutcome::NoSpot && final(grid)@ == old(grid)@ && *final(inv)
                        == *old(inv),
                }
            }
        }),
{
    let seed = match inv.equipped() {
        Some(e) => e,
        None => {
            return PlantOutcome::Idle;
        },
    };
    let kind = match seed {
        InventoryObject::Beans => WorldObject::FlowerbedWithBeans,
        InventoryObject::PotatoSeeds => WorldObject::FlowerbedWithPotatoSeeds,
        _ => {
            return PlantOutcome::Idle;
        },
    };
    if inv.count(seed) < 1 {
        return PlantOutcome::Idle;
    }
    let t = grid.world_to_grid(player);
    match grid.get_object(player) {
        Some(p) => {
            proof {
                let k = choose|k: int| 0 <= k < grid@.len() && grid@[k] == p;
                assert(grid@[k].tile == t);
                assert(grid.spec_index_of(t) == k);
                assert(grid.spec_get(t) == Some(p));
            }
            if matches!(p.object, WorldObject::Flowerbed) {
                let converted = Placement {
                    id: p.id,
                    tile: t,
                    object: kind,
                    damage: 0,
                    planted_at: now,
                };
                grid.replace_at(t, converted);
                let ok = inv.consume(seed, 1);
                proof {
                    assert(ok);
                }
                PlantOutcome::Planted { tile: t, object: kind }
            } else {
                PlantOutcome::NoSpot
            }
        },
        None => PlantOutcome::NoSpot,
    }
}

} // verus!

use anarchy::actions::{
    break_press, collect_drops, dig_press, plant_press, BreakOutcome, DigOutcome, DropItem,
    PlantOutcome,
};
use anarchy::grid::{Grid, Tile, WorldObject, WorldPos};
use anarchy::growth::{stage_at, GrowthStage};
use anarchy::inventory::{Inventory, InventoryObject};
use anarchy::path::TileRect;
use anarchy::tasks::{do_task, execute_task, select_trees, Schedule, TaskOutcome};
use anarchy::worldgen::{spawn_grass, spawn_rocks, spawn_trees};

fn center(grid: &Grid, x: i32, y: i32) -> WorldPos {
    grid.grid_to_world(Tile { x, y })
}

#[test]
fn end_to_end_chop_tree_and_collect_wood() {
    let mut grid = Grid::new();
    let mut inv = Inventory::new();
    let mut drops: Vec<DropItem> = Vec::new();
    for _ in 0..20 {
        inv.add_item(InventoryObject::Wood);
        inv.add_item(InventoryObject::Rocks);
    }
    inv.equip(InventoryObject::Axe);

    // Player stands on tile (0, 0); a tree with 3 hit points stands on the
    // adjacent tile (1, 0), 50 world units away (within the 80-unit range).
    let player = center(&grid, 0, 0);
    let tree_pos = center(&grid, 1, 0);
    assert!(grid.place_object(7, tree_pos, WorldObject::Tree));
    assert_eq!(grid.get_object(tree_pos).unwrap().damage, 3);

    let r1 = break_press(&mut grid, &inv, &mut drops, player);
    assert_eq!(
        r1,
        BreakOutcome::Damaged { tile: Tile { x: 1, y: 0 }, object: WorldObject::Tree, remaining: 2 }
    );
    assert_eq!(grid.get_object(tree_pos).unwrap().damage, 2);

    let r2 = break_press(&mut grid, &inv, &mut drops, player);
    assert_eq!(
        r2,
        BreakOutcome::Damaged { tile: Tile { x: 1, y: 0 }, object: WorldObject::Tree, remaining: 1 }
    );
    assert_eq!(grid.get_object(tree_pos).unwrap().damage, 1);

    // The third press destroys the tree, removes its placement and spawns
    // a wood pickup at its former position.
    let r3 = break_press(&mut grid, &inv, &mut drops, player);
    assert_eq!(
        r3,
        BreakOutcome::Destroyed {
            tile: Tile { x: 1, y: 0 },
            object: WorldObject::Tree,
            drop: InventoryObject::Wood,
        }
    );
    assert!(grid.is_free(tree_pos));
    assert_eq!(drops.len(), 1);
    assert_eq!(drops[0].object, InventoryObject::Wood);
    assert_eq!(drops[0].pos, tree_pos);

    // A subsequent tick auto-collects the pickup: wood goes 20 -> 21.
    let collected = collect_drops(&mut drops, &mut inv, player);
    assert_eq!(collected, 1);
    assert!(drops.is_empty());
    assert_eq!(inv.count(InventoryObject::Wood), 21);
}

#[test]
fn break_requires_matching_tool_and_range() {
    let mut grid = Grid::new();
    let mut inv = Inventory::new();
    let mut drops: Vec<DropItem> = Vec::new();
    let player = center(&grid, 0, 0);
    assert!(grid.place_object(1, center(&grid, 1, 0), WorldObject::Tree));

    // Nothing equipped: the press is not a harvest attempt.
    assert_eq!(break_press(&mut grid, &inv, &mut drops, player), BreakOutcome::Idle);

    // Pickaxe equipped near a tree: wrong tool, no damage.
    inv.equip(InventoryObject::Pickaxe);
    assert_eq!(
        break_press(&mut grid, &inv, &mut drops, player),
        BreakOutcome::WrongTool { tile: Tile { x: 1, y: 0 } }
    );
    assert_eq!(grid.get_object(center(&grid, 1, 0)).unwrap().damage, 3);

    // Axe equipped but three tiles away: out of range.
    inv.equip(InventoryObject::Axe);
    let far = center(&grid, 4, 0);
    assert_eq!(
        break_press(&mut grid, &inv, &mut drops, far),
        BreakOutcome::OutOfRange { tile: Tile { x: 1, y: 0 } }
    );

    // No harvestable object at all.
    grid.remove_object(center(&grid, 1, 0));
    assert_eq!(break_press(&mut grid, &inv, &mut drops, player), BreakOutcome::NoTarget);
}

#[test]
fn nearest_object_is_selected() {
    let mut grid = Grid::new();
    let mut inv = Inventory::new();
    let mut drops: Vec<DropItem> = Vec::new();
    inv.equip(InventoryObject::Axe);
    assert!(grid.place_object(1, center(&grid, 3, 0), WorldObject::Tree));
    assert!(grid.place_object(2, center(&grid, 1, 0), WorldObject::Tree));
    let player = center(&grid, 0, 0);
    // The tree on tile (1, 0) is nearer than the one on (3, 0).
    assert_eq!(
        break_press(&mut grid, &inv, &mut drops, player),
        BreakOutcome::Damaged { tile: Tile { x: 1, y: 0 }, object: WorldObject::Tree, remaining: 2 }
    );
}

#[test]
fn selection_to_tasks_and_execution() {
    let mut grid = Grid::new();
    let mut inv = Inventory::new();
    let mut sched = Schedule::new();
    let mut drops: Vec<DropItem> = Vec::new();

    assert!(grid.place_object(1, center(&grid, 2, 0), WorldObject::Tree));
    assert!(grid.place_object(2, center(&grid, 2, 2), WorldObject::Rock));
    assert!(grid.place_object(3, center(&grid, 0, 2), WorldObject::Tree));

    grid.begin_selection(center(&grid, 0, 0));
    grid.extend_selection(center(&grid, 2, 2));

    // Without the axe equipped the confirm does nothing.
    select_trees(&mut grid, &inv, &mut sched);
    assert_eq!(sched.len(), 0);
    assert!(grid.selection().is_some());

    // With the axe: one task per tree in the selection, and the selection
    // is consumed. The rock contributes no task.
    inv.equip(InventoryObject::Axe);
    select_trees(&mut grid, &inv, &mut sched);
    assert_eq!(sched.len(), 2);
    assert!(grid.selection().is_none());

    // Executing the first task walks the player onto the tree's tile and
    // fires the same interaction as a manual press: the tree takes damage.
    let mut player = center(&grid, 0, 0);
    let rect = TileRect { lo: Tile { x: -8, y: -8 }, hi: Tile { x: 8, y: 8 } };
    let (t1, b1) = execute_task(&mut sched, &mut grid, &inv, &mut drops, &mut player, rect);
    assert_eq!(t1, TaskOutcome::Arrived { goal: Tile { x: 2, y: 0 } });
    assert_eq!(player, center(&grid, 2, 0));
    assert_eq!(
        b1,
        Some(BreakOutcome::Damaged {
            tile: Tile { x: 2, y: 0 },
            object: WorldObject::Tree,
            remaining: 2,
        })
    );
    assert_eq!(sched.len(), 1);

    // An empty queue leaves everything alone.
    let (t2, _) = execute_task(&mut sched, &mut grid, &inv, &mut drops, &mut player, rect);
    assert_eq!(t2, TaskOutcome::Arrived { goal: Tile { x: 0, y: 2 } });
    let (t3, b3) = execute_task(&mut sched, &mut grid, &inv, &mut drops, &mut player, rect);
    assert_eq!(t3, TaskOutcome::Idle);
    assert_eq!(b3, None);
}

#[test]
fn unreachable_task_is_dropped_not_fatal() {
    let mut grid = Grid::new();
    let mut inv = Inventory::new();
    let mut sched = Schedule::new();
    inv.equip(InventoryObject::Axe);

    // A tree fully walled in by rocks.
    assert!(grid.place_object(1, center(&grid, 2, 2), WorldObject::Tree));
    assert!(grid.place_object(2, center(&grid, 1, 2), WorldObject::Rock));
    assert!(grid.place_object(3, center(&grid, 3, 2), WorldObject::Rock));
    assert!(grid.place_object(4, center(&grid, 2, 1), WorldObject::Rock));
    assert!(grid.place_object(5, center(&grid, 2, 3), WorldObject::Rock));

    grid.begin_selection(center(&grid, 2, 2));
    select_trees(&mut grid, &inv, &mut sched);
    assert_eq!(sched.len(), 1);

    let mut player = center(&grid, 0, 0);
    let rect = TileRect { lo: Tile { x: -8, y: -8 }, hi: Tile { x: 8, y: 8 } };
    let r = do_task(&mut sched, &grid, &mut player, rect);
    assert_eq!(r, TaskOutcome::Unreachable { goal: Tile { x: 2, y: 2 } });
    // The task is gone, the player has not moved, nothing panicked.
    assert_eq!(sched.len(), 0);
    assert_eq!(player, center(&grid, 0, 0));
}

#[test]
fn dig_plant_and_grow() {
    let mut grid = Grid::new();
    let mut inv = Inventory::new();
    let player = center(&grid, 0, 0);

    // Digging needs the hoe.
    assert_eq!(dig_press(&mut grid, &inv, player, 50), DigOutcome::Idle);
    inv.equip(InventoryObject::Hoe);
    assert_eq!(dig_press(&mut grid, &inv, player, 50), DigOutcome::Dug { tile: Tile { x: 0, y: 0 } });
    let bed = grid.get_object(player).unwrap();
    assert_eq!(bed.object, WorldObject::Flowerbed);
    assert_eq!(bed.id, 50);

    // Digging again on the same tile is blocked by the flowerbed.
    assert_eq!(
        dig_press(&mut grid, &inv, player, 51),
        DigOutcome::Blocked { tile: Tile { x: 0, y: 0 } }
    );

    // Planting needs an equipped seed with stock.
    assert_eq!(plant_press(&mut grid, &mut inv, player, 100), PlantOutcome::Idle);
    assert!(inv.buy(InventoryObject::Beans));
    inv.equip(InventoryObject::Beans);
    assert_eq!(
        plant_press(&mut grid, &mut inv, player, 100),
        PlantOutcome::Planted { tile: Tile { x: 0, y: 0 }, object: WorldObject::FlowerbedWithBeans }
    );
    assert_eq!(inv.count(InventoryObject::Beans), 0);
    let planted = grid.get_object(player).unwrap();
    assert_eq!(planted.object, WorldObject::FlowerbedWithBeans);
    assert_eq!(planted.planted_at, 100);
    assert_eq!(planted.id, 50);

    // Growth stages from the stamped start time.
    assert_eq!(stage_at(planted.planted_at, 105), GrowthStage::Planted);
    assert_eq!(stage_at(planted.planted_at, 115), GrowthStage::Sprout);
    assert_eq!(stage_at(planted.planted_at, 125), GrowthStage::Stage2);
    assert_eq!(stage_at(planted.planted_at, 140), GrowthStage::Stage3);

    // Planting again without a plain flowerbed underfoot does nothing.
    assert!(inv.buy(InventoryObject::Beans));
    assert_eq!(plant_press(&mut grid, &mut inv, player, 150), PlantOutcome::NoSpot);
    assert_eq!(inv.count(InventoryObject::Beans), 1);
}

#[test]
fn dig_clears_grass_first() {
    let mut grid = Grid::new();
    let mut inv = Inventory::new();
    let player = center(&grid, 0, 0);
    assert!(grid.place_object(9, player, WorldObject::Grass));
    inv.equip(InventoryObject::Hoe);
    // The first press removes the grass; only a later press digs.
    assert_eq!(dig_press(&mut grid, &inv, player, 60), DigOutcome::RemovedGrass { id: 9 });
    assert!(grid.is_free(player));
    assert_eq!(
        dig_press(&mut grid, &inv, player, 60),
        DigOutcome::Dug { tile: Tile { x: 0, y: 0 } }
    );
}

#[test]
fn pickups_out_of_range_stay() {
    let mut grid = Grid::new();
    let mut inv = Inventory::new();
    let near = center(&grid, 1, 0);
    let far = center(&grid, 4, 4);
    let mut drops = vec![
        DropItem { id: 1, object: InventoryObject::Wood, pos: near },
        DropItem { id: 2, object: InventoryObject::Rocks, pos: far },
    ];
    let collected = collect_drops(&mut drops, &mut inv, center(&grid, 0, 0));
    assert_eq!(collected, 1);
    assert_eq!(inv.count(InventoryObject::Wood), 1);
    assert_eq!(inv.count(InventoryObject::Rocks), 0);
    assert_eq!(drops.len(), 1);
    assert_eq!(drops[0].id, 2);
}

#[test]
fn world_generation_counts_and_clearance() {
    let mut grid = Grid::new();
    let trees = spawn_trees(&mut grid, 1, 10_000);
    let rocks = spawn_rocks(&mut grid, 100, 10_000);
    let grass = spawn_grass(&mut grid, 200, 10_000);
    assert_eq!(trees, 20);
    assert_eq!(rocks, 20);
    assert_eq!(grass, 20);
    assert_eq!(grid.len(), 60);

    let mut seen = std::collections::HashSet::new();
    for i in 0..grid.len() {
        let p = grid.placement(i);
        // One placement per tile.
        assert!(seen.insert((p.tile.x, p.tile.y)));
        // Positions were drawn from the spawn band.
        assert!((-14..=13).contains(&p.tile.x));
        assert!((-14..=13).contains(&p.tile.y));
        // Trees and rocks keep clear of the starting area.
        if p.object == WorldObject::Tree || p.object == WorldObject::Rock {
            assert!(p.tile.x <= -2 || p.tile.x >= 2);
            assert!(p.tile.y <= -2 || p.tile.y >= 2);
            assert!(p.damage >= 1);
        }
    }
}

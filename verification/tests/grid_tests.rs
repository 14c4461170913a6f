use anarchy::grid::{Grid, Tile, WorldObject, WorldPos};

#[test]
fn tile_roundtrip_samples() {
    let grid = Grid::new();
    let tiles = vec![
        Tile { x: 0, y: 0 },
        Tile { x: 1, y: -1 },
        Tile { x: -1, y: 1 },
        Tile { x: 14, y: -14 },
        Tile { x: 12345, y: -54321 },
        Tile { x: 2147483647, y: -2147483648 },
    ];
    for t in tiles {
        let center = grid.grid_to_world(t);
        assert_eq!(grid.world_to_grid(center), t);
    }
}

#[test]
fn negative_positions_floor_toward_negative_infinity() {
    let grid = Grid::new();
    let t = grid.world_to_grid(WorldPos { x: -1, y: -1 });
    assert_eq!(t, Tile { x: -1, y: -1 });
    // Truncation toward zero would wrongly give (0, 0).
    let t2 = grid.world_to_grid(WorldPos { x: -49, y: -50 });
    assert_eq!(t2, Tile { x: -1, y: -1 });
    let t3 = grid.world_to_grid(WorldPos { x: 49, y: 50 });
    assert_eq!(t3, Tile { x: 0, y: 1 });
}

#[test]
fn tile_to_world_returns_center() {
    let grid = Grid::new();
    assert_eq!(grid.grid_to_world(Tile { x: 0, y: 0 }), WorldPos { x: 25, y: 25 });
    assert_eq!(grid.grid_to_world(Tile { x: -1, y: 2 }), WorldPos { x: -25, y: 125 });
}

#[test]
fn cursor_snaps_to_tile_center() {
    let grid = Grid::new();
    assert_eq!(grid.cursor_to_world(WorldPos { x: 3, y: 97 }), WorldPos { x: 25, y: 75 });
    assert_eq!(grid.cursor_to_world(WorldPos { x: -3, y: -97 }), WorldPos { x: -25, y: -75 });
}

#[test]
fn occupancy_after_place_and_remove() {
    let mut grid = Grid::new();
    let a = WorldPos { x: 10, y: 10 };
    let b = WorldPos { x: 60, y: 10 };
    assert!(grid.is_free(a));
    assert!(grid.get_object(a).is_none());

    assert!(grid.place_object(1, a, WorldObject::Tree));
    assert!(!grid.is_free(a));
    let got = grid.get_object(a).unwrap();
    assert_eq!(got.id, 1);
    assert_eq!(got.tile, Tile { x: 0, y: 0 });
    assert_eq!(got.damage, 3);

    // A second placement on the same tile is rejected, not duplicated.
    assert!(!grid.place_object(2, WorldPos { x: 49, y: 49 }, WorldObject::Rock));
    assert_eq!(grid.len(), 1);

    assert!(grid.place_object(2, b, WorldObject::Rock));
    assert_eq!(grid.len(), 2);
    assert_eq!(grid.get_object(b).unwrap().damage, 2);

    grid.remove_object(a);
    assert!(grid.is_free(a));
    assert!(grid.get_object(a).is_none());
    assert_eq!(grid.len(), 1);

    // Removing an empty tile is a no-op.
    grid.remove_object(a);
    assert_eq!(grid.len(), 1);

    // is_free(p) is true exactly when get(p) returns nothing.
    for pos in [a, b, WorldPos { x: -10, y: -10 }] {
        assert_eq!(grid.is_free(pos), grid.get_object(pos).is_none());
    }
}

#[test]
fn selection_normalization_is_drag_order_independent() {
    let mut grid = Grid::new();
    // Trees on a small cluster of tiles, one off to the side.
    assert!(grid.place_object(1, WorldPos { x: 25, y: 25 }, WorldObject::Tree));
    assert!(grid.place_object(2, WorldPos { x: 125, y: 75 }, WorldObject::Rock));
    assert!(grid.place_object(3, WorldPos { x: 325, y: 325 }, WorldObject::Tree));

    let a = WorldPos { x: 0, y: 90 };
    let b = WorldPos { x: 140, y: 10 };

    grid.begin_selection(a);
    grid.extend_selection(b);
    let forward = grid.get_objects_in_selection();

    grid.begin_selection(b);
    grid.extend_selection(a);
    let backward = grid.get_objects_in_selection();

    assert_eq!(forward.len(), 2);
    assert_eq!(forward.len(), backward.len());
    for (x, y) in forward.iter().zip(backward.iter()) {
        assert_eq!(x.id, y.id);
        assert_eq!(x.tile, y.tile);
    }
}

#[test]
fn selection_replaced_and_cleared() {
    let mut grid = Grid::new();
    let a = WorldPos { x: 0, y: 0 };
    let b = WorldPos { x: 500, y: 500 };
    grid.begin_selection(a);
    assert_eq!(grid.selection(), Some((a, a)));
    grid.extend_selection(b);
    assert_eq!(grid.selection(), Some((a, b)));
    // Starting a new drag replaces the prior selection.
    grid.begin_selection(b);
    assert_eq!(grid.selection(), Some((b, b)));
    grid.clear_selection();
    assert_eq!(grid.selection(), None);
    assert!(grid.get_objects_in_selection().is_empty());
}

#[test]
fn objects_in_rect_bounds_are_inclusive() {
    let mut grid = Grid::new();
    assert!(grid.place_object(1, WorldPos { x: 25, y: 25 }, WorldObject::Grass));
    assert!(grid.place_object(2, WorldPos { x: 75, y: 75 }, WorldObject::Grass));
    assert!(grid.place_object(3, WorldPos { x: 125, y: 125 }, WorldObject::Grass));
    grid.begin_selection(WorldPos { x: 30, y: 30 });
    grid.extend_selection(WorldPos { x: 80, y: 80 });
    let sel = grid.get_objects_in_selection();
    let ids: Vec<u64> = sel.iter().map(|p| p.id).collect();
    assert_eq!(ids, vec![1, 2]);
}

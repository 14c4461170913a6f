use anarchy::grid::{Grid, Tile, WorldObject, WorldPos};
use anarchy::path::{TileRect, find_path};

fn center(grid: &Grid, x: i32, y: i32) -> WorldPos {
    grid.grid_to_world(Tile { x, y })
}

#[test]
fn shortest_path_on_empty_grid() {
    let grid = Grid::new();
    let rect = TileRect { lo: Tile { x: 0, y: 0 }, hi: Tile { x: 4, y: 4 } };
    let path = find_path(&grid, rect, Tile { x: 0, y: 0 }, Tile { x: 4, y: 4 }).unwrap();
    // Manhattan distance 8 with 4-directional unit moves: 8 steps, 9 tiles.
    assert_eq!(path.len(), 9);
    assert_eq!(path[0], Tile { x: 0, y: 0 });
    assert_eq!(path[8], Tile { x: 4, y: 4 });
    for w in path.windows(2) {
        let d = (w[0].x - w[1].x).abs() + (w[0].y - w[1].y).abs();
        assert_eq!(d, 1);
    }
}

#[test]
fn path_routes_around_obstacles() {
    let mut grid = Grid::new();
    // A vertical wall through x = 2 with a gap at y = 4.
    for y in 0..4 {
        assert!(grid.place_object(10 + y as u64, center(&grid, 2, y), WorldObject::Rock));
    }
    let rect = TileRect { lo: Tile { x: 0, y: 0 }, hi: Tile { x: 4, y: 4 } };
    let path = find_path(&grid, rect, Tile { x: 0, y: 0 }, Tile { x: 4, y: 0 }).unwrap();
    // Detour up to the gap and back: 4 right + 4 up + 4 down = 12 steps.
    assert_eq!(path.len(), 13);
    assert_eq!(path[0], Tile { x: 0, y: 0 });
    assert_eq!(*path.last().unwrap(), Tile { x: 4, y: 0 });
}

#[test]
fn enclosed_goal_returns_none_without_panicking() {
    let mut grid = Grid::new();
    // Wall off the four neighbors of the goal (2, 2).
    assert!(grid.place_object(1, center(&grid, 1, 2), WorldObject::Tree));
    assert!(grid.place_object(2, center(&grid, 3, 2), WorldObject::Tree));
    assert!(grid.place_object(3, center(&grid, 2, 1), WorldObject::Tree));
    assert!(grid.place_object(4, center(&grid, 2, 3), WorldObject::Tree));
    let rect = TileRect { lo: Tile { x: 0, y: 0 }, hi: Tile { x: 4, y: 4 } };
    let r = find_path(&grid, rect, Tile { x: 0, y: 0 }, Tile { x: 2, y: 2 });
    assert!(r.is_none());
}

#[test]
fn goal_tile_itself_may_be_occupied() {
    let mut grid = Grid::new();
    // The target of a cut-task is itself a tree: the search may still end
    // by stepping onto it.
    assert!(grid.place_object(1, center(&grid, 3, 0), WorldObject::Tree));
    let rect = TileRect { lo: Tile { x: 0, y: 0 }, hi: Tile { x: 4, y: 4 } };
    let path = find_path(&grid, rect, Tile { x: 0, y: 0 }, Tile { x: 3, y: 0 }).unwrap();
    assert_eq!(path.len(), 4);
    assert_eq!(*path.last().unwrap(), Tile { x: 3, y: 0 });
}

#[test]
fn endpoints_outside_region_yield_none() {
    let grid = Grid::new();
    let rect = TileRect { lo: Tile { x: 0, y: 0 }, hi: Tile { x: 4, y: 4 } };
    assert!(find_path(&grid, rect, Tile { x: 0, y: 0 }, Tile { x: 9, y: 9 }).is_none());
    assert!(find_path(&grid, rect, Tile { x: -1, y: 0 }, Tile { x: 4, y: 4 }).is_none());
}

#[test]
fn trivial_path_start_equals_goal() {
    let grid = Grid::new();
    let rect = TileRect { lo: Tile { x: 0, y: 0 }, hi: Tile { x: 4, y: 4 } };
    let path = find_path(&grid, rect, Tile { x: 2, y: 2 }, Tile { x: 2, y: 2 }).unwrap();
    assert_eq!(path.len(), 1);
    assert_eq!(path[0], Tile { x: 2, y: 2 });
}

#[test]
fn rect_wf_check() {
    let ok = TileRect { lo: Tile { x: -5, y: -5 }, hi: Tile { x: 5, y: 5 } };
    assert!(ok.check_wf());
    let empty = TileRect { lo: Tile { x: 1, y: 0 }, hi: Tile { x: 0, y: 0 } };
    assert!(!empty.check_wf());
    let huge = TileRect {
        lo: Tile { x: i32::MIN, y: i32::MIN },
        hi: Tile { x: i32::MAX, y: i32::MAX },
    };
    assert!(!huge.check_wf());
}

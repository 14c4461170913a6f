use anarchy::grid::{Grid, Placement, Tile, WorldObject, WorldPos};
use anarchy::growth::{placement_stage, stage_at, stage_of_elapsed, GrowthStage};

#[test]
fn stage_thresholds() {
    assert_eq!(stage_of_elapsed(0), GrowthStage::Planted);
    assert_eq!(stage_of_elapsed(10), GrowthStage::Planted);
    assert_eq!(stage_of_elapsed(11), GrowthStage::Sprout);
    assert_eq!(stage_of_elapsed(20), GrowthStage::Sprout);
    assert_eq!(stage_of_elapsed(21), GrowthStage::Stage2);
    assert_eq!(stage_of_elapsed(30), GrowthStage::Stage2);
    assert_eq!(stage_of_elapsed(31), GrowthStage::Stage3);
    assert_eq!(stage_of_elapsed(1_000_000), GrowthStage::Stage3);
}

#[test]
fn querying_stage_is_idempotent() {
    // No intervening mutation: the same elapsed time yields the same stage
    // both times (there is no hidden stage field to drift).
    let first = stage_of_elapsed(25);
    let second = stage_of_elapsed(25);
    assert_eq!(first, GrowthStage::Stage2);
    assert_eq!(first, second);
    assert_eq!(stage_at(100, 125), stage_at(100, 125));
}

#[test]
fn stage_is_non_decreasing_in_time() {
    let order = |s: GrowthStage| match s {
        GrowthStage::Planted => 0,
        GrowthStage::Sprout => 1,
        GrowthStage::Stage2 => 2,
        GrowthStage::Stage3 => 3,
    };
    let mut prev = 0;
    for elapsed in 0..200u64 {
        let now = order(stage_of_elapsed(elapsed));
        assert!(now >= prev);
        prev = now;
    }
}

#[test]
fn stage_of_planted_placements_only() {
    let grid = Grid::new();
    let pos = WorldPos { x: 25, y: 25 };
    let mut g = grid;
    assert!(g.place_object(1, pos, WorldObject::Tree));
    let tree = g.get_object(pos).unwrap();
    assert_eq!(placement_stage(&tree, 500), None);

    let bed = Placement {
        id: 2,
        tile: Tile { x: 1, y: 1 },
        object: WorldObject::FlowerbedWithPotatoSeeds,
        damage: 0,
        planted_at: 40,
    };
    assert_eq!(placement_stage(&bed, 65), Some(GrowthStage::Stage2));
    assert_eq!(placement_stage(&bed, 40), Some(GrowthStage::Planted));
}

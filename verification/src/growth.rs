//! Crop growth: the display stage of a planted flowerbed is a pure
//! function of elapsed time, recomputed each tick. There is no stored
//! stage to drift: querying at any frequency yields the same result, and
//! the stage never goes backward as time advances.

use vstd::prelude::*;
use crate::grid::{Placement, WorldObject};

verus! {

/// Seconds after planting at which the sprout appears.
pub const SPROUT_AFTER: u64 = 10;

/// Seconds after planting at which the second stage appears.
pub const STAGE2_AFTER: u64 = 20;

/// Seconds after planting at which the final stage appears.
pub const STAGE3_AFTER: u64 = 30;

/// The visual growth stage of a planted crop.
#[derive(Clone, Copy, PartialEq, Eq, Structural, Debug)]
pub enum GrowthStage {
    Planted,
    Sprout,
    Stage2,
    Stage3,
}

/// The position of a stage in growing order.
pub open spec fn spec_stage_index(s: GrowthStage) -> int {
    match s {
        GrowthStage::Planted => 0,
        GrowthStage::Sprout => 1,
        GrowthStage::Stage2 => 2,
        GrowthStage::Stage3 => 3,
    }
}

/// The stage shown `elapsed` seconds after planting: sprout strictly after
/// 10 s, second stage strictly after 20 s, final stage strictly after 30 s.
pub open spec fn spec_stage_of(elapsed: int) -> GrowthStage {
    if elapsed > STAGE3_AFTER {
        GrowthStage::Stage3
    } else if elapsed > STAGE2_AFTER {
        GrowthStage::Stage2
    } else if elapsed > SPROUT_AFTER {
        GrowthStage::Sprout
    } else {
        GrowthStage::Planted
    }
}

/// `o` is a flowerbed with something planted in it.
pub open spec fn is_planted(o: WorldObject) -> bool {
    o == WorldObject::FlowerbedWithBeans || o == WorldObject::FlowerbedWithPotatoSeeds
}

/// The growth stage reached `elapsed` seconds after planting.
pub fn stage_of_elapsed(elapsed: u64) -> (r: GrowthStage)
    ensures
        r == spec_stage_of(elapsed as int),
{
    if elapsed > STAGE3_AFTER {
        GrowthStage::Stage3
    } else if elapsed > STAGE2_AFTER {
        GrowthStage::Stage2
    } else if elapsed > SPROUT_AFTER {
        GrowthStage::Sprout
    } else {
        GrowthStage::Planted
    }
}

/// The stage a crop planted at time `started_at` shows at time `now`
/// (both in seconds on the same clock).
pub fn stage_at(started_at: u64, now: u64) -> (r: GrowthStage)
    requires
        started_at <= now,
    ensures
        r == spec_stage_of(now - started_at),
{
    stage_of_elapsed(now - started_at)
}

/// The stage of a planted placement at time `now`, or nothing for a
/// placement that has no growing crop.
pub fn placement_stage(p: &Placement, now: u64) -> (r: Option<GrowthStage>)
    requires
        p.planted_at <= now,
    ensures
        is_planted(p.object) ==> r == Some(spec_stage_of(now - p.planted_at)),
        !is_planted(p.object) ==> r is None,
{
    match p.object {
        WorldObject::FlowerbedWithBeans => Some(stage_at(p.planted_at, now)),
        WorldObject::FlowerbedWithPotatoSeeds => Some(stage_at(p.planted_at, now)),
        _ => None,
    }
}

/// Law: the growth stage is non-decreasing in elapsed time, so a crop
/// never regresses to an earlier stage.
pub proof fn law_growth_monotone(e1: int, e2: int)
    requires
        e1 <= e2,
    ensures
        spec_stage_index(spec_stage_of(e1)) <= spec_stage_index(spec_stage_of(e2)),
{
}

} // verus!

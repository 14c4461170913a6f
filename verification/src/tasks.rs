//! The deferred task queue and its executor.
//!
//! A confirming input while a selection exists and the axe is equipped
//! turns every tree inside the selection rectangle into one queued
//! cut-task, in placement-scan order, and consumes the selection. Each
//! tick the executor pops at most one task and drives the player to its
//! target tile via path planning; an unreachable target drops the task as
//! a recoverable failure rather than failing fatally.

use vstd::prelude::*;
use std::collections::VecDeque;
use crate::grid::{
    Grid,
    Placement,
    Tile,
    WorldObject,
    WorldPos,
    in_world_bounds,
    spec_grid_to_world,
    spec_objects_in_rect,
    spec_world_to_grid,
};
use crate::inventory::{Inventory, InventoryObject};
use crate::path::{TileRect, find_path, spec_reachable};
use crate::actions::{BreakOutcome, DropItem, break_press, spec_break_post};

verus! {

/// What a queued task does to its target tiles.
#[derive(Clone, Copy, PartialEq, Eq, Structural, Debug)]
pub enum TaskType {
    CutTree,
}

/// A deferred area-effect instruction: a kind of work and the tiles to
/// apply it to.
#[derive(Debug)]
pub struct Task {
    pub task_type: TaskType,
    pub targets: Vec<Tile>,
}

/// The FIFO of deferred tasks, consumed one per tick.
pub struct Schedule {
    tasks: VecDeque<Task>,
}

impl View for Schedule {
    type V = Seq<Task>;

    closed spec fn view(&self) -> Seq<Task> {
        self.tasks@
    }
}

/// The trees within the selection spanned by corners `a` and `b`, in
/// placement-scan order.
pub open spec fn spec_trees_in_rect(s: Seq<Placement>, a: WorldPos, b: WorldPos) -> Seq<Placement> {
    spec_objects_in_rect(s, a, b).filter(|p: Placement| p.object == WorldObject::Tree)
}

/// What the executor did with the front task.
#[derive(Clone, Copy, PartialEq, Eq, Structural, Debug)]
pub enum TaskOutcome {
    /// The queue was empty; nothing to do.
    Idle,
    /// A path existed: the player now stands on the target tile.
    Arrived { goal: Tile },
    /// No path to the target existed (or it lay outside the search
    /// region); the task was dropped.
    Unreachable { goal: Tile },
}

impl Schedule {
    /// Every queued task has at least one target tile.
    pub open spec fn wf(self) -> bool {
        forall|i: int| 0 <= i < self@.len() ==> (#[trigger] self@[i]).targets@.len() >= 1
    }

    /// An empty queue.
    pub fn new() -> (s: Schedule)
        ensures
            s@.len() == 0,
            s.wf(),
    {
        Schedule { tasks: VecDeque::new() }
    }

    /// How many tasks are waiting.
    pub fn len(&self) -> (n: usize)
        ensures
            n == self@.len(),
    {
        self.tasks.len()
    }
}

/// On a confirming input: if the axe is equipped and a selection exists,
/// queue one cut-task per tree inside the selection (in scan order) and
/// clear the selection; otherwise change nothing.
pub fn select_trees(grid: &mut Grid, inv: &Inventory, sched: &mut Schedule)
    requires
        old(grid).wf(),
        old(sched).wf(),
    ensures
        final(grid).wf(),
        final(sched).wf(),
        final(grid)@ == old(grid)@,
        ({
            let fire = inv.spec_equipped() == Some(InventoryObject::Axe) && old(
                grid,
            ).spec_selection() is Some;
            if fire {
                let (a, b) = old(grid).spec_selection()->Some_0;
                let trees = spec_trees_in_rect(old(grid)@, a, b);
                &&& final(grid).spec_selection() is None
                &&& final(sched)@.len() == old(sched)@.len() + trees.len()
                &&& forall|i: int| 0 <= i < old(sched)@.len() ==> final(sched)@[i] == old(sched)@[i]
                &&& forall|i: int|
                    0 <= i < trees.len() ==> (#[trigger] final(sched)@[old(sched)@.len() + i]).task_type
                        == TaskType::CutTree && final(sched)@[old(sched)@.len() + i].targets@
                        =~= seq![trees[i].tile]
            } else {
                &&& final(grid).spec_selection() == old(grid).spec_selection()
                &&& final(sched)@ == old(sched)@
            }
        }),
{
    if !(inv.is_equipped(InventoryObject::Axe) && grid.selection().is_some()) {
        return ;
    }
    let ghost (a, b) = grid.spec_selection()->Some_0;
    let sel = grid.get_objects_in_selection();
    let ghost selseq = spec_objects_in_rect(old(grid)@, a, b);
    let ghost tree_pred = |p: Placement| p.object == WorldObject::Tree;
    let ghost q0 = sched@;
    let n = sel.len();
    let mut i: usize = 0;
    while i < n
        invariant
            n == selseq.len(),
            sel@ == selseq,
            0 <= i <= n,
            grid == old(grid),
            tree_pred == (|p: Placement| p.object == WorldObject::Tree),
            sched.wf(),
            ({
                let tr = selseq.take(i as int).filter(tree_pred);
                &&& sched@.len() == q0.len() + tr.len()
                &&& forall|j: int| 0 <= j < q0.len() ==> sched@[j] == q0[j]
                &&& forall|j: int|
                    0 <= j < tr.len() ==> (#[trigger] sched@[q0.len() + j]).task_type
                        == TaskType::CutTree && sched@[q0.len() + j].targets@ =~= seq![tr[j].tile]
            }),
        decreases n - i,
    {
        let p = sel[i];
        proof {
            reveal(Seq::filter);
            assert(selseq.take(i + 1).drop_last() =~= selseq.take(i as int));
            assert(selseq.take(i + 1).last() == p);
        }
        if matches!(p.object, WorldObject::Tree) {
            let mut targets: Vec<Tile> = Vec::new();
            targets.push(p.tile);
            queue_push(&mut sched.tasks, Task { task_type: TaskType::CutTree, targets });
        }
        i += 1;
    }
    proof {
        assert(selseq.take(n as int) =~= selseq);
    }
    grid.clear_selection();
}

/// Push one task onto the back of the queue.
fn queue_push(tasks: &mut VecDeque<Task>, t: Task)
    ensures
        final(tasks)@ == old(tasks)@.push(t),
{
    tasks.push_back(t);
}

/// Process at most one task this tick: pop the front task, plan a path
/// from the player's tile to the task's first target within the search
/// region `rect`, and advance the player along the full path (the player
/// ends on the target tile). When no path exists the task is dropped
/// silently and the player does not move.
pub fn do_task(sched: &mut Schedule, grid: &Grid, player: &mut WorldPos, rect: TileRect) -> (r:
    TaskOutcome)
    requires
        old(sched).wf(),
        grid.wf(),
        rect.wf(),
        in_world_bounds(*old(player)),
    ensures
        final(sched).wf(),
        in_world_bounds(*final(player)),
        old(sched)@.len() == 0 ==> r == TaskOutcome::Idle && *final(player) == *old(player)
            && final(sched)@ == old(sched)@,
        old(sched)@.len() > 0 ==> final(sched)@ == old(sched)@.drop_first() && ({
            let goal = old(sched)@[0].targets@[0];
            let start = spec_world_to_grid(*old(player));
            if rect.spec_contains(start) && rect.spec_contains(goal) && spec_reachable(
                grid@,
                rect,
                start,
                goal,
            ) {
                r == (TaskOutcome::Arrived { goal }) && *final(player) == spec_grid_to_world(goal)
            } else {
                r == (TaskOutcome::Unreachable { goal }) && *final(player) == *old(player)
            }
        }),
{
    let task = match queue_pop(&mut sched.tasks) {
        Some(task) => task,
        None => {
            return TaskOutcome::Idle;
        },
    };
    let goal = task.targets[0];
    let start = grid.world_to_grid(*player);
    match find_path(grid, rect, start, goal) {
        Some(path) => {
            let n = path.len();
            let mut i: usize = 0;
            while i < n
                invariant
                    n == path@.len(),
                    0 <= i <= n,
                    if i == 0 {
                        *player == *old(player)
                    } else {
                        *player == spec_grid_to_world(path@[i - 1])
                    },
                    in_world_bounds(*player),
                decreases n - i,
            {
                *player = grid.grid_to_world(path[i]);
                i += 1;
            }
            TaskOutcome::Arrived { goal }
        },
        None => TaskOutcome::Unreachable { goal },
    }
}

/// Process at most one task this tick and complete it: after the player
/// arrives on the target tile, the same interaction as a manual harvest
/// press fires once (the equipped tool decides its effect, exactly as the
/// break-distance check does for a manual press). An unreachable target
/// drops the task with no other effect.
pub fn execute_task(
    sched: &mut Schedule,
    grid: &mut Grid,
    inv: &Inventory,
    drops: &mut Vec<DropItem>,
    player: &mut WorldPos,
    rect: TileRect,
) -> (r: (TaskOutcome, Option<BreakOutcome>))
    requires
        old(sched).wf(),
        old(grid).wf(),
        rect.wf(),
        in_world_bounds(*old(player)),
    ensures
        final(sched).wf(),
        final(grid).wf(),
        in_world_bounds(*final(player)),
        old(sched)@.len() == 0 ==> r.0 == TaskOutcome::Idle && r.1 is None && *final(player)
            == *old(player) && final(sched)@ == old(sched)@ && final(grid)@ == old(grid)@
            && final(grid).spec_selection() == old(grid).spec_selection() && final(drops)@ == old(
            drops,
        )@,
        old(sched)@.len() > 0 ==> final(sched)@ == old(sched)@.drop_first() && ({
            let goal = old(sched)@[0].targets@[0];
            let start = spec_world_to_grid(*old(player));
            if rect.spec_contains(start) && rect.spec_contains(goal) && spec_reachable(
                old(grid)@,
                rect,
                start,
                goal,
            ) {
                &&& r.0 == (TaskOutcome::Arrived { goal })
                &&& *final(player) == spec_grid_to_world(goal)
                &&& r.1 matches Some(b) && spec_break_post(
                    *old(grid),
                    old(drops)@,
                    inv.spec_equipped(),
                    spec_grid_to_world(goal),
                    *final(grid),
                    final(drops)@,
                    b,
                )
            } else {
                &&& r.0 == (TaskOutcome::Unreachable { goal })
                &&& r.1 is None
                &&& *final(player) == *old(player)
                &&& final(grid)@ == old(grid)@
                &&& final(grid).spec_selection() == old(grid).spec_selection()
                &&& final(drops)@ == old(drops)@
            }
        }),
{
    let t = do_task(sched, grid, player, rect);
    match t {
        TaskOutcome::Arrived { goal: _ } => {
            let b = break_press(grid, inv, drops, *player);
            (t, Some(b))
        },
        _ => (t, None),
    }
}

/// Pop the front task, if any.
fn queue_pop(tasks: &mut VecDeque<Task>) -> (r: Option<Task>)
    ensures
        match r {
            Some(t) => old(tasks)@.len() > 0 && t == old(tasks)@[0] && final(tasks)@ == old(
                tasks,
            )@.drop_first(),
            None => old(tasks)@.len() == 0 && final(tasks)@ == old(tasks)@,
        },
{
    let r = tasks.pop_front();
    proof {
        if old(tasks)@.len() > 0 {
            assert(tasks@ =~= old(tasks)@.drop_first());
        }
    }
    r
}

} // verus!

//! The per-agent task state machine: how an agent reacts to path answers,
//! advances along its route, mines, hauls, builds, returns home, and
//! recovers from pathfinding failures. Each function is one tick of one
//! agent; the scheduler calls them in phase order.

use vstd::prelude::*;

use std::collections::VecDeque;

use crate::grid::SpatialEntity;
use crate::grid::SpatialGrid;
use crate::grid::contains_id;
use crate::grid::remove_id;
use crate::grid_pos::GridPos;
use crate::path::PathfindAnswer;
use crate::path::PathfindRequest;
use crate::pawn::CarriedResources;
use crate::pawn::GameResources;
use crate::pawn::MAX_RESOURCES;
use crate::pawn::Pawn;
use crate::pawn::PlaceableType;
use crate::pawn::PawnStatus;
use crate::pawn::RESOURCE_GAIN_RATE;
use crate::pawn::RESOURCE_MAX_SEARCH_RANGE;
use crate::pawn::Stone;
use crate::pawn::WorkOrder;
use crate::pawn::WorkQueue;

verus! {

/// The build-queue entry a failed or abandoned order must give back: the
/// target of a build or haul order, so another agent can resume it.
pub open spec fn requeue_target(order: Option<WorkOrder>) -> Seq<u64> {
    match order {
        Some(WorkOrder::BuildItem { item_entity }) => seq![item_entity],
        Some(WorkOrder::PickupStoneFromFactory { for_entity }) => seq![for_entity],
        _ => Seq::empty(),
    }
}

/// Pushes the target of a build or haul order back onto the shared build
/// queue; leaves other orders alone.
pub fn requeue_order(queue: &mut WorkQueue, order: &Option<WorkOrder>)
    ensures
        final(queue).build_queue@ == old(queue).build_queue@ + requeue_target(*order),
{
    match order {
        Some(WorkOrder::BuildItem { item_entity }) => {
            queue.build_queue.push_back(*item_entity);
            proof {
                assert(final(queue).build_queue@ =~= old(queue).build_queue@ + requeue_target(
                    *order,
                ));
            }
        },
        Some(WorkOrder::PickupStoneFromFactory { for_entity }) => {
            queue.build_queue.push_back(*for_entity);
            proof {
                assert(final(queue).build_queue@ =~= old(queue).build_queue@ + requeue_target(
                    *order,
                ));
            }
        },
        _ => {
            proof {
                assert(final(queue).build_queue@ =~= old(queue).build_queue@ + requeue_target(
                    *order,
                ));
            }
        },
    }
}

/// Whether an answer still addresses what the agent is waiting for: the
/// expected target cell of its active order, when the caller knows one.
pub open spec fn answer_matches(expected: Option<GridPos>, target: GridPos) -> bool {
    match expected {
        Some(t) => t == target,
        None => true,
    }
}

/// Applies one path answer to the agent it was addressed to. Answers are
/// consumed only while the agent is waiting for one (Pathfinding or
/// Repathing) and only when the answer's target still matches the target
/// of the agent's currently active order (`expected_target`, as the caller
/// derives it from the order); a late answer in any other state, or one
/// whose target no longer matches, is silently discarded and the agent is
/// left unchanged. A found route is cached and the agent starts Moving; a
/// failed query requeues a build or haul target, clears the order, and
/// parks the agent in PathfindingError.
pub fn apply_path_answer(
    pawn: &mut Pawn,
    status: &mut PawnStatus,
    order: &mut Option<WorkOrder>,
    expected_target: Option<GridPos>,
    answer: &PathfindAnswer,
    queue: &mut WorkQueue,
)
    ensures
        !((*old(status) == PawnStatus::Pathfinding || *old(status) == PawnStatus::Repathing)
            && answer_matches(expected_target, answer.target)) ==> {
            &&& *final(pawn) == *old(pawn)
            &&& *final(status) == *old(status)
            &&& *final(order) == *old(order)
            &&& final(queue).build_queue@ == old(queue).build_queue@
        },
        ((*old(status) == PawnStatus::Pathfinding || *old(status) == PawnStatus::Repathing)
            && answer_matches(expected_target, answer.target)) ==> {
            match answer.path {
                Some(ref p) => {
                    &&& final(pawn).move_path@ == p@
                    &&& final(pawn).move_to == old(pawn).move_to
                    &&& final(pawn).health == old(pawn).health
                    &&& final(pawn).max_health == old(pawn).max_health
                    &&& final(pawn).moving == old(pawn).moving
                    &&& *final(status) == PawnStatus::Moving
                    &&& *final(order) == *old(order)
                    &&& final(queue).build_queue@ == old(queue).build_queue@
                },
                None => {
                    &&& *final(pawn) == *old(pawn)
                    &&& *final(status) == PawnStatus::PathfindingError
                    &&& *final(order) == None::<WorkOrder>
                    &&& final(queue).build_queue@ == old(queue).build_queue@ + requeue_target(
                        *old(order),
                    )
                },
            }
        },
{
    if !(matches!(*status, PawnStatus::Pathfinding) || matches!(*status, PawnStatus::Repathing)) {
        return;
    }
    if let Some(t) = expected_target {
        if !(t.x == answer.target.x && t.y == answer.target.y) {
            return;
        }
    }
    match &answer.path {
        Some(p) => {
            let mut route: VecDeque<GridPos> = VecDeque::new();
            let n = p.len();
            let mut i: usize = 0;
            while i < n
                invariant
                    n == p@.len(),
                    i <= n,
                    route@ == p@.take(i as int),
                decreases n - i,
            {
                route.push_back(p[i]);
                proof {
                    assert(route@ =~= p@.take(i + 1));
                }
                i += 1;
            }
            proof {
                assert(p@.take(n as int) =~= p@);
            }
            pawn.move_path = route;
            *status = PawnStatus::Moving;
        },
        None => {
            requeue_order(queue, order);
            *order = None;
            *status = PawnStatus::PathfindingError;
        },
    }
}

/// Whether any cell of the cached route has become unwalkable.
pub open spec fn route_blocked(grid: SpatialGrid, route: Seq<GridPos>) -> bool {
    exists|i: int| 0 <= i < route.len() && !grid.spec_is_walkable(route[i])
}

/// Reacts to dynamic obstacles: a Moving or Repathing agent whose cached
/// route now crosses an unwalkable cell transitions to Repathing and asks
/// for a fresh route from the first to the last cached waypoint. Returns
/// the request to enqueue, if any.
pub fn repath_check(
    pawn: &Pawn,
    status: &mut PawnStatus,
    grid: &SpatialGrid,
    entity: u64,
) -> (r: Option<PathfindRequest>)
    requires
        grid.wf(),
    ensures
        ({
            &&& pawn.move_path@.len() > 0
            &&& (*old(status) == PawnStatus::Moving || *old(status) == PawnStatus::Repathing)
            &&& route_blocked(*grid, pawn.move_path@)
        }) ==> {
            &&& *final(status) == PawnStatus::Repathing
            &&& r == Some(
                PathfindRequest {
                    start: pawn.move_path@[0],
                    end: pawn.move_path@.last(),
                    entity,
                },
            )
        },
        !({
            &&& pawn.move_path@.len() > 0
            &&& (*old(status) == PawnStatus::Moving || *old(status) == PawnStatus::Repathing)
            &&& route_blocked(*grid, pawn.move_path@)
        }) ==> *final(status) == *old(status) && r is None,
{
    let n = pawn.move_path.len();
    if n == 0 {
        return None;
    }
    if !(matches!(*status, PawnStatus::Moving) || matches!(*status, PawnStatus::Repathing)) {
        return None;
    }
    let mut i: usize = 0;
    while i < n
        invariant
            grid.wf(),
            n == pawn.move_path@.len(),
            n > 0,
            i <= n,
            *status == *old(status),
            *old(status) == PawnStatus::Moving || *old(status) == PawnStatus::Repathing,
            forall|k: int| 0 <= k < i ==> grid.spec_is_walkable(pawn.move_path@[k]),
        decreases n - i,
    {
        if !grid.is_walkable(&pawn.move_path[i]) {
            proof {
                assert(!grid.spec_is_walkable(pawn.move_path@[i as int]));
                assert(route_blocked(*grid, pawn.move_path@));
            }
            *status = PawnStatus::Repathing;
            return Some(
                PathfindRequest {
                    start: pawn.move_path[0],
                    end: pawn.move_path[n - 1],
                    entity,
                },
            );
        }
        i += 1;
    }
    proof {
        assert(!route_blocked(*grid, pawn.move_path@));
    }
    None
}

/// One movement bookkeeping tick. A Moving agent with no work order is
/// cleaned up to Idle; an agent in any state other than Moving or Repathing
/// drops its cached route and stops; otherwise the next waypoint is taken
/// up when none is being approached, and the `moving` flag reports whether
/// there is one. Walking toward the waypoint itself is the scheduler's
/// continuous-space concern.
pub fn movement_tick(pawn: &mut Pawn, status: &mut PawnStatus, order: &Option<WorkOrder>)
    ensures
        (*old(status) == PawnStatus::Moving && (order is None)) ==> {
            &&& *final(status) == PawnStatus::Idle
            &&& *final(pawn) == *old(pawn)
        },
        !(*old(status) == PawnStatus::Moving && (order is None)) && !(*old(status)
            == PawnStatus::Moving || *old(status) == PawnStatus::Repathing) ==> {
            &&& *final(status) == *old(status)
            &&& final(pawn).moving == false
            &&& final(pawn).move_path@ == Seq::<GridPos>::empty()
            &&& final(pawn).move_to == old(pawn).move_to
            &&& final(pawn).health == old(pawn).health
            &&& final(pawn).max_health == old(pawn).max_health
        },
        !(*old(status) == PawnStatus::Moving && (order is None)) && (*old(status)
            == PawnStatus::Moving || *old(status) == PawnStatus::Repathing) ==> {
            &&& *final(status) == *old(status)
            &&& final(pawn).health == old(pawn).health
            &&& final(pawn).max_health == old(pawn).max_health
            &&& (match old(pawn).move_to {
                Some(w) => {
                    &&& final(pawn).move_to == Some(w)
                    &&& final(pawn).move_path@ == old(pawn).move_path@
                    &&& final(pawn).moving == true
                },
                None => {
                    if old(pawn).move_path@.len() > 0 {
                        &&& final(pawn).move_to == Some(old(pawn).move_path@[0])
                        &&& final(pawn).move_path@ == old(pawn).move_path@.drop_first()
                        &&& final(pawn).moving == true
                    } else {
                        &&& final(pawn).move_to is None
                        &&& final(pawn).move_path@ == old(pawn).move_path@
                        &&& final(pawn).moving == false
                    }
                },
            })
        },
{
    if matches!(*status, PawnStatus::Moving) && order.is_none() {
        *status = PawnStatus::Idle;
        return;
    }
    if !(matches!(*status, PawnStatus::Moving) || matches!(*status, PawnStatus::Repathing)) {
        pawn.moving = false;
        pawn.move_path.clear();
        return;
    }
    if pawn.move_to.is_none() {
        pawn.move_to = pawn.move_path.pop_front();
        proof {
            if old(pawn).move_path@.len() > 0 {
                assert(pawn.move_path@ =~= old(pawn).move_path@.drop_first());
            }
        }
    }
    if pawn.move_to.is_some() {
        pawn.moving = true;
    } else {
        pawn.moving = false;
    }
}

/// The status after the arrival check: an agent that was Moving and has
/// stopped starts working.
pub open spec fn arrived_status(pawn_moving: bool, st: PawnStatus, working: PawnStatus) -> PawnStatus {
    if !pawn_moving && st == PawnStatus::Moving {
        working
    } else {
        st
    }
}

/// Finds the first entry keyed by the given identifier in a table of
/// simulation objects.
fn find_entry<T>(v: &Vec<(u64, GridPos, T)>, id: u64) -> (r: Option<usize>)
    ensures
        match r {
            Some(i) => i < v@.len() && v@[i as int].0 == id && (forall|k: int|
                0 <= k < i ==> v@[k].0 != id),
            None => forall|k: int| 0 <= k < v@.len() ==> v@[k].0 != id,
        },
{
    let n = v.len();
    let mut i: usize = 0;
    while i < n
        invariant
            n == v@.len(),
            i <= n,
            forall|k: int| 0 <= k < i ==> v@[k].0 != id,
        decreases n - i,
    {
        if v[i].0 == id {
            return Some(i);
        }
        i += 1;
    }
    None
}

/// One mining tick. An agent with a mine order starts Mining when its walk
/// ends; a full load sends it home; a completed swing takes one unit from
/// the node and adds one to the load; a node that runs out is destroyed,
/// removed from the grid, and the agent goes back to Idle with its order
/// cleared, as it also does when the node has already despawned.
pub fn mine_stone_tick(
    pawn_moving: bool,
    work_timer_finished: bool,
    status: &mut PawnStatus,
    order: &mut Option<WorkOrder>,
    carried: &mut CarriedResources,
    stones: &mut Vec<(u64, GridPos, Stone)>,
    grid: &mut SpatialGrid,
)
    requires
        old(grid).wf(),
        forall|i: int|
            0 <= i < old(stones)@.len() ==> {
                let s = #[trigger] old(stones)@[i];
                contains_id(old(grid).spec_entities_at(s.1), s.0) ==> {
                    let rec = old(grid).spec_entities_at(s.1)[crate::grid::index_of_id(
                        old(grid).spec_entities_at(s.1),
                        s.0,
                    )];
                    crate::grid::in_footprint(rec.position, rec.size, s.1)
                }
            },
    ensures
        final(grid).wf(),
        ({
            let o = *old(order);
            let s1 = arrived_status(pawn_moving, *old(status), PawnStatus::Mining);
            if !(o matches Some(WorkOrder::MineStone { .. })) {
                &&& *final(status) == *old(status)
                &&& *final(order) == o
                &&& *final(carried) == *old(carried)
                &&& final(stones)@ == old(stones)@
                &&& *final(grid) == *old(grid)
            } else if s1 != PawnStatus::Mining {
                &&& *final(status) == s1
                &&& *final(order) == o
                &&& *final(carried) == *old(carried)
                &&& final(stones)@ == old(stones)@
                &&& *final(grid) == *old(grid)
            } else if old(carried).0 >= MAX_RESOURCES {
                &&& *final(status) == PawnStatus::Idle
                &&& *final(order) == Some(WorkOrder::ReturnToFactory)
                &&& *final(carried) == *old(carried)
                &&& final(stones)@ == old(stones)@
                &&& *final(grid) == *old(grid)
            } else if !work_timer_finished {
                &&& *final(status) == PawnStatus::Mining
                &&& *final(order) == o
                &&& *final(carried) == *old(carried)
                &&& final(stones)@ == old(stones)@
                &&& *final(grid) == *old(grid)
            } else {
                (o matches Some(WorkOrder::MineStone { stone_entity: id }) ==> ({
                    if (forall|k: int| 0 <= k < old(stones)@.len() ==> old(stones)@[k].0 != id) {
                        &&& *final(status) == PawnStatus::Idle
                        &&& *final(order) == None::<WorkOrder>
                        &&& *final(carried) == *old(carried)
                        &&& final(stones)@ == old(stones)@
                        &&& *final(grid) == *old(grid)
                    } else {
                        exists|i: int|
                            {
                                &&& 0 <= i < old(stones)@.len()
                                &&& (#[trigger] old(stones)@[i]).0 == id
                                &&& (forall|k: int| 0 <= k < i ==> old(stones)@[k].0 != id)
                                &&& ({
                                    let node = old(stones)@[i];
                                    let left = node.2.remaining_resources;
                                    if left > RESOURCE_GAIN_RATE {
                                        &&& *final(status) == PawnStatus::Mining
                                        &&& *final(order) == o
                                        &&& final(carried).0 == old(carried).0
                                            + RESOURCE_GAIN_RATE
                                        &&& final(stones)@ == old(stones)@.update(
                                            i,
                                            (
                                                node.0,
                                                node.1,
                                                Stone {
                                                    remaining_resources: (left
                                                        - RESOURCE_GAIN_RATE) as usize,
                                                },
                                            ),
                                        )
                                        &&& *final(grid) == *old(grid)
                                    } else {
                                        &&& *final(status) == PawnStatus::Idle
                                        &&& *final(order) == None::<WorkOrder>
                                        &&& final(carried).0 == (if left > 0 {
                                            old(carried).0 + RESOURCE_GAIN_RATE
                                        } else {
                                            old(carried).0 as int
                                        })
                                        &&& final(stones)@ == old(stones)@.remove(i)
                                        &&& !contains_id(
                                            final(grid).spec_entities_at(node.1),
                                            node.0,
                                        )
                                    }
                                })
                            }
                    }
                }))
            }
        }),
{
    let id = match order {
        Some(WorkOrder::MineStone { stone_entity }) => *stone_entity,
        _ => {
            return;
        },
    };
    if !pawn_moving && matches!(*status, PawnStatus::Moving) {
        *status = PawnStatus::Mining;
    }
    if !matches!(*status, PawnStatus::Mining) {
        return;
    }
    if carried.0 >= MAX_RESOURCES {
        *order = Some(WorkOrder::ReturnToFactory);
        *status = PawnStatus::Idle;
        return;
    }
    if !work_timer_finished {
        return;
    }
    let i = match find_entry(stones, id) {
        Some(i) => i,
        None => {
            *order = None;
            *status = PawnStatus::Idle;
            return;
        },
    };
    let node = stones[i];
    let left = node.2.remaining_resources;
    if left > 0 {
        carried.0 = carried.0.saturating_add(RESOURCE_GAIN_RATE);
        let left_now = left.saturating_sub(RESOURCE_GAIN_RATE);
        if left_now > 0 {
            stones.set(i, (node.0, node.1, Stone { remaining_resources: left_now }));
            return;
        }
    }
    let ghost g0 = *grid;
    let present = grid.remove(&node.0, &node.1);
    proof {
        if contains_id(g0.spec_entities_at(node.1), node.0) {
            let s = g0.spec_entities_at(node.1);
            let rec = s[crate::grid::index_of_id(s, node.0)];
            assert(crate::grid::in_footprint(rec.position, rec.size, node.1));
            assert(grid.spec_entities_at(node.1) == remove_id(s, node.0));
            g0.lemma_wf_cell(node.1);
            crate::grid::lemma_remove_id_gone(s, node.0);
        }
    }
    stones.remove(i);
    *order = None;
    *status = PawnStatus::Idle;
}

/// One hauling tick for an agent fetching stock for a structure. An Idle
/// hauler first paths to the factory; once it has stopped within reach it
/// loads as much as the structure still needs, the carrying cap and the
/// stockpile permit, and turns its order into building. A haul that would
/// load nothing gives the structure back to the build queue; a structure
/// that no longer exists clears the order.
pub fn pickup_stone_tick(
    pawn_id: u64,
    pawn_pos: GridPos,
    factory_pos: GridPos,
    status: &mut PawnStatus,
    order: &mut Option<WorkOrder>,
    carried: &mut CarriedResources,
    placeables: &Vec<(u64, GridPos, PlaceableType)>,
    game: &mut GameResources,
    queue: &mut WorkQueue,
) -> (r: Option<PathfindRequest>)
    requires
        forall|k: int|
            0 <= k < placeables@.len() ==> (#[trigger] placeables@[k]).2.current_resources
                <= placeables@[k].2.max_resources,
        old(carried).0 + MAX_RESOURCES <= usize::MAX,
    ensures
        ({
            let o = *old(order);
            let unchanged = {
                &&& *final(status) == *old(status)
                &&& *final(order) == o
                &&& *final(carried) == *old(carried)
                &&& *final(game) == *old(game)
                &&& final(queue).build_queue@ == old(queue).build_queue@
            };
            if !(o matches Some(WorkOrder::PickupStoneFromFactory { .. })) {
                unchanged && r is None
            } else {
                (o matches Some(WorkOrder::PickupStoneFromFactory { for_entity }) ==> ({
                    if (forall|k: int|
                        0 <= k < placeables@.len() ==> (#[trigger] placeables@[k]).0
                            != for_entity) {
                        &&& *final(status) == PawnStatus::Idle
                        &&& *final(order) == None::<WorkOrder>
                        &&& *final(carried) == *old(carried)
                        &&& *final(game) == *old(game)
                        &&& final(queue).build_queue@ == old(queue).build_queue@
                        &&& r is None
                    } else if *old(status) == PawnStatus::Idle {
                        &&& *final(status) == PawnStatus::Pathfinding
                        &&& *final(order) == o
                        &&& *final(carried) == *old(carried)
                        &&& *final(game) == *old(game)
                        &&& final(queue).build_queue@ == old(queue).build_queue@
                        &&& r == Some(
                            PathfindRequest { start: pawn_pos, end: factory_pos, entity: pawn_id },
                        )
                    } else if pawn_pos.spec_dist_sq(factory_pos) > 4 {
                        unchanged && (r is None)
                    } else {
                        exists|i: int|
                            {
                                &&& 0 <= i < placeables@.len()
                                &&& (#[trigger] placeables@[i]).0 == for_entity
                                &&& (forall|k: int| 0 <= k < i ==> placeables@[k].0 != for_entity)
                                &&& ({
                                    let p = placeables@[i].2;
                                    let missing = p.max_resources - p.current_resources;
                                    let want = if MAX_RESOURCES <= missing {
                                        MAX_RESOURCES as int
                                    } else {
                                        missing
                                    };
                                    let add = if want <= old(game).stone {
                                        want
                                    } else {
                                        old(game).stone as int
                                    };
                                    &&& final(game).stone == old(game).stone - add
                                    &&& final(game).pawns == old(game).pawns
                                    &&& final(carried).0 == old(carried).0 + add
                                    &&& *final(status) == PawnStatus::Idle
                                    &&& (if old(carried).0 + add == 0 {
                                        &&& *final(order) == None::<WorkOrder>
                                        &&& final(queue).build_queue@ == old(
                                            queue,
                                        ).build_queue@.push(for_entity)
                                    } else {
                                        &&& *final(order) == Some(
                                            WorkOrder::BuildItem { item_entity: for_entity },
                                        )
                                        &&& final(queue).build_queue@ == old(queue).build_queue@
                                    })
                                    &&& r is None
                                })
                            }
                    }
                }))
            }
        }),
{
    let for_entity = match order {
        Some(WorkOrder::PickupStoneFromFactory { for_entity }) => *for_entity,
        _ => {
            return None;
        },
    };
    let i = match find_entry(placeables, for_entity) {
        Some(i) => i,
        None => {
            *order = None;
            *status = PawnStatus::Idle;
            return None;
        },
    };
    if matches!(*status, PawnStatus::Idle) {
        *status = PawnStatus::Pathfinding;
        return Some(PathfindRequest { start: pawn_pos, end: factory_pos, entity: pawn_id });
    }
    if pawn_pos.dist_sq(factory_pos) > 4 {
        return None;
    }
    let p = placeables[i].2;
    let missing = p.get_missing_resource_count();
    let mut to_add = if MAX_RESOURCES <= missing {
        MAX_RESOURCES
    } else {
        missing
    };
    if to_add > game.stone {
        to_add = game.stone;
    }
    game.stone = game.stone - to_add;
    carried.0 = carried.0 + to_add;
    *status = PawnStatus::Idle;
    *order = Some(WorkOrder::BuildItem { item_entity: for_entity });
    if carried.0 == 0 {
        queue.build_queue.push_back(for_entity);
        *order = None;
        *status = PawnStatus::Idle;
    }
    None
}

/// One building tick. An Idle builder without enough in hand goes hauling;
/// one with enough paths to the site; one that has walked within reach
/// starts Building and deposits its load, finishing the structure or going
/// back for more. A structure that no longer exists clears the order.
pub fn build_tick(
    pawn_id: u64,
    pawn_pos: GridPos,
    status: &mut PawnStatus,
    order: &mut Option<WorkOrder>,
    carried: &mut CarriedResources,
    placeables: &mut Vec<(u64, GridPos, PlaceableType)>,
) -> (r: Option<PathfindRequest>)
    requires
        forall|k: int|
            0 <= k < old(placeables)@.len() ==> (#[trigger] old(
                placeables,
            )@[k]).2.current_resources <= old(placeables)@[k].2.max_resources,
        forall|k: int|
            0 <= k < old(placeables)@.len() ==> (#[trigger] old(
                placeables,
            )@[k]).2.max_resources + old(carried).0 <= usize::MAX,
    ensures
        ({
            let o = *old(order);
            let unchanged = {
                &&& *final(status) == *old(status)
                &&& *final(order) == o
                &&& *final(carried) == *old(carried)
                &&& final(placeables)@ == old(placeables)@
            };
            if !(o matches Some(WorkOrder::BuildItem { .. })) {
                unchanged && r is None
            } else {
                (o matches Some(WorkOrder::BuildItem { item_entity }) ==> ({
                    if (forall|k: int|
                        0 <= k < old(placeables)@.len() ==> (#[trigger] old(placeables)@[k]).0
                            != item_entity) {
                        &&& *final(status) == PawnStatus::Idle
                        &&& *final(order) == None::<WorkOrder>
                        &&& *final(carried) == *old(carried)
                        &&& final(placeables)@ == old(placeables)@
                        &&& r is None
                    } else {
                        exists|i: int|
                            {
                                &&& 0 <= i < old(placeables)@.len()
                                &&& (#[trigger] old(placeables)@[i]).0 == item_entity
                                &&& (forall|k: int|
                                    0 <= k < i ==> old(placeables)@[k].0 != item_entity)
                                &&& ({
                                    let site = old(placeables)@[i];
                                    let p = site.2;
                                    let missing = p.max_resources - p.current_resources;
                                    if *old(status) == PawnStatus::Idle {
                                        if old(carried).0 < missing && old(carried).0
                                            < MAX_RESOURCES {
                                            &&& *final(status) == PawnStatus::Idle
                                            &&& *final(order) == Some(
                                                WorkOrder::PickupStoneFromFactory {
                                                    for_entity: item_entity,
                                                },
                                            )
                                            &&& *final(carried) == *old(carried)
                                            &&& final(placeables)@ == old(placeables)@
                                            &&& r is None
                                        } else {
                                            &&& *final(status) == PawnStatus::Pathfinding
                                            &&& *final(order) == o
                                            &&& *final(carried) == *old(carried)
                                            &&& final(placeables)@ == old(placeables)@
                                            &&& r == Some(
                                                PathfindRequest {
                                                    start: pawn_pos,
                                                    end: site.1,
                                                    entity: pawn_id,
                                                },
                                            )
                                        }
                                    } else {
                                        ({
                                            let working = pawn_pos.spec_dist_sq(site.1) <= 2
                                                && *old(status) == PawnStatus::Moving;
                                            let s1 = if working {
                                                PawnStatus::Building
                                            } else {
                                                *old(status)
                                            };
                                            if s1 != PawnStatus::Building {
                                                &&& *final(status) == s1
                                                &&& *final(order) == o
                                                &&& *final(carried) == *old(carried)
                                                &&& final(placeables)@ == old(placeables)@
                                                &&& r is None
                                            } else {
                                                ({
                                                    let total = p.current_resources + old(
                                                        carried,
                                                    ).0;
                                                    let to_set = if total <= p.max_resources {
                                                        total
                                                    } else {
                                                        p.max_resources as int
                                                    };
                                                    let diff = to_set - p.current_resources;
                                                    &&& final(placeables)@ == old(
                                                        placeables,
                                                    )@.update(
                                                        i,
                                                        (
                                                            site.0,
                                                            site.1,
                                                            PlaceableType {
                                                                current_resources: to_set as usize,
                                                                ..p
                                                            },
                                                        ),
                                                    )
                                                    &&& final(carried).0 == diff
                                                    &&& *final(status) == PawnStatus::Idle
                                                    &&& (if to_set == p.max_resources {
                                                        *final(order) == None::<WorkOrder>
                                                    } else {
                                                        *final(order) == Some(
                                                            WorkOrder::PickupStoneFromFactory {
                                                                for_entity: item_entity,
                                                            },
                                                        )
                                                    })
                                                    &&& r is None
                                                })
                                            }
                                        })
                                    }
                                })
                            }
                    }
                }))
            }
        }),
{
    let item_entity = match order {
        Some(WorkOrder::BuildItem { item_entity }) => *item_entity,
        _ => {
            return None;
        },
    };
    let i = match find_entry(placeables, item_entity) {
        Some(i) => i,
        None => {
            *status = PawnStatus::Idle;
            *order = None;
            return None;
        },
    };
    let site = placeables[i];
    let p = site.2;
    if matches!(*status, PawnStatus::Idle) {
        let missing = p.get_missing_resource_count();
        if carried.0 < missing && carried.0 < MAX_RESOURCES {
            *order = Some(WorkOrder::PickupStoneFromFactory { for_entity: item_entity });
            return None;
        }
        *status = PawnStatus::Pathfinding;
        return Some(PathfindRequest { start: pawn_pos, end: site.1, entity: pawn_id });
    }
    if pawn_pos.dist_sq(site.1) <= 2 && matches!(*status, PawnStatus::Moving) {
        *status = PawnStatus::Building;
    }
    if !matches!(*status, PawnStatus::Building) {
        return None;
    }
    let total = p.current_resources + carried.0;
    let to_set = if total <= p.max_resources {
        total
    } else {
        p.max_resources
    };
    let diff = to_set - p.current_resources;
    placeables.set(i, (site.0, site.1, PlaceableType { current_resources: to_set, ..p }));
    carried.0 = diff;
    *status = PawnStatus::Idle;
    if to_set == p.max_resources {
        *order = None;
    } else {
        *order = Some(WorkOrder::PickupStoneFromFactory { for_entity: item_entity });
    }
    None
}

/// One homebound tick. An Idle returner paths to the factory; one whose
/// walk has ended deposits its whole load into the stockpile, clears the
/// order and goes Idle.
pub fn return_to_factory_tick(
    pawn_id: u64,
    pawn_pos: GridPos,
    factory_pos: GridPos,
    pawn_moving: bool,
    status: &mut PawnStatus,
    order: &mut Option<WorkOrder>,
    carried: &mut CarriedResources,
    game: &mut GameResources,
) -> (r: Option<PathfindRequest>)
    requires
        old(game).stone + old(carried).0 <= usize::MAX,
    ensures
        ({
            let o = *old(order);
            let unchanged = {
                &&& *final(status) == *old(status)
                &&& *final(order) == o
                &&& *final(carried) == *old(carried)
                &&& *final(game) == *old(game)
            };
            if o != Some(WorkOrder::ReturnToFactory) {
                unchanged && r is None
            } else if *old(status) == PawnStatus::Idle {
                &&& *final(status) == PawnStatus::Pathfinding
                &&& *final(order) == o
                &&& *final(carried) == *old(carried)
                &&& *final(game) == *old(game)
                &&& r == Some(
                    PathfindRequest { start: pawn_pos, end: factory_pos, entity: pawn_id },
                )
            } else if !pawn_moving && *old(status) == PawnStatus::Moving {
                &&& *final(status) == PawnStatus::Idle
                &&& *final(order) == None::<WorkOrder>
                &&& final(carried).0 == 0
                &&& final(game).stone == old(game).stone + old(carried).0
                &&& final(game).pawns == old(game).pawns
                &&& r is None
            } else {
                unchanged && (r is None)
            }
        }),
{
    if !matches!(*order, Some(WorkOrder::ReturnToFactory)) {
        return None;
    }
    if matches!(*status, PawnStatus::Idle) {
        *status = PawnStatus::Pathfinding;
        return Some(PathfindRequest { start: pawn_pos, end: factory_pos, entity: pawn_id });
    }
    if !pawn_moving && matches!(*status, PawnStatus::Moving) {
        *status = PawnStatus::Idle;
        *order = None;
        game.stone = game.stone + carried.0;
        carried.0 = 0;
    }
    None
}

/// One recovery tick. An agent parked in PathfindingError waits out its
/// cooldown, then gives any build or haul target back to the shared queue,
/// clears its order, goes Idle, and asks for a route back to the factory.
pub fn retry_pathfinding_tick(
    pawn_id: u64,
    pawn_pos: GridPos,
    factory_pos: GridPos,
    retry_timer_finished: bool,
    status: &mut PawnStatus,
    order: &mut Option<WorkOrder>,
    queue: &mut WorkQueue,
) -> (r: Option<PathfindRequest>)
    ensures
        !(*old(status) == PawnStatus::PathfindingError && retry_timer_finished) ==> {
            &&& *final(status) == *old(status)
            &&& *final(order) == *old(order)
            &&& final(queue).build_queue@ == old(queue).build_queue@
            &&& r is None
        },
        (*old(status) == PawnStatus::PathfindingError && retry_timer_finished) ==> {
            &&& *final(status) == PawnStatus::Idle
            &&& *final(order) == None::<WorkOrder>
            &&& final(queue).build_queue@ == old(queue).build_queue@ + requeue_target(*old(order))
            &&& r == Some(PathfindRequest { start: pawn_pos, end: factory_pos, entity: pawn_id })
        },
{
    if !matches!(*status, PawnStatus::PathfindingError) {
        return None;
    }
    if !retry_timer_finished {
        return None;
    }
    *status = PawnStatus::Idle;
    requeue_order(queue, order);
    *order = None;
    Some(PathfindRequest { start: pawn_pos, end: factory_pos, entity: pawn_id })
}

/// Whether some cell within the square box of the given radius holds an
/// occupant with one of the listed identifiers.
pub open spec fn stone_in_range(
    grid: SpatialGrid,
    center: GridPos,
    range: i32,
    ids: Seq<u64>,
) -> bool {
    exists|c: GridPos, m: int|
        #![trigger grid.spec_entities_at(c)[m]]
        crate::grid::in_range(center, range, c) && 0 <= m < grid.spec_entities_at(c).len()
            && ids.contains(grid.spec_entities_at(c)[m].entity)
}

/// What an idle agent decided to do this tick: its next status, the order
/// it took on, and the path request to enqueue, if any.
pub struct IdleWorkDecision {
    pub status: PawnStatus,
    pub order: Option<WorkOrder>,
    pub request: Option<PathfindRequest>,
}

/// The structure record keyed by `id` in a table with distinct keys.
pub open spec fn placeable_of(t: Seq<(u64, GridPos, PlaceableType)>, id: u64) -> PlaceableType {
    t[choose|i: int| 0 <= i < t.len() && (#[trigger] t[i]).0 == id].2
}

/// Whether the table has a structure record keyed by `id`.
pub open spec fn table_has(t: Seq<(u64, GridPos, PlaceableType)>, id: u64) -> bool {
    exists|i: int| 0 <= i < t.len() && (#[trigger] t[i]).0 == id
}

/// Whether the front of the build queue can be taken on: it names a
/// structure that still exists and whose missing resources the agent's load
/// together with the stockpile can cover.
pub open spec fn build_front_ready(
    queue: Seq<u64>,
    t: Seq<(u64, GridPos, PlaceableType)>,
    carried: int,
    stock: int,
) -> bool {
    &&& queue.len() > 0
    &&& table_has(t, queue[0])
    &&& carried + stock > placeable_of(t, queue[0]).max_resources - placeable_of(
        t,
        queue[0],
    ).current_resources
}

/// One work-assignment tick for an Idle agent, in priority order: take on
/// the front of the build queue when the resources for it are within reach;
/// otherwise return home when the load is full; otherwise search outward in
/// expanding rings, probing one resource node per ring with a path query
/// (allowed to end on resource cells), and go mine the first node found
/// along a successful path; when the bounded search finds nothing, stay
/// Idle for this tick.
#[verifier::loop_isolation(false)]
pub fn work_idle_pawn(
    pawn_id: u64,
    pawn_pos: GridPos,
    carried: &CarriedResources,
    queue: &mut WorkQueue,
    placeables: &Vec<(u64, GridPos, PlaceableType)>,
    game_stone: usize,
    grid: &SpatialGrid,
    stones: &Vec<u64>,
    factory_pos: GridPos,
) -> (r: IdleWorkDecision)
    requires
        grid.wf(),
        forall|i: int, j: int|
            0 <= i < j < placeables@.len() ==> (#[trigger] placeables@[i]).0 != (
            #[trigger] placeables@[j]).0,
        forall|k: int|
            0 <= k < placeables@.len() ==> (#[trigger] placeables@[k]).2.current_resources
                <= placeables@[k].2.max_resources,
        carried.0 + game_stone <= usize::MAX,
        i32::MIN + RESOURCE_MAX_SEARCH_RANGE <= pawn_pos.x <= i32::MAX - RESOURCE_MAX_SEARCH_RANGE,
        i32::MIN + RESOURCE_MAX_SEARCH_RANGE <= pawn_pos.y <= i32::MAX - RESOURCE_MAX_SEARCH_RANGE,
    ensures
        ({
            let q0 = old(queue).build_queue@;
            let ready = build_front_ready(
                q0,
                placeables@,
                carried.0 as int,
                game_stone as int,
            );
            if ready {
                &&& r.status == PawnStatus::Idle
                &&& r.order == Some(WorkOrder::BuildItem { item_entity: q0[0] })
                &&& r.request is None
                &&& final(queue).build_queue@ == q0.drop_first()
            } else if carried.0 >= MAX_RESOURCES {
                &&& r.status == PawnStatus::Pathfinding
                &&& r.order == Some(WorkOrder::ReturnToFactory)
                &&& r.request == Some(
                    PathfindRequest { start: pawn_pos, end: factory_pos, entity: pawn_id },
                )
                &&& final(queue).build_queue@ == q0
            } else {
                &&& final(queue).build_queue@ == q0
                &&& (match r.order {
                    None => r.status == PawnStatus::Idle && (r.request is None),
                    Some(WorkOrder::MineStone { stone_entity }) => {
                        &&& r.status == PawnStatus::Pathfinding
                        &&& stones@.contains(stone_entity)
                        &&& stone_in_range(
                            *grid,
                            pawn_pos,
                            RESOURCE_MAX_SEARCH_RANGE as i32,
                            stones@,
                        )
                        &&& (r.request matches Some(req) && req.entity == pawn_id && req.start
                            == pawn_pos && contains_id(
                            grid.spec_entities_at(req.end),
                            stone_entity,
                        ) && crate::path::has_route(*grid, pawn_pos, req.end, stones@))
                    },
                    _ => false,
                })
                &&& (!stone_in_range(*grid, pawn_pos, RESOURCE_MAX_SEARCH_RANGE as i32, stones@)
                    ==> (r.order is None))
            }
        }),
{
    let ghost q0 = queue.build_queue@;
    if queue.build_queue.len() > 0 {
        let front = queue.build_queue[0];
        if let Some(i) = find_entry(placeables, front) {
            let p = placeables[i].2;
            proof {
                let j = choose|j: int|
                    0 <= j < placeables@.len() && (#[trigger] placeables@[j]).0 == front;
                assert(j == i);
            }
            let missing = p.get_missing_resource_count();
            if carried.0 + game_stone > missing {
                queue.build_queue.pop_front();
                return IdleWorkDecision {
                    status: PawnStatus::Idle,
                    order: Some(WorkOrder::BuildItem { item_entity: front }),
                    request: None,
                };
            }
        }
    }
    proof {
        assert(!build_front_ready(q0, placeables@, carried.0 as int, game_stone as int)) by {
            if build_front_ready(q0, placeables@, carried.0 as int, game_stone as int) {
                let j = choose|j: int|
                    0 <= j < placeables@.len() && (#[trigger] placeables@[j]).0 == q0[0];
            }
        }
    }
    if carried.0 >= MAX_RESOURCES {
        return IdleWorkDecision {
            status: PawnStatus::Pathfinding,
            order: Some(WorkOrder::ReturnToFactory),
            request: Some(PathfindRequest { start: pawn_pos, end: factory_pos, entity: pawn_id }),
        };
    }
    let mut radius: usize = crate::pawn::RESOURCE_SEARCH_START_RANGE;
    while radius <= RESOURCE_MAX_SEARCH_RANGE
        invariant
            grid.wf(),
            queue.build_queue@ == q0,
            crate::pawn::RESOURCE_SEARCH_START_RANGE <= radius,
            radius <= RESOURCE_MAX_SEARCH_RANGE + crate::pawn::RESOURCE_SEARCH_RANGE_STEP,
            i32::MIN + RESOURCE_MAX_SEARCH_RANGE <= pawn_pos.x <= i32::MAX
                - RESOURCE_MAX_SEARCH_RANGE,
            i32::MIN + RESOURCE_MAX_SEARCH_RANGE <= pawn_pos.y <= i32::MAX
                - RESOURCE_MAX_SEARCH_RANGE,
        decreases RESOURCE_MAX_SEARCH_RANGE + crate::pawn::RESOURCE_SEARCH_RANGE_STEP - radius,
    {
        let nearby = grid.get_entities_in_range(&pawn_pos, radius as i32);
        let mut found: Option<GridPos> = None;
        let m = nearby.len();
        let mut j: usize = 0;
        while j < m
            invariant
                m == nearby@.len(),
                j <= m,
                (found matches Some(_) ==> stone_in_range(
                    *grid,
                    pawn_pos,
                    RESOURCE_MAX_SEARCH_RANGE as i32,
                    stones@,
                )),
            decreases m - j,
        {
            if crate::path::id_vec_contains(stones, nearby[j].entity) {
                found = Some(nearby[j].position);
                proof {
                    let rec = nearby@[j as int];
                    let (c, mm): (GridPos, int) = choose|c: GridPos, mm: int|
                        crate::grid::in_range(pawn_pos, radius as i32, c) && 0 <= mm
                            < grid.spec_entities_at(c).len() && grid.spec_entities_at(c)[mm]
                            == rec;
                    assert(crate::grid::in_range(pawn_pos, RESOURCE_MAX_SEARCH_RANGE as i32, c));
                    assert(stones@.contains(grid.spec_entities_at(c)[mm].entity));
                }
                break ;
            }
            j += 1;
        }
        let target = match found {
            Some(t) => t,
            None => {
                radius += crate::pawn::RESOURCE_SEARCH_RANGE_STEP;
                continue ;
            },
        };
        let path = match crate::path::get_pathing(
            PathfindRequest { start: pawn_pos, end: target, entity: pawn_id },
            grid,
            stones,
        ) {
            Some(path) => path,
            None => {
                radius += crate::pawn::RESOURCE_SEARCH_RANGE_STEP;
                continue ;
            },
        };
        let pn = path.len();
        let mut k: usize = 0;
        while k < pn
            invariant
                grid.wf(),
                pn == path@.len(),
                k <= pn,
            decreases pn - k,
        {
            let cell = path[k];
            let occupants = grid.get_entities_at(&cell);
            let om = occupants.len();
            let mut oi: usize = 0;
            while oi < om
                invariant
                    om == occupants@.len(),
                    oi <= om,
                    occupants@ == grid.spec_entities_at(cell),
                decreases om - oi,
            {
                if crate::path::id_vec_contains(stones, occupants[oi].entity) {
                    proof {
                        assert(contains_id(grid.spec_entities_at(cell), occupants@[oi as int].entity));
                        let full = seq![pawn_pos] + path@;
                        crate::path::lemma_route_prefix(
                            *grid,
                            pawn_pos,
                            target,
                            stones@,
                            full,
                            k as int + 1,
                        );
                        assert(full[k as int + 1] == cell);
                    }
                    return IdleWorkDecision {
                        status: PawnStatus::Pathfinding,
                        order: Some(
                            WorkOrder::MineStone { stone_entity: occupants[oi].entity },
                        ),
                        request: Some(
                            PathfindRequest { start: pawn_pos, end: cell, entity: pawn_id },
                        ),
                    };
                }
                oi += 1;
            }
            k += 1;
        }
        radius += crate::pawn::RESOURCE_SEARCH_RANGE_STEP;
    }
    IdleWorkDecision { status: PawnStatus::Idle, order: None, request: None }
}

/// The first occupant along the sequence whose identifier the caller
/// listed, scanning each occupant in order.
pub open spec fn first_allowed_occupant(s: Seq<SpatialEntity>, ids: Seq<u64>) -> Option<u64>
    decreases s.len(),
{
    if s.len() == 0 {
        None
    } else if ids.contains(s[0].entity) {
        Some(s[0].entity)
    } else {
        first_allowed_occupant(s.drop_first(), ids)
    }
}

/// The first listed occupant met along a route, scanning the cells from
/// the front.
pub open spec fn first_stone_along(grid: SpatialGrid, p: Seq<GridPos>, ids: Seq<u64>) -> Option<
    u64,
>
    decreases p.len(),
{
    if p.len() == 0 {
        None
    } else {
        match first_allowed_occupant(grid.spec_entities_at(p[0]), ids) {
            Some(id) => Some(id),
            None => first_stone_along(grid, p.drop_first(), ids),
        }
    }
}

proof fn lemma_first_allowed_at(s: Seq<SpatialEntity>, ids: Seq<u64>, j: int)
    requires
        0 <= j < s.len(),
        ids.contains(s[j].entity),
        forall|m: int| 0 <= m < j ==> !ids.contains(s[m].entity),
    ensures
        first_allowed_occupant(s, ids) == Some(s[j].entity),
    decreases j,
{
    if j > 0 {
        lemma_first_allowed_at(s.drop_first(), ids, j - 1);
    }
}

proof fn lemma_first_allowed_none(s: Seq<SpatialEntity>, ids: Seq<u64>)
    requires
        forall|m: int| 0 <= m < s.len() ==> !ids.contains(s[m].entity),
    ensures
        first_allowed_occupant(s, ids) is None,
    decreases s.len(),
{
    if s.len() > 0 {
        lemma_first_allowed_none(s.drop_first(), ids);
    }
}

/// Walks the route the pathfinder answers for the query from `closest_to`
/// toward a known resource node (resource cells made passable) and returns
/// the first resource occupant met along it: the node nearest to the
/// walker that does not block the way to the others. Nothing comes back
/// exactly when no route exists or no listed occupant lies on the answered
/// route.
#[verifier::loop_isolation(false)]
pub fn find_closest_stone(
    stones: &Vec<u64>,
    closest_to: &GridPos,
    starting_stone: &SpatialEntity,
    grid: &SpatialGrid,
) -> (r: Option<u64>)
    requires
        grid.wf(),
    ensures
        (match crate::path::astar_route(
            grid.spec_cells(),
            *closest_to,
            starting_stone.position,
            stones@,
        ) {
            Some(full) => r == first_stone_along(*grid, full.drop_first(), stones@),
            None => r is None,
        }),
        (r matches Some(id) ==> stones@.contains(id) && (exists|c: GridPos|
            contains_id(grid.spec_entities_at(c), id))),
{
    let path = match crate::path::get_pathing(
        PathfindRequest {
            start: *closest_to,
            end: starting_stone.position,
            entity: u64::MAX,
        },
        grid,
        stones,
    ) {
        Some(path) => path,
        None => {
            return None;
        },
    };
    proof {
        assert((seq![*closest_to] + path@).drop_first() =~= path@);
        assert(path@.skip(0) =~= path@);
    }
    let pn = path.len();
    let mut k: usize = 0;
    while k < pn
        invariant
            grid.wf(),
            pn == path@.len(),
            k <= pn,
            first_stone_along(*grid, path@, stones@) == first_stone_along(
                *grid,
                path@.skip(k as int),
                stones@,
            ),
        decreases pn - k,
    {
        let cell = path[k];
        let occupants = grid.get_entities_at(&cell);
        let om = occupants.len();
        let mut oi: usize = 0;
        while oi < om
            invariant
                grid.wf(),
                pn == path@.len(),
                k < pn,
                cell == path@[k as int],
                om == occupants@.len(),
                oi <= om,
                occupants@ == grid.spec_entities_at(cell),
                first_stone_along(*grid, path@, stones@) == first_stone_along(
                    *grid,
                    path@.skip(k as int),
                    stones@,
                ),
                forall|m: int| 0 <= m < oi ==> !stones@.contains(occupants@[m].entity),
            decreases om - oi,
        {
            if crate::path::id_vec_contains(stones, occupants[oi].entity) {
                proof {
                    assert(contains_id(grid.spec_entities_at(cell), occupants@[oi as int].entity));
                    lemma_first_allowed_at(occupants@, stones@, oi as int);
                    assert(path@.skip(k as int)[0] == cell);
                    assert(first_stone_along(*grid, path@.skip(k as int), stones@) == Some(
                        occupants@[oi as int].entity,
                    ));
                }
                return Some(occupants[oi].entity);
            }
            oi += 1;
        }
        proof {
            lemma_first_allowed_none(occupants@, stones@);
            assert(path@.skip(k as int)[0] == cell);
            assert(path@.skip(k as int).drop_first() =~= path@.skip(k as int + 1));
        }
        k += 1;
    }
    proof {
        assert(path@.skip(pn as int) =~= Seq::<GridPos>::empty());
    }
    None
}

/// Takes up the next waypoint once the agent has come within the arrival
/// tolerance of the current one.
pub fn arrive_at_waypoint(pawn: &mut Pawn)
    ensures
        final(pawn).move_to == (if old(pawn).move_path@.len() > 0 {
            Some(old(pawn).move_path@[0])
        } else {
            None
        }),
        final(pawn).move_path@ == (if old(pawn).move_path@.len() > 0 {
            old(pawn).move_path@.drop_first()
        } else {
            old(pawn).move_path@
        }),
        final(pawn).health == old(pawn).health,
        final(pawn).max_health == old(pawn).max_health,
        final(pawn).moving == old(pawn).moving,
{
    pawn.move_to = pawn.move_path.pop_front();
    proof {
        if old(pawn).move_path@.len() > 0 {
            assert(pawn.move_path@ =~= old(pawn).move_path@.drop_first());
        }
    }
}

} // verus!

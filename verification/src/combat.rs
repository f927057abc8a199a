//! Combat: target acquisition, the approach-and-strike loop, and damage
//! resolution. Combat pre-empts work orders: a found opponent replaces any
//! build or haul order, whose target goes back to the shared queue.

use vstd::prelude::*;

use crate::grid::SpatialGrid;
use crate::grid_pos::GridPos;
use crate::path::PathfindRequest;
use crate::path::get_pathing;
use crate::path::has_route;
use crate::path::valid_route;
use crate::pawn::ENEMY_ATTACK_STRENGTH;
use crate::pawn::ENEMY_TILE_RANGE;
use crate::pawn::EnemyWave;
use crate::pawn::GameResources;
use crate::pawn::PAWN_ATTACK_STRENGTH;
use crate::pawn::Pawn;
use crate::pawn::PawnStatus;
use crate::pawn::WorkOrder;
use crate::pawn::WorkQueue;
use crate::work::requeue_target;

verus! {

/// Whether some route of at most `steps` cells (start included) leads from
/// `a` to `b`.
#[verifier::opaque]
pub open spec fn reachable_within(grid: SpatialGrid, a: GridPos, b: GridPos, steps: int) -> bool {
    exists|p: Seq<GridPos>|
        valid_route(grid, a, b, Seq::<u64>::empty(), p) && p.len() <= steps
}

/// Whether an opponent can be engaged: within the engagement range by
/// straight-line distance, and the search answers the query to its cell
/// with a route of at most range-many cells.
pub open spec fn engageable(grid: SpatialGrid, pawn_pos: GridPos, c: (u64, GridPos)) -> bool {
    &&& pawn_pos.spec_dist_sq(c.1) <= ENEMY_TILE_RANGE * ENEMY_TILE_RANGE
    &&& (crate::path::astar_route(grid.spec_cells(), pawn_pos, c.1, Seq::<u64>::empty())
        matches Some(p) && p.len() <= ENEMY_TILE_RANGE)
}

/// Scans the opposing faction for the nearest opponent provably reachable
/// within the engagement range: within range by straight-line distance, and
/// confirmed by an actual path of at most range-many cells. Agents already
/// fighting, or whose scan cooldown has not elapsed, do not acquire a
/// target. A target comes back exactly when some opponent is engageable;
/// among the engageable ones the nearest wins, and among several at the
/// least distance the earliest listed.
pub fn search_for_attack_target(
    pawn_id: u64,
    pawn_pos: GridPos,
    has_attack_order: bool,
    search_timer_finished: bool,
    candidates: &Vec<(u64, GridPos)>,
    grid: &SpatialGrid,
) -> (r: Option<(u64, GridPos)>)
    requires
        grid.wf(),
    ensures
        (has_attack_order || !search_timer_finished) ==> r is None,
        !(has_attack_order || !search_timer_finished) ==> (r is None) == (forall|j: int|
            0 <= j < candidates@.len() ==> !engageable(*grid, pawn_pos, #[trigger] candidates@[j])),
        (r matches Some(t) ==> {
            &&& engageable(*grid, pawn_pos, t)
            &&& pawn_pos.spec_dist_sq(t.1) <= ENEMY_TILE_RANGE * ENEMY_TILE_RANGE
            &&& has_route(*grid, pawn_pos, t.1, Seq::<u64>::empty())
            &&& reachable_within(*grid, pawn_pos, t.1, ENEMY_TILE_RANGE as int)
            &&& forall|j: int|
                0 <= j < candidates@.len() && engageable(*grid, pawn_pos, #[trigger] candidates@[j])
                    ==> pawn_pos.spec_dist_sq(t.1) <= pawn_pos.spec_dist_sq(candidates@[j].1)
            &&& exists|i: int|
                {
                    &&& 0 <= i < candidates@.len()
                    &&& #[trigger] candidates@[i] == t
                    &&& forall|j: int|
                        0 <= j < i && engageable(*grid, pawn_pos, #[trigger] candidates@[j])
                            ==> pawn_pos.spec_dist_sq(candidates@[j].1) > pawn_pos.spec_dist_sq(
                            t.1,
                        )
                }
        }),
{
    if has_attack_order || !search_timer_finished {
        return None;
    }
    let n = candidates.len();
    let mut best: Option<(u64, GridPos)> = None;
    let mut best_d: u128 = 0;
    let ghost mut best_i: int = 0;
    let mut i: usize = 0;
    while i < n
        invariant
            grid.wf(),
            n == candidates@.len(),
            i <= n,
            match best {
                Some(t) => {
                    &&& 0 <= best_i < i
                    &&& candidates@[best_i] == t
                    &&& best_d == pawn_pos.spec_dist_sq(t.1)
                    &&& engageable(*grid, pawn_pos, t)
                    &&& pawn_pos.spec_dist_sq(t.1) <= ENEMY_TILE_RANGE * ENEMY_TILE_RANGE
                    &&& has_route(*grid, pawn_pos, t.1, Seq::<u64>::empty())
                    &&& reachable_within(*grid, pawn_pos, t.1, ENEMY_TILE_RANGE as int)
                    &&& forall|j: int|
                        0 <= j < i && engageable(*grid, pawn_pos, #[trigger] candidates@[j])
                            ==> best_d <= pawn_pos.spec_dist_sq(candidates@[j].1)
                    &&& forall|j: int|
                        0 <= j < best_i && engageable(*grid, pawn_pos, #[trigger] candidates@[j])
                            ==> pawn_pos.spec_dist_sq(candidates@[j].1) > best_d
                },
                None => forall|j: int|
                    0 <= j < i ==> !engageable(*grid, pawn_pos, #[trigger] candidates@[j]),
            },
        decreases n - i,
    {
        let cand = candidates[i];
        let d = pawn_pos.dist_sq(cand.1);
        if candidate_in_reach(pawn_id, pawn_pos, cand, d, grid) {
            let better = match best {
                Some(_) => d < best_d,
                None => true,
            };
            if better {
                best = Some(cand);
                best_d = d;
                proof {
                    best_i = i as int;
                }
            }
        }
        i += 1;
    }
    best
}

/// A route of at most range-many cells shows the range-bounded
/// reachability.
proof fn lemma_reach_witness(grid: SpatialGrid, a: GridPos, b: GridPos, p: Seq<GridPos>)
    requires
        valid_route(grid, a, b, Seq::<u64>::empty(), p),
        p.len() <= ENEMY_TILE_RANGE,
    ensures
        reachable_within(grid, a, b, ENEMY_TILE_RANGE as int),
{
    reveal(reachable_within);
}

/// Whether an opponent is close enough to engage and an actual path of at
/// most range-many cells reaches it.
fn candidate_in_reach(
    pawn_id: u64,
    pawn_pos: GridPos,
    cand: (u64, GridPos),
    d: u128,
    grid: &SpatialGrid,
) -> (r: bool)
    requires
        grid.wf(),
        d == pawn_pos.spec_dist_sq(cand.1),
    ensures
        r == engageable(*grid, pawn_pos, cand),
        r ==> {
            &&& has_route(*grid, pawn_pos, cand.1, Seq::<u64>::empty())
            &&& reachable_within(*grid, pawn_pos, cand.1, ENEMY_TILE_RANGE as int)
        },
{
    let limit: u128 = 100;
    proof {
        assert(limit == ENEMY_TILE_RANGE * ENEMY_TILE_RANGE);
    }
    if d > limit {
        return false;
    }
    let no_allow: Vec<u64> = Vec::new();
    proof {
        assert(no_allow@ =~= Seq::<u64>::empty());
    }
    let got = get_pathing(
        PathfindRequest { start: pawn_pos, end: cand.1, entity: pawn_id },
        grid,
        &no_allow,
    );
    match got {
        Some(path) => {
            if path.len() < ENEMY_TILE_RANGE {
                proof {
                    lemma_reach_witness(*grid, pawn_pos, cand.1, seq![pawn_pos] + path@);
                }
                true
            } else {
                false
            }
        },
        None => false,
    }
}

/// Takes a found opponent on: gives any build or haul target back to the
/// shared queue, replaces the order with the attack, and paths toward the
/// opponent.
pub fn assign_attack_order(
    pawn_id: u64,
    pawn_pos: GridPos,
    target_id: u64,
    target_pos: GridPos,
    status: &mut PawnStatus,
    order: &mut Option<WorkOrder>,
    queue: &mut WorkQueue,
) -> (r: PathfindRequest)
    ensures
        *final(status) == PawnStatus::Pathfinding,
        *final(order) == Some(WorkOrder::AttackPawn { pawn_entity: target_id }),
        final(queue).build_queue@ == old(queue).build_queue@ + requeue_target(*old(order)),
        r == (PathfindRequest { start: pawn_pos, end: target_pos, entity: pawn_id }),
{
    crate::work::requeue_order(queue, order);
    *order = Some(WorkOrder::AttackPawn { pawn_entity: target_id });
    *status = PawnStatus::Pathfinding;
    PathfindRequest { start: pawn_pos, end: target_pos, entity: pawn_id }
}

/// What one combat tick of one attacker amounts to.
#[derive(Debug, Copy, Clone, PartialEq, Eq, Structural)]
pub enum AttackStep {
    /// Nothing to do, or still winding up.
    Stand,
    /// The opponent moved out of reach: chase it with a fresh path.
    Repath(PathfindRequest),
    /// A strike lands on the opponent for the given damage.
    Strike { target: u64, damage: usize },
}

/// One combat tick of an agent under an attack order. A vanished opponent
/// resets the agent to Idle. An opponent out of melee reach is chased
/// (repathing on the scan cooldown). Within reach the agent stands
/// Attacking and, on its strike cooldown, lands a hit: hostile agents hit
/// harder than defenders.
pub fn attack_tick(
    pawn_id: u64,
    pawn_pos: GridPos,
    is_enemy: bool,
    work_timer_finished: bool,
    search_timer_finished: bool,
    status: &mut PawnStatus,
    order: &mut Option<WorkOrder>,
    target_pos: Option<GridPos>,
) -> (r: AttackStep)
    ensures
        ({
            let o = *old(order);
            if !(o matches Some(WorkOrder::AttackPawn { .. })) {
                &&& *final(status) == *old(status)
                &&& *final(order) == o
                &&& r == AttackStep::Stand
            } else {
                (o matches Some(WorkOrder::AttackPawn { pawn_entity: tid }) ==> ({
                    match target_pos {
                        None => {
                            &&& *final(status) == PawnStatus::Idle
                            &&& *final(order) == None::<WorkOrder>
                            &&& r == AttackStep::Stand
                        },
                        Some(tp) => {
                            if pawn_pos.spec_dist_sq(tp) > 4 {
                                if search_timer_finished {
                                    &&& *final(status) == PawnStatus::Repathing
                                    &&& *final(order) == o
                                    &&& r == AttackStep::Repath(
                                        PathfindRequest {
                                            start: pawn_pos,
                                            end: tp,
                                            entity: pawn_id,
                                        },
                                    )
                                } else {
                                    &&& *final(status) == *old(status)
                                    &&& *final(order) == o
                                    &&& r == AttackStep::Stand
                                }
                            } else {
                                &&& *final(status) == PawnStatus::Attacking
                                &&& *final(order) == o
                                &&& (if work_timer_finished {
                                    r == (AttackStep::Strike {
                                        target: tid,
                                        damage: if is_enemy {
                                            ENEMY_ATTACK_STRENGTH
                                        } else {
                                            PAWN_ATTACK_STRENGTH
                                        },
                                    })
                                } else {
                                    r == AttackStep::Stand
                                })
                            }
                        },
                    }
                }))
            }
        }),
{
    let tid = match order {
        Some(WorkOrder::AttackPawn { pawn_entity }) => *pawn_entity,
        _ => {
            return AttackStep::Stand;
        },
    };
    let tp = match target_pos {
        Some(tp) => tp,
        None => {
            *status = PawnStatus::Idle;
            *order = None;
            return AttackStep::Stand;
        },
    };
    if pawn_pos.dist_sq(tp) > 4 {
        if search_timer_finished {
            *status = PawnStatus::Repathing;
            return AttackStep::Repath(
                PathfindRequest { start: pawn_pos, end: tp, entity: pawn_id },
            );
        }
        return AttackStep::Stand;
    }
    *status = PawnStatus::Attacking;
    if !work_timer_finished {
        return AttackStep::Stand;
    }
    AttackStep::Strike {
        target: tid,
        damage: if is_enemy {
            ENEMY_ATTACK_STRENGTH
        } else {
            PAWN_ATTACK_STRENGTH
        },
    }
}

/// Lands one queued strike on its victim. Lethal damage reports a death,
/// debits the right population counter, and — when a hostile agent killed a
/// defender — gives the victim's build or haul target back to the shared
/// queue so the task is not lost.
pub fn resolve_attack(
    damage: usize,
    attacker_is_enemy: bool,
    target: &mut Pawn,
    target_order: &Option<WorkOrder>,
    game: &mut GameResources,
    wave: &mut EnemyWave,
    queue: &mut WorkQueue,
) -> (died: bool)
    ensures
        died == (old(target).health <= damage),
        final(target).health == (if old(target).health <= damage {
            0int
        } else {
            old(target).health - damage
        }),
        final(target).max_health == old(target).max_health,
        final(target).move_to == old(target).move_to,
        final(target).move_path@ == old(target).move_path@,
        final(target).moving == old(target).moving,
        died && attacker_is_enemy ==> {
            &&& final(game).pawns == (if old(game).pawns > 0 {
                old(game).pawns - 1
            } else {
                0int
            })
            &&& final(game).stone == old(game).stone
            &&& *final(wave) == *old(wave)
            &&& final(queue).build_queue@ == old(queue).build_queue@ + requeue_target(
                *target_order,
            )
        },
        died && !attacker_is_enemy ==> {
            &&& final(wave).enemies == (if old(wave).enemies > 0 {
                old(wave).enemies - 1
            } else {
                0int
            })
            &&& final(wave).wave == old(wave).wave
            &&& final(wave).enemy_count_multiplier == old(wave).enemy_count_multiplier
            &&& *final(game) == *old(game)
            &&& final(queue).build_queue@ == old(queue).build_queue@
        },
        !died ==> {
            &&& *final(game) == *old(game)
            &&& *final(wave) == *old(wave)
            &&& final(queue).build_queue@ == old(queue).build_queue@
        },
{
    let died = target.health <= damage;
    if died {
        if attacker_is_enemy {
            game.pawns = if game.pawns > 0 {
                game.pawns - 1
            } else {
                0
            };
            crate::work::requeue_order(queue, target_order);
        } else {
            wave.enemies = if wave.enemies > 0 {
                wave.enemies - 1
            } else {
                0
            };
        }
    }
    target.health = if target.health <= damage {
        0
    } else {
        target.health - damage
    };
    died
}

/// A hostile agent with nothing to do marches on the factory: it paths
/// there and takes an attack-the-base order.
pub fn enemy_seek_factory(
    enemy_id: u64,
    enemy_pos: GridPos,
    factory_pos: GridPos,
    status: &mut PawnStatus,
    order: &mut Option<WorkOrder>,
) -> (r: Option<PathfindRequest>)
    ensures
        *old(status) != PawnStatus::Idle ==> {
            &&& *final(status) == *old(status)
            &&& *final(order) == *old(order)
            &&& r is None
        },
        *old(status) == PawnStatus::Idle ==> {
            &&& *final(status) == PawnStatus::Pathfinding
            &&& *final(order) == Some(WorkOrder::AttackFactory)
            &&& r == Some(
                PathfindRequest { start: enemy_pos, end: factory_pos, entity: enemy_id },
            )
        },
{
    if !matches!(*status, PawnStatus::Idle) {
        return None;
    }
    *status = PawnStatus::Pathfinding;
    *order = Some(WorkOrder::AttackFactory);
    Some(PathfindRequest { start: enemy_pos, end: factory_pos, entity: enemy_id })
}

} // verus!

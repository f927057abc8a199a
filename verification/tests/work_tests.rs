use std::collections::VecDeque;

use colony_core::CarriedResources;
use colony_core::GameResources;
use colony_core::GridPos;
use colony_core::Pawn;
use colony_core::PawnStatus;
use colony_core::PathfindAnswer;
use colony_core::SpatialGrid;
use colony_core::Stone;
use colony_core::WorkOrder;
use colony_core::WorkQueue;
use colony_core::pawn::MAX_RESOURCES;
use colony_core::pawn::PlaceableKind;
use colony_core::pawn::PlaceableType;
use colony_core::work::apply_path_answer;
use colony_core::work::build_tick;
use colony_core::work::find_closest_stone;
use colony_core::work::mine_stone_tick;
use colony_core::work::movement_tick;
use colony_core::work::pickup_stone_tick;
use colony_core::work::repath_check;
use colony_core::work::retry_pathfinding_tick;
use colony_core::work::return_to_factory_tick;
use colony_core::work::work_idle_pawn;

fn fresh_pawn() -> Pawn {
    Pawn {
        move_path: VecDeque::new(),
        move_to: None,
        health: 100,
        max_health: 100,
        moving: false,
    }
}

fn open_grid(size: i32) -> SpatialGrid {
    let mut grid = SpatialGrid::new();
    let mut id: u64 = 1000;
    for x in 0..size {
        for y in 0..size {
            grid.create_spatial_entity(id, GridPos::new(x, y), true, Some(1), None);
            id += 1;
        }
    }
    grid
}

#[test]
fn full_load_returns_home_before_any_mining() {
    // An idle agent at carrying capacity, with a mineable node right next
    // to it, must take the return order, never a mining one.
    let mut grid = open_grid(6);
    grid.create_spatial_entity(42, GridPos::new(1, 0), false, None, None);
    let stones: Vec<u64> = vec![42];
    let mut queue = WorkQueue::new();
    let placeables: Vec<(u64, GridPos, PlaceableType)> = Vec::new();
    let decision = work_idle_pawn(
        7,
        GridPos::new(0, 0),
        &CarriedResources(MAX_RESOURCES),
        &mut queue,
        &placeables,
        0,
        &grid,
        &stones,
        GridPos::new(5, 5),
    );
    assert_eq!(decision.status, PawnStatus::Pathfinding);
    assert_eq!(decision.order, Some(WorkOrder::ReturnToFactory));
    let req = decision.request.expect("a path request to the factory");
    assert_eq!(req.start, GridPos::new(0, 0));
    assert_eq!(req.end, GridPos::new(5, 5));
    assert_eq!(req.entity, 7);
}

#[test]
fn idle_agent_finds_a_reachable_stone() {
    let mut grid = open_grid(8);
    grid.create_spatial_entity(42, GridPos::new(3, 0), false, None, None);
    let stones: Vec<u64> = vec![42];
    let mut queue = WorkQueue::new();
    let placeables: Vec<(u64, GridPos, PlaceableType)> = Vec::new();
    let decision = work_idle_pawn(
        7,
        GridPos::new(0, 0),
        &CarriedResources(0),
        &mut queue,
        &placeables,
        0,
        &grid,
        &stones,
        GridPos::new(7, 7),
    );
    assert_eq!(decision.status, PawnStatus::Pathfinding);
    assert_eq!(decision.order, Some(WorkOrder::MineStone { stone_entity: 42 }));
    let req = decision.request.expect("a path request to the stone");
    assert_eq!(req.end, GridPos::new(3, 0));
}

#[test]
fn build_queue_front_takes_priority() {
    let mut queue = WorkQueue::new();
    queue.build_queue.push_back(90);
    let placeables = vec![(
        90,
        GridPos::new(2, 2),
        PlaceableType { kind: PlaceableKind::Wall, max_resources: 10, current_resources: 0 },
    )];
    let grid = open_grid(4);
    let stones: Vec<u64> = Vec::new();
    let decision = work_idle_pawn(
        7,
        GridPos::new(0, 0),
        &CarriedResources(MAX_RESOURCES),
        &mut queue,
        &placeables,
        20,
        &grid,
        &stones,
        GridPos::new(3, 3),
    );
    assert_eq!(decision.order, Some(WorkOrder::BuildItem { item_entity: 90 }));
    assert_eq!(decision.status, PawnStatus::Idle);
    assert!(decision.request.is_none());
    assert!(queue.build_queue.is_empty());
}

#[test]
fn answers_cache_route_and_start_movement() {
    let mut pawn = fresh_pawn();
    let mut status = PawnStatus::Pathfinding;
    let mut order = Some(WorkOrder::ReturnToFactory);
    let mut queue = WorkQueue::new();
    let answer = PathfindAnswer {
        path: Some(vec![GridPos::new(0, 1), GridPos::new(0, 2)]),
        entity: 7,
        target: GridPos::new(0, 2),
    };
    apply_path_answer(&mut pawn, &mut status, &mut order, Some(GridPos::new(0, 2)), &answer, &mut queue);
    assert_eq!(status, PawnStatus::Moving);
    assert_eq!(order, Some(WorkOrder::ReturnToFactory));
    assert_eq!(pawn.move_path, VecDeque::from(vec![GridPos::new(0, 1), GridPos::new(0, 2)]));
}

#[test]
fn failed_answers_requeue_the_build_target() {
    let mut pawn = fresh_pawn();
    let mut status = PawnStatus::Pathfinding;
    let mut order = Some(WorkOrder::BuildItem { item_entity: 90 });
    let mut queue = WorkQueue::new();
    let answer = PathfindAnswer { path: None, entity: 7, target: GridPos::new(0, 2) };
    apply_path_answer(&mut pawn, &mut status, &mut order, Some(GridPos::new(0, 2)), &answer, &mut queue);
    assert_eq!(status, PawnStatus::PathfindingError);
    assert_eq!(order, None);
    assert_eq!(queue.build_queue, VecDeque::from(vec![90]));
}

#[test]
fn stale_answers_are_discarded() {
    let mut pawn = fresh_pawn();
    let mut status = PawnStatus::Mining;
    let mut order = Some(WorkOrder::MineStone { stone_entity: 42 });
    let mut queue = WorkQueue::new();
    let answer = PathfindAnswer { path: None, entity: 7, target: GridPos::new(0, 2) };
    apply_path_answer(&mut pawn, &mut status, &mut order, Some(answer.target), &answer, &mut queue);
    assert_eq!(status, PawnStatus::Mining);
    assert_eq!(order, Some(WorkOrder::MineStone { stone_entity: 42 }));
    assert!(queue.build_queue.is_empty());
}

#[test]
fn mismatched_target_answers_are_discarded() {
    // The agent awaits a route to its mining target; an old answer for a
    // different target arrives and must be ignored outright.
    let mut pawn = fresh_pawn();
    let mut status = PawnStatus::Pathfinding;
    let mut order = Some(WorkOrder::MineStone { stone_entity: 42 });
    let mut queue = WorkQueue::new();
    let answer = PathfindAnswer {
        path: Some(vec![GridPos::new(0, 1), GridPos::new(0, 2)]),
        entity: 7,
        target: GridPos::new(0, 2),
    };
    apply_path_answer(
        &mut pawn,
        &mut status,
        &mut order,
        Some(GridPos::new(5, 5)),
        &answer,
        &mut queue,
    );
    assert_eq!(status, PawnStatus::Pathfinding);
    assert_eq!(order, Some(WorkOrder::MineStone { stone_entity: 42 }));
    assert!(pawn.move_path.is_empty());

    // The matching answer is then applied as usual.
    let answer = PathfindAnswer {
        path: Some(vec![GridPos::new(0, 1), GridPos::new(0, 2)]),
        entity: 7,
        target: GridPos::new(5, 5),
    };
    apply_path_answer(
        &mut pawn,
        &mut status,
        &mut order,
        Some(GridPos::new(5, 5)),
        &answer,
        &mut queue,
    );
    assert_eq!(status, PawnStatus::Moving);
}

#[test]
fn mined_out_node_despawns_and_frees_the_agent() {
    // One unit left: a single completed swing takes it, destroys the node,
    // removes it from the grid, and the agent goes Idle with no order.
    let mut grid = open_grid(6);
    let stone_pos = GridPos::new(5, 5);
    grid.create_spatial_entity(42, stone_pos, false, None, None);
    let mut stones = vec![(42u64, stone_pos, Stone { remaining_resources: 1 })];
    let mut status = PawnStatus::Mining;
    let mut order = Some(WorkOrder::MineStone { stone_entity: 42 });
    let mut carried = CarriedResources(0);
    mine_stone_tick(false, true, &mut status, &mut order, &mut carried, &mut stones, &mut grid);
    assert_eq!(status, PawnStatus::Idle);
    assert_eq!(order, None);
    assert_eq!(carried.0, 1);
    assert!(stones.is_empty());
    assert!(grid.get(&42, stone_pos).is_none());
}

#[test]
fn mining_gathers_one_unit_per_swing() {
    let mut grid = open_grid(6);
    let stone_pos = GridPos::new(5, 5);
    grid.create_spatial_entity(42, stone_pos, false, None, None);
    let mut stones = vec![(42u64, stone_pos, Stone { remaining_resources: 8 })];
    let mut status = PawnStatus::Moving;
    let mut order = Some(WorkOrder::MineStone { stone_entity: 42 });
    let mut carried = CarriedResources(0);
    // The walk has ended: the agent starts mining and completes one swing.
    mine_stone_tick(false, true, &mut status, &mut order, &mut carried, &mut stones, &mut grid);
    assert_eq!(status, PawnStatus::Mining);
    assert_eq!(carried.0, 1);
    assert_eq!(stones[0].2.remaining_resources, 7);
    // Cooldown not yet elapsed: nothing happens.
    mine_stone_tick(false, false, &mut status, &mut order, &mut carried, &mut stones, &mut grid);
    assert_eq!(carried.0, 1);
    assert_eq!(stones[0].2.remaining_resources, 7);
}

#[test]
fn full_miner_heads_home() {
    let mut grid = open_grid(6);
    let stone_pos = GridPos::new(5, 5);
    grid.create_spatial_entity(42, stone_pos, false, None, None);
    let mut stones = vec![(42u64, stone_pos, Stone { remaining_resources: 8 })];
    let mut status = PawnStatus::Mining;
    let mut order = Some(WorkOrder::MineStone { stone_entity: 42 });
    let mut carried = CarriedResources(MAX_RESOURCES);
    mine_stone_tick(false, true, &mut status, &mut order, &mut carried, &mut stones, &mut grid);
    assert_eq!(status, PawnStatus::Idle);
    assert_eq!(order, Some(WorkOrder::ReturnToFactory));
    assert_eq!(stones[0].2.remaining_resources, 8);
}

#[test]
fn blocked_route_triggers_repathing() {
    // A Moving agent on a 3-waypoint route whose middle cell has become
    // unwalkable asks for a fresh route from its current position to the
    // original destination.
    let mut grid = open_grid(4);
    let a = GridPos::new(0, 1);
    let b = GridPos::new(0, 2);
    let c = GridPos::new(0, 3);
    grid.create_spatial_entity(60, b, false, None, None);
    let mut pawn = fresh_pawn();
    pawn.move_path = VecDeque::from(vec![a, b, c]);
    let mut status = PawnStatus::Moving;
    let req = repath_check(&pawn, &mut status, &grid, 7);
    assert_eq!(status, PawnStatus::Repathing);
    let req = req.expect("a new path request");
    assert_eq!(req.start, a);
    assert_eq!(req.end, c);
    assert_eq!(req.entity, 7);
}

#[test]
fn intact_route_keeps_moving() {
    let grid = open_grid(4);
    let mut pawn = fresh_pawn();
    pawn.move_path = VecDeque::from(vec![GridPos::new(0, 1), GridPos::new(0, 2)]);
    let mut status = PawnStatus::Moving;
    assert!(repath_check(&pawn, &mut status, &grid, 7).is_none());
    assert_eq!(status, PawnStatus::Moving);
}

#[test]
fn movers_without_an_order_go_idle() {
    let mut pawn = fresh_pawn();
    let mut status = PawnStatus::Moving;
    movement_tick(&mut pawn, &mut status, &None);
    assert_eq!(status, PawnStatus::Idle);
}

#[test]
fn movement_takes_up_the_next_waypoint() {
    let mut pawn = fresh_pawn();
    pawn.move_path = VecDeque::from(vec![GridPos::new(1, 0), GridPos::new(2, 0)]);
    let mut status = PawnStatus::Moving;
    let order = Some(WorkOrder::ReturnToFactory);
    movement_tick(&mut pawn, &mut status, &order);
    assert_eq!(pawn.move_to, Some(GridPos::new(1, 0)));
    assert!(pawn.moving);
    assert_eq!(pawn.move_path, VecDeque::from(vec![GridPos::new(2, 0)]));
}

#[test]
fn returning_home_deposits_the_load() {
    let mut status = PawnStatus::Moving;
    let mut order = Some(WorkOrder::ReturnToFactory);
    let mut carried = CarriedResources(12);
    let mut game = GameResources { stone: 5, pawns: 3 };
    let r = return_to_factory_tick(
        7,
        GridPos::new(4, 4),
        GridPos::new(5, 5),
        false,
        &mut status,
        &mut order,
        &mut carried,
        &mut game,
    );
    assert!(r.is_none());
    assert_eq!(status, PawnStatus::Idle);
    assert_eq!(order, None);
    assert_eq!(carried.0, 0);
    assert_eq!(game.stone, 17);
}

#[test]
fn idle_returner_paths_to_the_factory() {
    let mut status = PawnStatus::Idle;
    let mut order = Some(WorkOrder::ReturnToFactory);
    let mut carried = CarriedResources(12);
    let mut game = GameResources { stone: 5, pawns: 3 };
    let r = return_to_factory_tick(
        7,
        GridPos::new(0, 0),
        GridPos::new(5, 5),
        false,
        &mut status,
        &mut order,
        &mut carried,
        &mut game,
    );
    let req = r.expect("a path request");
    assert_eq!(req.end, GridPos::new(5, 5));
    assert_eq!(status, PawnStatus::Pathfinding);
    assert_eq!(carried.0, 12);
}

#[test]
fn pathfinding_error_recovers_after_the_cooldown() {
    let mut status = PawnStatus::PathfindingError;
    let mut order = Some(WorkOrder::PickupStoneFromFactory { for_entity: 90 });
    let mut queue = WorkQueue::new();
    // Cooldown still running: nothing happens.
    let r = retry_pathfinding_tick(
        7,
        GridPos::new(1, 1),
        GridPos::new(5, 5),
        false,
        &mut status,
        &mut order,
        &mut queue,
    );
    assert!(r.is_none());
    assert_eq!(status, PawnStatus::PathfindingError);
    // Cooldown elapsed: the haul target goes back to the queue.
    let r = retry_pathfinding_tick(
        7,
        GridPos::new(1, 1),
        GridPos::new(5, 5),
        true,
        &mut status,
        &mut order,
        &mut queue,
    );
    let req = r.expect("a recovery path request");
    assert_eq!(req.end, GridPos::new(5, 5));
    assert_eq!(status, PawnStatus::Idle);
    assert_eq!(order, None);
    assert_eq!(queue.build_queue, VecDeque::from(vec![90]));
}

#[test]
fn pickup_loads_what_the_structure_needs() {
    let mut status = PawnStatus::Moving;
    let mut order = Some(WorkOrder::PickupStoneFromFactory { for_entity: 90 });
    let mut carried = CarriedResources(0);
    let placeables = vec![(
        90,
        GridPos::new(9, 9),
        PlaceableType { kind: PlaceableKind::Wall, max_resources: 10, current_resources: 4 },
    )];
    let mut game = GameResources { stone: 50, pawns: 1 };
    let mut queue = WorkQueue::new();
    // Standing next to the factory: load min(capacity, missing) = 6.
    let r = pickup_stone_tick(
        7,
        GridPos::new(5, 4),
        GridPos::new(5, 5),
        &mut status,
        &mut order,
        &mut carried,
        &placeables,
        &mut game,
        &mut queue,
    );
    assert!(r.is_none());
    assert_eq!(carried.0, 6);
    assert_eq!(game.stone, 44);
    assert_eq!(status, PawnStatus::Idle);
    assert_eq!(order, Some(WorkOrder::BuildItem { item_entity: 90 }));
}

#[test]
fn empty_stockpile_requeues_the_structure() {
    let mut status = PawnStatus::Moving;
    let mut order = Some(WorkOrder::PickupStoneFromFactory { for_entity: 90 });
    let mut carried = CarriedResources(0);
    let placeables = vec![(
        90,
        GridPos::new(9, 9),
        PlaceableType { kind: PlaceableKind::Wall, max_resources: 10, current_resources: 4 },
    )];
    let mut game = GameResources { stone: 0, pawns: 1 };
    let mut queue = WorkQueue::new();
    pickup_stone_tick(
        7,
        GridPos::new(5, 4),
        GridPos::new(5, 5),
        &mut status,
        &mut order,
        &mut carried,
        &placeables,
        &mut game,
        &mut queue,
    );
    assert_eq!(carried.0, 0);
    assert_eq!(order, None);
    assert_eq!(status, PawnStatus::Idle);
    assert_eq!(queue.build_queue, VecDeque::from(vec![90]));
}

#[test]
fn builder_deposits_and_finishes_the_structure() {
    let mut status = PawnStatus::Moving;
    let mut order = Some(WorkOrder::BuildItem { item_entity: 90 });
    let mut carried = CarriedResources(6);
    let mut placeables = vec![(
        90,
        GridPos::new(2, 2),
        PlaceableType { kind: PlaceableKind::Wall, max_resources: 10, current_resources: 4 },
    )];
    // Standing within reach of the site: deposit completes the build.
    let r = build_tick(7, GridPos::new(2, 1), &mut status, &mut order, &mut carried, &mut placeables);
    assert!(r.is_none());
    assert_eq!(placeables[0].2.current_resources, 10);
    assert_eq!(status, PawnStatus::Idle);
    assert_eq!(order, None);
}

#[test]
fn builder_without_resources_goes_hauling() {
    let mut status = PawnStatus::Idle;
    let mut order = Some(WorkOrder::BuildItem { item_entity: 90 });
    let mut carried = CarriedResources(0);
    let mut placeables = vec![(
        90,
        GridPos::new(2, 2),
        PlaceableType { kind: PlaceableKind::Wall, max_resources: 10, current_resources: 4 },
    )];
    let r = build_tick(7, GridPos::new(0, 0), &mut status, &mut order, &mut carried, &mut placeables);
    assert!(r.is_none());
    assert_eq!(order, Some(WorkOrder::PickupStoneFromFactory { for_entity: 90 }));
    assert_eq!(status, PawnStatus::Idle);
}

#[test]
fn builder_with_enough_in_hand_paths_to_the_site() {
    let mut status = PawnStatus::Idle;
    let mut order = Some(WorkOrder::BuildItem { item_entity: 90 });
    let mut carried = CarriedResources(6);
    let mut placeables = vec![(
        90,
        GridPos::new(2, 2),
        PlaceableType { kind: PlaceableKind::Wall, max_resources: 10, current_resources: 4 },
    )];
    let r = build_tick(7, GridPos::new(0, 0), &mut status, &mut order, &mut carried, &mut placeables);
    let req = r.expect("a path request to the site");
    assert_eq!(req.end, GridPos::new(2, 2));
    assert_eq!(status, PawnStatus::Pathfinding);
}

#[test]
fn vanished_structure_clears_the_order() {
    let mut status = PawnStatus::Moving;
    let mut order = Some(WorkOrder::BuildItem { item_entity: 90 });
    let mut carried = CarriedResources(6);
    let mut placeables: Vec<(u64, GridPos, PlaceableType)> = Vec::new();
    build_tick(7, GridPos::new(0, 0), &mut status, &mut order, &mut carried, &mut placeables);
    assert_eq!(status, PawnStatus::Idle);
    assert_eq!(order, None);
}

#[test]
fn no_stone_on_the_route_finds_nothing() {
    let grid = open_grid(6);
    // The listed identifier occupies no cell, so the walked route holds no
    // resource occupant.
    let stones: Vec<u64> = vec![4242];
    let anchor = grid.get(&1000, GridPos::new(0, 0)).unwrap();
    let probe = grid.get(&(1000 + 3 * 6), GridPos::new(3, 0)).unwrap();
    let _ = anchor;
    let found = find_closest_stone(&stones, &GridPos::new(0, 0), &probe, &grid);
    assert_eq!(found, None);
}

#[test]
fn closest_stone_along_the_approach_is_picked() {
    let mut grid = open_grid(6);
    // A line of stones; walking from the west, the westernmost is met first.
    grid.create_spatial_entity(40, GridPos::new(3, 0), false, None, None);
    grid.create_spatial_entity(41, GridPos::new(4, 0), false, None, None);
    let stones: Vec<u64> = vec![40, 41];
    let far = grid.get(&41, GridPos::new(4, 0)).unwrap();
    let found = find_closest_stone(&stones, &GridPos::new(0, 0), &far, &grid);
    assert_eq!(found, Some(40));
}

#[test]
fn vanished_stone_clears_the_mining_order() {
    let mut grid = open_grid(4);
    let mut stones: Vec<(u64, GridPos, colony_core::Stone)> = Vec::new();
    let mut status = PawnStatus::Mining;
    let mut order = Some(WorkOrder::MineStone { stone_entity: 42 });
    let mut carried = CarriedResources(3);
    mine_stone_tick(false, true, &mut status, &mut order, &mut carried, &mut stones, &mut grid);
    assert_eq!(status, PawnStatus::Idle);
    assert_eq!(order, None);
    assert_eq!(carried.0, 3);
}

#[test]
fn vanished_haul_target_clears_the_order() {
    let mut status = PawnStatus::Moving;
    let mut order = Some(WorkOrder::PickupStoneFromFactory { for_entity: 90 });
    let mut carried = CarriedResources(0);
    let placeables: Vec<(u64, GridPos, PlaceableType)> = Vec::new();
    let mut game = GameResources { stone: 10, pawns: 1 };
    let mut queue = WorkQueue::new();
    pickup_stone_tick(
        7,
        GridPos::new(5, 4),
        GridPos::new(5, 5),
        &mut status,
        &mut order,
        &mut carried,
        &placeables,
        &mut game,
        &mut queue,
    );
    assert_eq!(status, PawnStatus::Idle);
    assert_eq!(order, None);
    assert_eq!(game.stone, 10);
}

#[test]
fn exhausted_resource_search_leaves_the_agent_idle() {
    // No resource node anywhere: the search runs out of range and the
    // agent simply stays idle for the tick; that is not an error.
    let grid = open_grid(6);
    let stones: Vec<u64> = Vec::new();
    let mut queue = WorkQueue::new();
    let placeables: Vec<(u64, GridPos, PlaceableType)> = Vec::new();
    let decision = work_idle_pawn(
        7,
        GridPos::new(0, 0),
        &CarriedResources(0),
        &mut queue,
        &placeables,
        0,
        &grid,
        &stones,
        GridPos::new(5, 5),
    );
    assert_eq!(decision.status, PawnStatus::Idle);
    assert_eq!(decision.order, None);
    assert!(decision.request.is_none());
}

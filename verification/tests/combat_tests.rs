use std::collections::VecDeque;

use colony_core::GameResources;
use colony_core::GridPos;
use colony_core::Pawn;
use colony_core::PawnStatus;
use colony_core::SpatialGrid;
use colony_core::WorkOrder;
use colony_core::WorkQueue;
use colony_core::combat::AttackStep;
use colony_core::combat::assign_attack_order;
use colony_core::combat::attack_tick;
use colony_core::combat::enemy_seek_factory;
use colony_core::combat::resolve_attack;
use colony_core::combat::search_for_attack_target;
use colony_core::pawn::ENEMY_ATTACK_STRENGTH;
use colony_core::pawn::EnemyWave;
use colony_core::pawn::PAWN_ATTACK_STRENGTH;

fn fresh_pawn(health: usize) -> Pawn {
    Pawn {
        move_path: VecDeque::new(),
        move_to: None,
        health,
        max_health: 100,
        moving: false,
    }
}

fn open_grid(size: i32) -> SpatialGrid {
    let mut grid = SpatialGrid::new();
    let mut id: u64 = 1000;
    for x in 0..size {
        for y in 0..size {
            grid.create_spatial_entity(id, GridPos::new(x, y), true, Some(1), None);
            id += 1;
        }
    }
    grid
}

#[test]
fn nearest_reachable_opponent_is_acquired() {
    let grid = open_grid(12);
    let candidates = vec![
        (31u64, GridPos::new(6, 0)),
        (32u64, GridPos::new(3, 0)),
        (33u64, GridPos::new(4, 4)),
    ];
    let found = search_for_attack_target(7, GridPos::new(0, 0), false, true, &candidates, &grid);
    assert_eq!(found, Some((32, GridPos::new(3, 0))));
}

#[test]
fn out_of_range_opponents_are_ignored() {
    let grid = open_grid(40);
    let candidates = vec![(31u64, GridPos::new(30, 30))];
    let found = search_for_attack_target(7, GridPos::new(0, 0), false, true, &candidates, &grid);
    assert_eq!(found, None);
}

#[test]
fn unreachable_opponents_are_ignored() {
    let mut grid = open_grid(12);
    // Wall the opponent in.
    grid.create_spatial_entity(1, GridPos::new(2, 3), false, None, None);
    grid.create_spatial_entity(2, GridPos::new(4, 3), false, None, None);
    grid.create_spatial_entity(3, GridPos::new(3, 2), false, None, None);
    grid.create_spatial_entity(4, GridPos::new(3, 4), false, None, None);
    let candidates = vec![(31u64, GridPos::new(3, 3))];
    let found = search_for_attack_target(7, GridPos::new(0, 0), false, true, &candidates, &grid);
    assert_eq!(found, None);
}

#[test]
fn busy_or_cooling_agents_do_not_scan() {
    let grid = open_grid(6);
    let candidates = vec![(31u64, GridPos::new(1, 0))];
    assert_eq!(
        search_for_attack_target(7, GridPos::new(0, 0), true, true, &candidates, &grid),
        None
    );
    assert_eq!(
        search_for_attack_target(7, GridPos::new(0, 0), false, false, &candidates, &grid),
        None
    );
}

#[test]
fn taking_an_opponent_requeues_the_old_task() {
    let mut status = PawnStatus::Moving;
    let mut order = Some(WorkOrder::BuildItem { item_entity: 90 });
    let mut queue = WorkQueue::new();
    let req = assign_attack_order(
        7,
        GridPos::new(0, 0),
        31,
        GridPos::new(3, 0),
        &mut status,
        &mut order,
        &mut queue,
    );
    assert_eq!(status, PawnStatus::Pathfinding);
    assert_eq!(order, Some(WorkOrder::AttackPawn { pawn_entity: 31 }));
    assert_eq!(queue.build_queue, VecDeque::from(vec![90]));
    assert_eq!(req.end, GridPos::new(3, 0));
}

#[test]
fn defender_strike_lands_for_its_fixed_damage() {
    let mut status = PawnStatus::Moving;
    let mut order = Some(WorkOrder::AttackPawn { pawn_entity: 31 });
    let step = attack_tick(
        7,
        GridPos::new(0, 0),
        false,
        true,
        true,
        &mut status,
        &mut order,
        Some(GridPos::new(1, 0)),
    );
    assert_eq!(status, PawnStatus::Attacking);
    assert_eq!(step, AttackStep::Strike { target: 31, damage: PAWN_ATTACK_STRENGTH });
    assert_eq!(PAWN_ATTACK_STRENGTH, 7);
}

#[test]
fn hostile_strike_hits_harder() {
    let mut status = PawnStatus::Moving;
    let mut order = Some(WorkOrder::AttackPawn { pawn_entity: 8 });
    let step = attack_tick(
        31,
        GridPos::new(0, 0),
        true,
        true,
        true,
        &mut status,
        &mut order,
        Some(GridPos::new(0, 1)),
    );
    assert_eq!(step, AttackStep::Strike { target: 8, damage: ENEMY_ATTACK_STRENGTH });
    assert_eq!(ENEMY_ATTACK_STRENGTH, 10);
}

#[test]
fn distant_opponents_are_chased() {
    let mut status = PawnStatus::Moving;
    let mut order = Some(WorkOrder::AttackPawn { pawn_entity: 31 });
    let step = attack_tick(
        7,
        GridPos::new(0, 0),
        false,
        true,
        true,
        &mut status,
        &mut order,
        Some(GridPos::new(8, 0)),
    );
    assert_eq!(status, PawnStatus::Repathing);
    match step {
        AttackStep::Repath(req) => {
            assert_eq!(req.start, GridPos::new(0, 0));
            assert_eq!(req.end, GridPos::new(8, 0));
        },
        other => panic!("expected a chase, got {:?}", other),
    }
}

#[test]
fn vanished_opponent_resets_the_attacker() {
    let mut status = PawnStatus::Attacking;
    let mut order = Some(WorkOrder::AttackPawn { pawn_entity: 31 });
    let step = attack_tick(
        7,
        GridPos::new(0, 0),
        false,
        true,
        true,
        &mut status,
        &mut order,
        None,
    );
    assert_eq!(step, AttackStep::Stand);
    assert_eq!(status, PawnStatus::Idle);
    assert_eq!(order, None);
}

#[test]
fn lethal_damage_despawns_and_requeues_the_victims_task() {
    let mut victim = fresh_pawn(6);
    let victim_order = Some(WorkOrder::BuildItem { item_entity: 90 });
    let mut game = GameResources { stone: 0, pawns: 4 };
    let mut wave = EnemyWave { wave: 2, enemy_count_multiplier: 1, enemies: 5 };
    let mut queue = WorkQueue::new();
    let died = resolve_attack(10, true, &mut victim, &victim_order, &mut game, &mut wave, &mut queue);
    assert!(died);
    assert_eq!(victim.health, 0);
    assert_eq!(game.pawns, 3);
    assert_eq!(wave.enemies, 5);
    assert_eq!(queue.build_queue, VecDeque::from(vec![90]));
}

#[test]
fn lethal_damage_to_a_hostile_debits_the_wave() {
    let mut victim = fresh_pawn(7);
    let mut game = GameResources { stone: 0, pawns: 4 };
    let mut wave = EnemyWave { wave: 2, enemy_count_multiplier: 1, enemies: 5 };
    let mut queue = WorkQueue::new();
    let died = resolve_attack(7, false, &mut victim, &None, &mut game, &mut wave, &mut queue);
    assert!(died);
    assert_eq!(wave.enemies, 4);
    assert_eq!(game.pawns, 4);
}

#[test]
fn surviving_a_strike_just_costs_health() {
    let mut victim = fresh_pawn(100);
    let mut game = GameResources { stone: 0, pawns: 4 };
    let mut wave = EnemyWave { wave: 2, enemy_count_multiplier: 1, enemies: 5 };
    let mut queue = WorkQueue::new();
    let died = resolve_attack(10, true, &mut victim, &None, &mut game, &mut wave, &mut queue);
    assert!(!died);
    assert_eq!(victim.health, 90);
    assert_eq!(game.pawns, 4);
}

#[test]
fn idle_hostiles_march_on_the_factory() {
    let mut status = PawnStatus::Idle;
    let mut order = None;
    let req = enemy_seek_factory(31, GridPos::new(0, 0), GridPos::new(5, 5), &mut status, &mut order);
    let req = req.expect("a path request toward the factory");
    assert_eq!(req.end, GridPos::new(5, 5));
    assert_eq!(status, PawnStatus::Pathfinding);
    assert_eq!(order, Some(WorkOrder::AttackFactory));

    let mut status = PawnStatus::Moving;
    let mut order = Some(WorkOrder::AttackFactory);
    assert!(enemy_seek_factory(31, GridPos::new(0, 0), GridPos::new(5, 5), &mut status, &mut order)
        .is_none());
}

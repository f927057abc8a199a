use std::collections::VecDeque;

use colony_core::GridPos;
use colony_core::SpatialGrid;
use colony_core::WorkQueue;
use colony_core::pawn::PlaceableKind;
use colony_core::pawn::PlaceableType;
use colony_core::placement::check_if_unbuilt_has_been_finished;
use colony_core::placement::filter_placeable_cells;
use colony_core::placement::handle_built_added;
use colony_core::placement::handle_built_removed;
use colony_core::placement::pick_edge_spawn_cell;
use colony_core::placement::place_structure;
use colony_core::placement::placement_line;

fn open_grid(size: i32) -> SpatialGrid {
    let mut grid = SpatialGrid::new();
    let mut id: u64 = 1000;
    for x in 0..size {
        for y in 0..size {
            grid.create_spatial_entity(id, GridPos::new(x, y), true, Some(1), None);
            id += 1;
        }
    }
    grid
}

#[test]
fn drag_line_follows_the_dominant_axis() {
    let line = placement_line(GridPos::new(1, 1), GridPos::new(5, 2));
    assert_eq!(
        line,
        vec![
            GridPos::new(1, 1),
            GridPos::new(2, 1),
            GridPos::new(3, 1),
            GridPos::new(4, 1),
            GridPos::new(5, 1),
        ]
    );
    let line = placement_line(GridPos::new(2, 4), GridPos::new(3, 1));
    assert_eq!(
        line,
        vec![GridPos::new(2, 4), GridPos::new(2, 3), GridPos::new(2, 2), GridPos::new(2, 1)]
    );
    let line = placement_line(GridPos::new(0, 0), GridPos::new(0, 0));
    assert_eq!(line, vec![GridPos::new(0, 0)]);
}

#[test]
fn only_walkable_cells_take_structures() {
    let mut grid = open_grid(4);
    grid.create_spatial_entity(60, GridPos::new(2, 0), false, None, None);
    let cells = vec![GridPos::new(0, 0), GridPos::new(1, 0), GridPos::new(2, 0)];
    let walls: Vec<u64> = Vec::new();
    let kept = filter_placeable_cells(&cells, &grid, &walls, false);
    assert_eq!(kept, vec![GridPos::new(0, 0), GridPos::new(1, 0)]);
}

#[test]
fn walls_block_placement_unless_the_item_sits_on_walls() {
    let mut grid = open_grid(4);
    // A wall occupant that leaves the cell walkable (still under construction).
    grid.create_spatial_entity(70, GridPos::new(1, 0), true, None, None);
    let cells = vec![GridPos::new(0, 0), GridPos::new(1, 0)];
    let walls: Vec<u64> = vec![70];
    let kept = filter_placeable_cells(&cells, &grid, &walls, false);
    assert_eq!(kept, vec![GridPos::new(0, 0)]);
    let kept = filter_placeable_cells(&cells, &grid, &walls, true);
    assert_eq!(kept, vec![GridPos::new(0, 0), GridPos::new(1, 0)]);
}

#[test]
fn placed_structures_enter_grid_and_build_queue() {
    let mut grid = open_grid(4);
    let mut queue = WorkQueue::new();
    let rec = place_structure(&mut grid, &mut queue, 90, GridPos::new(2, 2));
    assert_eq!(*rec.entity(), 90);
    assert!(rec.walkable());
    assert_eq!(queue.build_queue, VecDeque::from(vec![90]));
    assert!(grid.get(&90, GridPos::new(2, 2)).is_some());
    // Still walkable until construction finishes.
    assert!(grid.is_walkable(&GridPos::new(2, 2)));
}

#[test]
fn finished_structures_block_their_cell() {
    let mut grid = open_grid(4);
    let mut queue = WorkQueue::new();
    let pos = GridPos::new(2, 2);
    place_structure(&mut grid, &mut queue, 90, pos);
    assert!(handle_built_added(&mut grid, 90, pos));
    assert!(!grid.is_walkable(&pos));
    // Tearing the structure down frees the cell again: the terrain that
    // remains is walkable.
    assert!(handle_built_removed(&mut grid, 90, pos));
    assert!(grid.is_walkable(&pos));
    assert!(!handle_built_removed(&mut grid, 90, pos));
}

#[test]
fn construction_finishes_when_nothing_is_missing() {
    let done = PlaceableType { kind: PlaceableKind::Wall, max_resources: 10, current_resources: 10 };
    let unfinished =
        PlaceableType { kind: PlaceableKind::Wall, max_resources: 10, current_resources: 9 };
    assert!(check_if_unbuilt_has_been_finished(&done));
    assert!(!check_if_unbuilt_has_been_finished(&unfinished));
}

#[test]
fn hostile_spawns_pick_a_walkable_edge_cell() {
    let mut grid = open_grid(4);
    grid.create_spatial_entity(60, GridPos::new(0, 1), false, None, None);
    // First draw proposes the blocked cell, second a free one.
    let draws = vec![(true, false, 1usize), (false, false, 2usize)];
    let picked = pick_edge_spawn_cell(&grid, 3, &draws);
    assert_eq!(picked, Some(GridPos::new(2, 0)));
    // A batch with only blocked proposals yields nothing.
    let draws = vec![(true, false, 1usize)];
    assert_eq!(pick_edge_spawn_cell(&grid, 3, &draws), None);
}

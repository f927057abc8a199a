use colony_core::GridPos;
use colony_core::PathfindRequest;
use colony_core::SpatialGrid;
use colony_core::path::drain_requests;
use colony_core::path::get_pathing;

/// A square of walkable terrain cells with origin (0, 0).
fn open_grid(size: i32) -> SpatialGrid {
    let mut grid = SpatialGrid::new();
    let mut id: u64 = 1000;
    for x in 0..size {
        for y in 0..size {
            grid.create_spatial_entity(id, GridPos::new(x, y), true, Some(1), None);
            id += 1;
        }
    }
    grid
}

fn manhattan(a: GridPos, b: GridPos) -> usize {
    ((a.x - b.x).abs() + (a.y - b.y).abs()) as usize
}

fn assert_route_valid(path: &[GridPos], start: GridPos, end: GridPos) {
    assert!(!path.is_empty());
    assert_eq!(*path.last().unwrap(), end);
    let mut prev = start;
    for cell in path {
        assert_eq!(manhattan(prev, *cell), 1, "route must move between neighbors");
        prev = *cell;
    }
}

#[test]
fn open_grid_route_has_manhattan_length() {
    let grid = open_grid(10);
    let no_allow: Vec<u64> = Vec::new();
    let start = GridPos::new(0, 0);
    let end = GridPos::new(3, 4);
    let path = get_pathing(
        PathfindRequest { start, end, entity: 1 },
        &grid,
        &no_allow,
    );
    let path = path.expect("route must exist on an open grid");
    // Manhattan distance 7: a 7-waypoint route (the start cell excluded).
    assert_eq!(path.len(), 7);
    assert_route_valid(&path, start, end);
}

#[test]
fn blocked_cells_are_avoided() {
    let mut grid = open_grid(3);
    // Two obstacles; the route must bend around them.
    grid.create_spatial_entity(1, GridPos::new(1, 0), false, None, None);
    grid.create_spatial_entity(2, GridPos::new(1, 1), false, None, None);
    let no_allow: Vec<u64> = Vec::new();
    let start = GridPos::new(0, 0);
    let end = GridPos::new(2, 2);
    let path = get_pathing(PathfindRequest { start, end, entity: 1 }, &grid, &no_allow)
        .expect("a detour exists");
    assert_route_valid(&path, start, end);
    assert!(!path.contains(&GridPos::new(1, 0)));
    assert!(!path.contains(&GridPos::new(1, 1)));
}

#[test]
fn enclosed_goal_is_unreachable() {
    let mut grid = open_grid(5);
    // Wall in the goal on all four sides.
    let goal = GridPos::new(2, 2);
    grid.create_spatial_entity(1, GridPos::new(1, 2), false, None, None);
    grid.create_spatial_entity(2, GridPos::new(3, 2), false, None, None);
    grid.create_spatial_entity(3, GridPos::new(2, 1), false, None, None);
    grid.create_spatial_entity(4, GridPos::new(2, 3), false, None, None);
    let no_allow: Vec<u64> = Vec::new();
    let path = get_pathing(
        PathfindRequest { start: GridPos::new(0, 0), end: goal, entity: 1 },
        &grid,
        &no_allow,
    );
    assert!(path.is_none());
}

#[test]
fn goal_cell_itself_may_be_unwalkable() {
    let mut grid = open_grid(4);
    // The goal holds an obstacle, but a route may still end on it.
    let goal = GridPos::new(2, 2);
    grid.create_spatial_entity(1, goal, false, None, None);
    let no_allow: Vec<u64> = Vec::new();
    let path = get_pathing(
        PathfindRequest { start: GridPos::new(0, 0), end: goal, entity: 1 },
        &grid,
        &no_allow,
    );
    let path = path.expect("the goal cell is always an eligible final step");
    assert_eq!(*path.last().unwrap(), goal);
}

#[test]
fn allowed_occupants_open_their_cells() {
    let mut grid = open_grid(4);
    // A fence of resource nodes between start and goal.
    grid.create_spatial_entity(50, GridPos::new(1, 0), false, None, None);
    grid.create_spatial_entity(51, GridPos::new(1, 1), false, None, None);
    grid.create_spatial_entity(52, GridPos::new(1, 2), false, None, None);
    grid.create_spatial_entity(53, GridPos::new(1, 3), false, None, None);
    let start = GridPos::new(0, 0);
    let end = GridPos::new(3, 0);
    let no_allow: Vec<u64> = Vec::new();
    assert!(get_pathing(PathfindRequest { start, end, entity: 1 }, &grid, &no_allow).is_none());
    // Allowing the resource identifiers makes their cells passable.
    let allow: Vec<u64> = vec![50, 51, 52, 53];
    let path = get_pathing(PathfindRequest { start, end, entity: 1 }, &grid, &allow)
        .expect("allowed occupants make the fence passable");
    assert_route_valid(&path, start, end);
}

#[test]
fn trivial_route_to_the_start_cell_is_empty() {
    let grid = open_grid(2);
    let no_allow: Vec<u64> = Vec::new();
    let start = GridPos::new(1, 1);
    let path = get_pathing(PathfindRequest { start, end: start, entity: 1 }, &grid, &no_allow)
        .expect("an agent can always reach its own cell");
    assert!(path.is_empty());
}

#[test]
fn one_answer_per_request_preserving_the_requester() {
    let mut grid = open_grid(5);
    grid.create_spatial_entity(1, GridPos::new(1, 2), false, None, None);
    grid.create_spatial_entity(2, GridPos::new(3, 2), false, None, None);
    grid.create_spatial_entity(3, GridPos::new(2, 1), false, None, None);
    grid.create_spatial_entity(4, GridPos::new(2, 3), false, None, None);
    let requests = vec![
        PathfindRequest { start: GridPos::new(0, 0), end: GridPos::new(4, 4), entity: 71 },
        PathfindRequest { start: GridPos::new(0, 0), end: GridPos::new(2, 2), entity: 72 },
        PathfindRequest { start: GridPos::new(1, 1), end: GridPos::new(1, 1), entity: 73 },
    ];
    let answers = drain_requests(&grid, &requests);
    assert_eq!(answers.len(), 3);
    assert_eq!(answers[0].entity, 71);
    assert_eq!(answers[0].target, GridPos::new(4, 4));
    assert!(answers[0].path.is_some());
    assert_eq!(answers[1].entity, 72);
    assert!(answers[1].path.is_none(), "the enclosed cell is unreachable");
    assert_eq!(answers[2].entity, 73);
    assert!(answers[2].path.is_some());
}

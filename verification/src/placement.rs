//! Structure placement: the dragged placement line, the placeability
//! filter, registering structures with the grid and build queue, and the
//! walkability changes when construction finishes or a structure is torn
//! down. Also the choice of a walkable map-edge cell for hostile spawns.

use vstd::prelude::*;

use crate::grid::SpatialEntity;
use crate::grid::SpatialGrid;
use crate::grid::contains_id;
use crate::grid::in_footprint;
use crate::grid::set_id_walkable;
use crate::grid::sum_costs;
use crate::grid_pos::GridPos;
use crate::grid_pos::abs_int;
use crate::path::allowed_occupant;
use crate::pawn::PlaceableType;
use crate::pawn::WorkQueue;

verus! {

/// The unit step from `a` toward `b` on one axis.
pub open spec fn step_toward(a: i32, b: i32) -> int {
    if b > a {
        1
    } else {
        -1
    }
}

/// The straight line of cells a placement drag covers: from the drag's
/// start along its dominant axis to the cursor's projection onto that axis,
/// one cell per step, start and end included.
pub fn placement_line(start: GridPos, cursor: GridPos) -> (r: Vec<GridPos>)
    requires
        -0x7fff_ffff <= cursor.x - start.x <= 0x7fff_ffff,
        -0x7fff_ffff <= cursor.y - start.y <= 0x7fff_ffff,
    ensures
        ({
            let dx = abs_int(cursor.x - start.x);
            let dy = abs_int(cursor.y - start.y);
            if dx > dy {
                &&& r@.len() == dx + 1
                &&& forall|i: int|
                    0 <= i < r@.len() ==> r@[i] == (GridPos {
                        x: (start.x + i * step_toward(start.x, cursor.x)) as i32,
                        y: start.y,
                    })
            } else {
                &&& r@.len() == dy + 1
                &&& forall|i: int|
                    0 <= i < r@.len() ==> r@[i] == (GridPos {
                        x: start.x,
                        y: (start.y + i * step_toward(start.y, cursor.y)) as i32,
                    })
            }
        }),
{
    let dx: i64 = if cursor.x >= start.x {
        cursor.x as i64 - start.x as i64
    } else {
        start.x as i64 - cursor.x as i64
    };
    let dy: i64 = if cursor.y >= start.y {
        cursor.y as i64 - start.y as i64
    } else {
        start.y as i64 - cursor.y as i64
    };
    let mut r: Vec<GridPos> = Vec::new();
    if dx > dy {
        let sgn: i64 = if cursor.x > start.x {
            1
        } else {
            -1
        };
        let mut i: i64 = 0;
        while i <= dx
            invariant
                0 <= i <= dx + 1,
                dx == abs_int(cursor.x - start.x),
                sgn == step_toward(start.x, cursor.x),
                cursor.x != start.x,
                r@.len() == i,
                forall|k: int|
                    0 <= k < i ==> r@[k] == (GridPos {
                        x: (start.x + k * sgn) as i32,
                        y: start.y,
                    }),
            decreases dx + 1 - i,
        {
            proof {
                assert(i32::MIN <= start.x + i * sgn <= i32::MAX) by (nonlinear_arith)
                    requires
                        0 <= i <= dx,
                        sgn == 1 || sgn == -1,
                        sgn == 1 ==> start.x + dx == cursor.x,
                        sgn == -1 ==> start.x - dx == cursor.x,
                        i32::MIN <= start.x <= i32::MAX,
                        i32::MIN <= cursor.x <= i32::MAX,
                ;
            }
            r.push(GridPos { x: (start.x as i64 + i * sgn) as i32, y: start.y });
            i += 1;
        }
        r
    } else {
        let sgn: i64 = if cursor.y > start.y {
            1
        } else {
            -1
        };
        let mut i: i64 = 0;
        while i <= dy
            invariant
                0 <= i <= dy + 1,
                dy == abs_int(cursor.y - start.y),
                sgn == step_toward(start.y, cursor.y),
                sgn == 1 ==> cursor.y != start.y,
                r@.len() == i,
                forall|k: int|
                    0 <= k < i ==> r@[k] == (GridPos {
                        x: start.x,
                        y: (start.y + k * sgn) as i32,
                    }),
            decreases dy + 1 - i,
        {
            proof {
                assert(i32::MIN <= start.y + i * sgn <= i32::MAX) by (nonlinear_arith)
                    requires
                        0 <= i <= dy,
                        sgn == 1 || sgn == -1,
                        sgn == 1 ==> start.y + dy == cursor.y,
                        sgn == -1 ==> start.y - dy >= i32::MIN,
                        i32::MIN <= start.y <= i32::MAX,
                        i32::MIN <= cursor.y <= i32::MAX,
                ;
            }
            r.push(GridPos { x: start.x, y: (start.y as i64 + i * sgn) as i32 });
            i += 1;
        }
        r
    }
}

/// Whether the cell holds a wall: an occupant whose identifier is in the
/// caller's list of wall structures.
fn cell_has_wall(grid: &SpatialGrid, c: GridPos, wall_ids: &Vec<u64>) -> (r: bool)
    requires
        grid.wf(),
    ensures
        r == allowed_occupant(grid.spec_entities_at(c), wall_ids@),
{
    let occupants = grid.get_entities_at(&c);
    let m = occupants.len();
    let mut j: usize = 0;
    while j < m
        invariant
            m == occupants@.len(),
            j <= m,
            occupants@ == grid.spec_entities_at(c),
            forall|k: int| 0 <= k < j ==> !wall_ids@.contains(occupants@[k].entity),
        decreases m - j,
    {
        if crate::path::id_vec_contains(wall_ids, occupants[j].entity) {
            return true;
        }
        j += 1;
    }
    false
}

/// Whether a structure may be put down on this cell: the cell is walkable,
/// and either holds no wall or the item may sit on walls.
pub open spec fn cell_placeable(
    grid: SpatialGrid,
    c: GridPos,
    wall_ids: Seq<u64>,
    on_wall_ok: bool,
) -> bool {
    grid.spec_is_walkable(c) && (on_wall_ok || !allowed_occupant(grid.spec_entities_at(c), wall_ids))
}

/// Keeps the cells of a placement line on which the dragged item may
/// actually be put down.
pub fn filter_placeable_cells(
    cells: &Vec<GridPos>,
    grid: &SpatialGrid,
    wall_ids: &Vec<u64>,
    on_wall_ok: bool,
) -> (r: Vec<GridPos>)
    requires
        grid.wf(),
    ensures
        forall|k: int|
            0 <= k < r@.len() ==> cells@.contains(#[trigger] r@[k]) && cell_placeable(
                *grid,
                r@[k],
                wall_ids@,
                on_wall_ok,
            ),
        forall|j: int|
            0 <= j < cells@.len() && cell_placeable(*grid, #[trigger] cells@[j], wall_ids@, on_wall_ok)
                ==> r@.contains(cells@[j]),
{
    let n = cells.len();
    let mut r: Vec<GridPos> = Vec::new();
    let mut i: usize = 0;
    while i < n
        invariant
            grid.wf(),
            n == cells@.len(),
            i <= n,
            forall|k: int|
                0 <= k < r@.len() ==> cells@.contains(#[trigger] r@[k]) && cell_placeable(
                    *grid,
                    r@[k],
                    wall_ids@,
                    on_wall_ok,
                ),
            forall|j: int|
                0 <= j < i && cell_placeable(*grid, #[trigger] cells@[j], wall_ids@, on_wall_ok)
                    ==> r@.contains(cells@[j]),
        decreases n - i,
    {
        let c = cells[i];
        if grid.is_walkable(&c) && (on_wall_ok || !cell_has_wall(grid, c, wall_ids)) {
            let ghost r0 = r@;
            r.push(c);
            proof {
                assert(cells@.contains(c)) by {
                    assert(cells@[i as int] == c);
                }
                assert(r@.last() == c);
                assert(forall|j: int| 0 <= j < r0.len() ==> r@[j] == r0[j]);
                assert forall|j: int|
                    0 <= j < i + 1 && cell_placeable(
                        *grid,
                        #[trigger] cells@[j],
                        wall_ids@,
                        on_wall_ok,
                    ) implies r@.contains(cells@[j]) by {
                    if j < i {
                        let w = choose|w: int| 0 <= w < r0.len() && r0[w] == cells@[j];
                        assert(r@[w] == cells@[j]);
                    } else {
                        assert(r@[r@.len() - 1] == cells@[j]);
                    }
                }
            }
        }
        i += 1;
    }
    r
}

/// Registers one structure, just requested and not yet built, with the
/// grid (walkable until construction finishes) and puts it on the shared
/// build queue.
pub fn place_structure(
    grid: &mut SpatialGrid,
    queue: &mut WorkQueue,
    entity: u64,
    pos: GridPos,
) -> (rec: SpatialEntity)
    requires
        old(grid).wf(),
        pos.x < i32::MAX,
        pos.y < i32::MAX,
        !contains_id(old(grid).spec_entities_at(pos), entity),
    ensures
        final(grid).wf(),
        final(grid).has_cell(pos),
        final(grid).spec_entities_at(pos) == old(grid).spec_entities_at(pos).push(rec),
        forall|c: GridPos|
            c != pos ==> final(grid).spec_entities_at(c) == old(grid).spec_entities_at(c),
        rec == (SpatialEntity {
            entity,
            position: pos,
            previous_position: pos,
            move_cost: 0,
            walkable: true,
            size: (1, 1),
        }),
        final(queue).build_queue@ == old(queue).build_queue@.push(entity),
{
    proof {
        old(grid).lemma_wf_cell(pos);
        assert forall|c: GridPos|
            in_footprint(pos, (1u8, 1u8), c) implies c == pos && !contains_id(
            old(grid).spec_entities_at(c),
            entity,
        ) && sum_costs(old(grid).spec_entities_at(c)) + 0 <= i32::MAX by {
            assert(c.x == pos.x && c.y == pos.y);
            assert(c == pos);
        }
    }
    let rec = grid.create_spatial_entity(entity, pos, true, None, None);
    queue.build_queue.push_back(entity);
    proof {
        assert(in_footprint(pos, (1u8, 1u8), pos));
        assert forall|c: GridPos|
            c != pos implies final(grid).spec_entities_at(c) == old(grid).spec_entities_at(c) by {
            assert(!in_footprint(pos, (1u8, 1u8), c));
        }
    }
    rec
}

/// A structure whose construction just finished stops being walkable: its
/// occupant record is flipped across its footprint.
pub fn handle_built_added(grid: &mut SpatialGrid, entity: u64, pos: GridPos) -> (r: bool)
    requires
        old(grid).wf(),
    ensures
        final(grid).wf(),
        r == contains_id(old(grid).spec_entities_at(pos), entity),
        !r ==> *final(grid) == *old(grid),
        r ==> {
            let rec = old(grid).spec_entities_at(pos)[crate::grid::index_of_id(
                old(grid).spec_entities_at(pos),
                entity,
            )];
            &&& forall|c: GridPos|
                in_footprint(rec.position, rec.size, c) ==> final(grid).spec_entities_at(c)
                    == set_id_walkable(old(grid).spec_entities_at(c), entity, false)
            &&& forall|c: GridPos|
                !in_footprint(rec.position, rec.size, c) ==> final(grid).spec_entities_at(c)
                    == old(grid).spec_entities_at(c)
        },
{
    grid.set_walkable_at(&entity, &pos, false)
}

/// A torn-down structure leaves the grid entirely; whether the cell then
/// becomes walkable again falls out of the aggregation over the occupants
/// that remain.
pub fn handle_built_removed(grid: &mut SpatialGrid, entity: u64, pos: GridPos) -> (r: bool)
    requires
        old(grid).wf(),
    ensures
        final(grid).wf(),
        r == contains_id(old(grid).spec_entities_at(pos), entity),
        !r ==> *final(grid) == *old(grid),
        r ==> {
            let rec = old(grid).spec_entities_at(pos)[crate::grid::index_of_id(
                old(grid).spec_entities_at(pos),
                entity,
            )];
            &&& forall|c: GridPos|
                in_footprint(rec.position, rec.size, c) ==> final(grid).spec_entities_at(c)
                    == crate::grid::remove_id(old(grid).spec_entities_at(c), entity)
            &&& forall|c: GridPos|
                !in_footprint(rec.position, rec.size, c) ==> final(grid).spec_entities_at(c)
                    == old(grid).spec_entities_at(c)
        },
{
    grid.remove(&entity, &pos)
}

/// Whether construction of a structure has finished: nothing is missing
/// any more.
pub fn check_if_unbuilt_has_been_finished(p: &PlaceableType) -> (r: bool)
    requires
        p.current_resources <= p.max_resources,
    ensures
        r == (p.current_resources == p.max_resources),
{
    p.get_missing_resource_count() == 0
}

/// Picks the first walkable map-edge cell that the given random draws
/// propose; the caller draws again when none of this batch is walkable.
/// The map-edge cell one random draw proposes: on the left or right edge
/// with the drawn offset when the first flag holds, else on the bottom or
/// top edge.
pub open spec fn edge_cell_of(size: usize, draw: (bool, bool, usize)) -> GridPos {
    let edge: i32 = if draw.1 {
        size as i32
    } else {
        0
    };
    if draw.0 {
        GridPos { x: edge, y: draw.2 as i32 }
    } else {
        GridPos { x: draw.2 as i32, y: edge }
    }
}

/// Picks the walkable map-edge cell proposed by the earliest of the given
/// random draws; nothing comes back exactly when no draw of this batch
/// proposes a walkable cell, and the caller then draws again.
pub fn pick_edge_spawn_cell(
    grid: &SpatialGrid,
    size: usize,
    draws: &Vec<(bool, bool, usize)>,
) -> (r: Option<GridPos>)
    requires
        grid.wf(),
        1 <= size <= i32::MAX,
        forall|k: int| 0 <= k < draws@.len() ==> (#[trigger] draws@[k]).2 < size,
    ensures
        (r is None) == (forall|k: int|
            0 <= k < draws@.len() ==> !grid.spec_is_walkable(edge_cell_of(size, #[trigger] draws@[k]))),
        r matches Some(c) ==> {
            &&& grid.spec_is_walkable(c)
            &&& (c.x == 0 || c.x == size || c.y == 0 || c.y == size)
            &&& exists|k: int|
                {
                    &&& 0 <= k < draws@.len()
                    &&& c == edge_cell_of(size, #[trigger] draws@[k])
                    &&& forall|m: int|
                        0 <= m < k ==> !grid.spec_is_walkable(edge_cell_of(size, #[trigger] draws@[m]))
                }
        },
{
    let n = draws.len();
    let mut i: usize = 0;
    while i < n
        invariant
            grid.wf(),
            n == draws@.len(),
            i <= n,
            1 <= size <= i32::MAX,
            forall|k: int| 0 <= k < draws@.len() ==> (#[trigger] draws@[k]).2 < size,
            forall|k: int|
                0 <= k < i ==> !grid.spec_is_walkable(edge_cell_of(size, #[trigger] draws@[k])),
        decreases n - i,
    {
        let (x_edge, far, t) = draws[i];
        let edge: i32 = if far {
            size as i32
        } else {
            0
        };
        let c = if x_edge {
            GridPos { x: edge, y: t as i32 }
        } else {
            GridPos { x: t as i32, y: edge }
        };
        proof {
            assert(c == edge_cell_of(size, draws@[i as int]));
        }
        if grid.is_walkable(&c) {
            return Some(c);
        }
        i += 1;
    }
    None
}

} // verus!

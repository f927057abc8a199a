//! The pathfinder and the path request/answer protocol.
//!
//! Routes run over 4-connected neighbors. A neighbor cell is eligible when
//! it is present in the grid and is walkable, or is the goal cell, or holds
//! an occupant whose identifier the caller has explicitly allowed (so that a
//! route may end next to, or on, a nominally unwalkable target such as a
//! resource deposit).

use vstd::prelude::*;

use crate::grid::SpatialEntity;
use crate::grid::SpatialGrid;
use crate::grid::all_walkable;
use crate::grid_pos::GridPos;
use crate::grid_pos::abs_int;

verus! {

/// A path query: route the requesting agent from `start` to `end`.
#[derive(Debug, Copy, Clone, PartialEq, Eq, Structural)]
pub struct PathfindRequest {
    pub start: GridPos,
    pub end: GridPos,
    pub entity: u64,
}

/// One answer per request: the route found (excluding the start cell), or
/// nothing when the target is unreachable; the requester identifier and the
/// target are preserved so late answers can be matched and discarded.
#[derive(Debug, Clone)]
pub struct PathfindAnswer {
    pub path: Option<Vec<GridPos>>,
    pub entity: u64,
    pub target: GridPos,
}

/// One coordinate step upward, stopping at the numeric boundary.
pub open spec fn spec_sat_inc(v: i32) -> i32 {
    if v == i32::MAX {
        v
    } else {
        (v + 1) as i32
    }
}

/// One coordinate step downward, stopping at the numeric boundary.
pub open spec fn spec_sat_dec(v: i32) -> i32 {
    if v == i32::MIN {
        v
    } else {
        (v - 1) as i32
    }
}

/// The four cells reachable from `p` in one step of 4-connected movement.
pub open spec fn spec_neighbors(p: GridPos) -> Seq<GridPos> {
    seq![
        GridPos { x: p.x, y: spec_sat_inc(p.y) },
        GridPos { x: p.x, y: spec_sat_dec(p.y) },
        GridPos { x: spec_sat_dec(p.x), y: p.y },
        GridPos { x: spec_sat_inc(p.x), y: p.y },
    ]
}

/// Whether `b` is reachable from `a` in one step.
pub open spec fn adjacent(a: GridPos, b: GridPos) -> bool {
    spec_neighbors(a).contains(b)
}

/// Whether some occupant of the cell carries an explicitly allowed
/// identifier.
pub open spec fn allowed_occupant(s: Seq<SpatialEntity>, allow: Seq<u64>) -> bool {
    exists|i: int| 0 <= i < s.len() && allow.contains(s[i].entity)
}

/// Whether a route may step onto cell `c`: the cell is present in the grid,
/// and is fully walkable, or is the goal itself, or holds an allowed
/// occupant.
pub open spec fn cell_eligible(
    grid: SpatialGrid,
    end: GridPos,
    allow: Seq<u64>,
    c: GridPos,
) -> bool {
    grid.has_cell(c) && (c == end || all_walkable(grid.spec_entities_at(c)) || allowed_occupant(
        grid.spec_entities_at(c),
        allow,
    ))
}

/// Whether `p` is a route from `start` to `end`: it begins at `start`, ends
/// at `end`, moves only between 4-connected neighbors, and every cell after
/// the start is eligible.
#[verifier::opaque]
pub open spec fn valid_route(
    grid: SpatialGrid,
    start: GridPos,
    end: GridPos,
    allow: Seq<u64>,
    p: Seq<GridPos>,
) -> bool {
    &&& p.len() >= 1
    &&& p[0] == start
    &&& p.last() == end
    &&& forall|i: int| 1 <= i < p.len() ==> adjacent(p[i - 1], #[trigger] p[i])
    &&& forall|i: int| 1 <= i < p.len() ==> cell_eligible(grid, end, allow, #[trigger] p[i])
}

/// Whether any route from `start` to `end` exists.
#[verifier::opaque]
pub open spec fn has_route(grid: SpatialGrid, start: GridPos, end: GridPos, allow: Seq<u64>) -> bool {
    exists|p: Seq<GridPos>| valid_route(grid, start, end, allow, p)
}

/// Whether no cell repeats along the route.
pub open spec fn distinct_cells(p: Seq<GridPos>) -> bool {
    forall|i: int, j: int| 0 <= i < j < p.len() ==> p[i] != p[j]
}

/// The route the search returns for a query, start cell included, or
/// nothing when the goal is unreachable. The search is deterministic, so
/// its result is a function of the grid's contents and the query alone;
/// what the route looks like beyond being a valid, repetition-free route
/// is pinned by no further fact.
pub uninterp spec fn astar_route(
    cells: Map<GridPos, Seq<SpatialEntity>>,
    start: GridPos,
    end: GridPos,
    allow: Seq<u64>,
) -> Option<Seq<GridPos>>;

/// Whether `r` is the integer square root of `v`.
pub open spec fn is_isqrt(v: int, r: int) -> bool {
    0 <= r && r * r <= v < (r + 1) * (r + 1)
}

/// The integer square root.
pub open spec fn spec_isqrt(v: int) -> int {
    choose|r: int| is_isqrt(v, r)
}

/// The integer square root is unique.
pub proof fn lemma_isqrt_unique(v: int, r: int)
    requires
        is_isqrt(v, r),
    ensures
        spec_isqrt(v) == r,
{
    let s = spec_isqrt(v);
    assert(is_isqrt(v, s));
    assert(r == s) by (nonlinear_arith)
        requires
            is_isqrt(v, r),
            is_isqrt(v, s),
    ;
}

/// The integer square root, by bisection.
fn isqrt_u128(v: u128) -> (r: u128)
    ensures
        is_isqrt(v as int, r as int),
        r as int == spec_isqrt(v as int),
{
    let mut lo: u128 = 0;
    let mut hi: u128 = 0x1_0000_0000_0000_0000;
    proof {
        assert((0x1_0000_0000_0000_0000 as int) * (0x1_0000_0000_0000_0000 as int) > u128::MAX as int)
            by (nonlinear_arith);
    }
    while lo + 1 < hi
        invariant
            lo < hi <= 0x1_0000_0000_0000_0000,
            lo * lo <= v,
            (v as int) < (hi as int) * (hi as int),
        decreases hi - lo,
    {
        let mid = lo + (hi - lo) / 2;
        proof {
            assert((mid as int) * (mid as int) < u128::MAX as int) by (nonlinear_arith)
                requires
                    mid < 0x1_0000_0000_0000_0000,
            ;
        }
        if mid * mid <= v {
            lo = mid;
        } else {
            hi = mid;
        }
    }
    proof {
        assert((lo as int + 1) * (lo as int + 1) == (hi as int) * (hi as int)) by (nonlinear_arith)
            requires
                lo as int + 1 == hi as int,
        ;
        lemma_isqrt_unique(v as int, lo as int);
    }
    lo
}

/// The straight-line distance between two cells, rounded down to an integer;
/// the heuristic fed to the search and part of each edge weight.
pub fn euclid_dist(a: GridPos, b: GridPos) -> (r: i64)
    ensures
        r == spec_isqrt(a.spec_dist_sq(b)),
        0 <= r < 0x2_0000_0000,
{
    let d = a.dist_sq(b);
    let s = isqrt_u128(d);
    proof {
        assert(d < (0x2_0000_0000 as int) * (0x2_0000_0000 as int)) by (nonlinear_arith)
            requires
                d == a.spec_dist_sq(b),
                -0x1_0000_0000 <= a.x - b.x <= 0x1_0000_0000,
                -0x1_0000_0000 <= a.y - b.y <= 0x1_0000_0000,
        ;
        assert(s < 0x2_0000_0000) by (nonlinear_arith)
            requires
                (s as int) * (s as int) <= (d as int),
                (d as int) < (0x2_0000_0000 as int) * (0x2_0000_0000 as int),
                s >= 0,
        ;
    }
    s as i64
}

/// One saturating coordinate step upward.
fn sat_inc(v: i32) -> (r: i32)
    ensures
        r == spec_sat_inc(v),
{
    if v == i32::MAX {
        v
    } else {
        v + 1
    }
}

/// One saturating coordinate step downward.
fn sat_dec(v: i32) -> (r: i32)
    ensures
        r == spec_sat_dec(v),
{
    if v == i32::MIN {
        v
    } else {
        v - 1
    }
}

/// Whether the vector holds the given identifier.
pub(crate) fn id_vec_contains(v: &Vec<u64>, x: u64) -> (r: bool)
    ensures
        r == v@.contains(x),
{
    let n = v.len();
    let mut i: usize = 0;
    while i < n
        invariant
            n == v@.len(),
            i <= n,
            forall|k: int| 0 <= k < i ==> v@[k] != x,
        decreases n - i,
    {
        if v[i] == x {
            return true;
        }
        i += 1;
    }
    proof {
        assert(!v@.contains(x));
    }
    false
}

/// Whether a route may step onto cell `c`.
fn eligible_cell(grid: &SpatialGrid, end: GridPos, allow: &Vec<u64>, c: GridPos) -> (r: bool)
    requires
        grid.wf(),
    ensures
        r == cell_eligible(*grid, end, allow@, c),
{
    let occupants = grid.get_entities_at(&c);
    if !grid.contains_cell(&c) {
        return false;
    }
    if c.x == end.x && c.y == end.y {
        return true;
    }
    let m = occupants.len();
    let mut all_walk = true;
    let mut any_allowed = false;
    let mut j: usize = 0;
    while j < m
        invariant
            m == occupants@.len(),
            j <= m,
            occupants@ == grid.spec_entities_at(c),
            all_walk == (forall|k: int| 0 <= k < j ==> occupants@[k].walkable),
            any_allowed == (exists|k: int| 0 <= k < j && allow@.contains(occupants@[k].entity)),
        decreases m - j,
    {
        if !occupants[j].walkable {
            all_walk = false;
        }
        if id_vec_contains(allow, occupants[j].entity) {
            any_allowed = true;
        }
        j += 1;
    }
    all_walk || any_allowed
}

/// The eligible neighbors of `p`, each with its edge weight: the neighbor
/// cell's traversal cost plus its straight-line distance to the goal.
fn successor_cells(grid: &SpatialGrid, p: GridPos, end: GridPos, allow: &Vec<u64>) -> (r: Vec<
    (GridPos, i64),
>)
    requires
        grid.wf(),
    ensures
        forall|k: int|
            0 <= k < r@.len() ==> adjacent(p, (#[trigger] r@[k]).0) && cell_eligible(
                *grid,
                end,
                allow@,
                r@[k].0,
            ) && r@[k].1 == grid.spec_walk_cost(r@[k].0) + spec_isqrt(
                r@[k].0.spec_dist_sq(end),
            ),
        forall|n: GridPos|
            adjacent(p, n) && cell_eligible(*grid, end, allow@, n) ==> (exists|k: int|
                0 <= k < r@.len() && (#[trigger] r@[k]).0 == n),
{
    let up = GridPos { x: p.x, y: sat_inc(p.y) };
    let down = GridPos { x: p.x, y: sat_dec(p.y) };
    let left = GridPos { x: sat_dec(p.x), y: p.y };
    let right = GridPos { x: sat_inc(p.x), y: p.y };
    let mut r: Vec<(GridPos, i64)> = Vec::new();
    let eu = eligible_cell(grid, end, allow, up);
    if eu {
        r.push((up, grid.walk_cost_at(&up) as i64 + euclid_dist(up, end)));
    }
    let ghost ku = r@.len() - 1;
    let ed = eligible_cell(grid, end, allow, down);
    if ed {
        r.push((down, grid.walk_cost_at(&down) as i64 + euclid_dist(down, end)));
    }
    let ghost kd = r@.len() - 1;
    let el = eligible_cell(grid, end, allow, left);
    if el {
        r.push((left, grid.walk_cost_at(&left) as i64 + euclid_dist(left, end)));
    }
    let ghost kl = r@.len() - 1;
    let er = eligible_cell(grid, end, allow, right);
    if er {
        r.push((right, grid.walk_cost_at(&right) as i64 + euclid_dist(right, end)));
    }
    let ghost kr = r@.len() - 1;
    proof {
        assert forall|n: GridPos|
            adjacent(p, n) && cell_eligible(*grid, end, allow@, n) implies (exists|k: int|
            0 <= k < r@.len() && (#[trigger] r@[k]).0 == n) by {
            let nb = spec_neighbors(p);
            assert(nb[0] == up && nb[1] == down && nb[2] == left && nb[3] == right);
            let i = choose|i: int| 0 <= i < nb.len() && nb[i] == n;
            if n == up {
                assert(r@[ku].0 == n);
            } else if n == down {
                assert(r@[kd].0 == n);
            } else if n == left {
                assert(r@[kl].0 == n);
            } else {
                assert(n == right);
                assert(r@[kr].0 == n);
            }
        }
    }
    r
}

/// Relies on `pathfinding::directed::astar::astar`: it walks the successor
/// relation exhaustively, returns a path comprising both the start and a
/// goal node when the goal can be reached (every later node taken from the
/// `successors` closure, here the eligible neighbors), and returns `None`
/// exactly when no such path exists. Its documentation states that no node
/// is included twice in the path, and the source checks the goal test on
/// the start node before expanding any neighbor, so a query to the start's
/// own cell yields the one-cell path. The search runs on deterministic
/// containers and the closures below call only verified functions, so the
/// result is a function of the grid's contents and the query: `astar_route`
/// names it. No ordering or cost-optimality of the returned path is
/// assumed.
#[verifier::external_body]
fn astar_search(grid: &SpatialGrid, start: GridPos, end: GridPos, allow: &Vec<u64>) -> (r: Option<
    Vec<GridPos>,
>)
    requires
        grid.wf(),
    ensures
        (r is Some) == has_route(*grid, start, end, allow@),
        (r matches Some(p) ==> valid_route(*grid, start, end, allow@, p@)),
        (r matches Some(p) ==> distinct_cells(p@)),
        (r is Some) || start != end,
        (r matches Some(p) ==> (start == end ==> p@ == seq![start])),
        (match r {
            Some(p) => astar_route(grid.spec_cells(), start, end, allow@) == Some(p@),
            None => astar_route(grid.spec_cells(), start, end, allow@) is None,
        }),
{
    pathfinding::directed::astar::astar(
        &start,
        |p: &GridPos| successor_cells(grid, *p, end, allow),
        |p: &GridPos| euclid_dist(*p, end),
        |p: &GridPos| p.x == end.x && p.y == end.y,
    ).map(|(path, _cost)| path)
}

/// Answers one path query: a walkable route from the request's start to
/// its end, as the sequence of cells to step onto (the start cell
/// excluded), or nothing exactly when no route exists. Occupants whose
/// identifier is in `allow` make their cells passable for this query.
pub fn get_pathing(request: PathfindRequest, grid: &SpatialGrid, allow: &Vec<u64>) -> (r: Option<
    Vec<GridPos>,
>)
    requires
        grid.wf(),
    ensures
        (r is Some) == has_route(*grid, request.start, request.end, allow@),
        (r matches Some(p) ==> valid_route(
            *grid,
            request.start,
            request.end,
            allow@,
            seq![request.start] + p@,
        )),
        (r matches Some(p) ==> distinct_cells(seq![request.start] + p@)),
        (r matches Some(p) ==> p@.len() >= request.start.spec_manhattan(request.end)),
        (r matches Some(p) ==> astar_route(grid.spec_cells(), request.start, request.end, allow@)
            == Some(seq![request.start] + p@)),
        ((r is None) == (astar_route(grid.spec_cells(), request.start, request.end, allow@)
            is None)),
        (request.start == request.end ==> (r matches Some(p) && p@ == Seq::<GridPos>::empty())),
{
    let mut path = match astar_search(grid, request.start, request.end, allow) {
        Some(path) => path,
        None => {
            return None;
        },
    };
    let ghost full = path@;
    proof {
        reveal(valid_route);
        assert(full.len() >= 1);
    }
    path.remove(0);
    proof {
        reveal(valid_route);
        assert(seq![request.start] + path@ =~= full);
        assert(valid_route(*grid, request.start, request.end, allow@, seq![request.start] + path@));
        lemma_route_at_least_manhattan(*grid, request.start, request.end, allow@, full);
        if request.start == request.end {
            assert(full == seq![request.start]);
            assert(path@ =~= Seq::<GridPos>::empty());
        }
    }
    Some(path)
}

/// Drains one tick's batch of path requests: exactly one answer per
/// request, in order, each preserving the requester identifier and the
/// target cell, with the route found against the current grid.
pub fn drain_requests(grid: &SpatialGrid, requests: &Vec<PathfindRequest>) -> (answers: Vec<
    PathfindAnswer,
>)
    requires
        grid.wf(),
    ensures
        answers@.len() == requests@.len(),
        forall|i: int|
            0 <= i < requests@.len() ==> {
                let a = #[trigger] answers@[i];
                let q = requests@[i];
                &&& a.entity == q.entity
                &&& a.target == q.end
                &&& (a.path is Some) == has_route(*grid, q.start, q.end, Seq::<u64>::empty())
                &&& (a.path matches Some(p) ==> valid_route(
                    *grid,
                    q.start,
                    q.end,
                    Seq::<u64>::empty(),
                    seq![q.start] + p@,
                ))
                &&& (q.start == q.end ==> (a.path matches Some(p) && p@ == Seq::<
                    GridPos,
                >::empty()))
            },
{
    let no_allow: Vec<u64> = Vec::new();
    proof {
        assert(no_allow@ =~= Seq::<u64>::empty());
    }
    let n = requests.len();
    let mut answers: Vec<PathfindAnswer> = Vec::new();
    let mut i: usize = 0;
    while i < n
        invariant
            grid.wf(),
            n == requests@.len(),
            i <= n,
            no_allow@ == Seq::<u64>::empty(),
            answers@.len() == i,
            forall|k: int|
                0 <= k < i ==> {
                    let a = #[trigger] answers@[k];
                    let q = requests@[k];
                    &&& a.entity == q.entity
                    &&& a.target == q.end
                    &&& (a.path is Some) == has_route(*grid, q.start, q.end, Seq::<u64>::empty())
                    &&& (a.path matches Some(p) ==> valid_route(
                        *grid,
                        q.start,
                        q.end,
                        Seq::<u64>::empty(),
                        seq![q.start] + p@,
                    ))
                    &&& (q.start == q.end ==> (a.path matches Some(p) && p@ == Seq::<
                        GridPos,
                    >::empty()))
                },
        decreases n - i,
    {
        let q = requests[i];
        let path = get_pathing(q, grid, &no_allow);
        answers.push(PathfindAnswer { path, entity: q.entity, target: q.end });
        i += 1;
    }
    answers
}

/// One step of 4-connected movement changes the Manhattan distance to any
/// fixed cell by at most one.
pub proof fn lemma_adjacent_manhattan(a: GridPos, b: GridPos)
    requires
        adjacent(a, b),
    ensures
        a.spec_manhattan(b) <= 1,
{
    let nb = spec_neighbors(a);
    let i = choose|i: int| 0 <= i < nb.len() && nb[i] == b;
    assert(i == 0 || i == 1 || i == 2 || i == 3);
}

proof fn lemma_shape_manhattan(start: GridPos, end: GridPos, p: Seq<GridPos>)
    requires
        p.len() >= 1,
        p[0] == start,
        p.last() == end,
        forall|i: int| 1 <= i < p.len() ==> adjacent(p[i - 1], #[trigger] p[i]),
    ensures
        p.len() - 1 >= start.spec_manhattan(end),
    decreases p.len(),
{
    if p.len() > 1 {
        let n = p.len() as int;
        let q = p.drop_last();
        assert(q.last() == p[n - 2]);
        assert(forall|i: int| 1 <= i < q.len() ==> adjacent(q[i - 1], #[trigger] q[i]));
        lemma_shape_manhattan(start, p[n - 2], q);
        lemma_adjacent_manhattan(p[n - 2], end);
        assert(start.spec_manhattan(end) <= start.spec_manhattan(p[n - 2]) + p[n
            - 2].spec_manhattan(end));
    }
}

/// Every route between two cells takes at least as many steps as their
/// Manhattan distance. (On an unobstructed grid the shortest route takes
/// exactly that many; the end-to-end scenarios check the exact count on
/// concrete grids.)
pub proof fn lemma_route_at_least_manhattan(
    grid: SpatialGrid,
    start: GridPos,
    end: GridPos,
    allow: Seq<u64>,
    p: Seq<GridPos>,
)
    requires
        valid_route(grid, start, end, allow, p),
    ensures
        p.len() - 1 >= start.spec_manhattan(end),
{
    reveal(valid_route);
    lemma_shape_manhattan(start, end, p);
}

/// The unit step from `a` toward `b` on one axis.
pub open spec fn axis_step(a: i32, b: i32) -> int {
    if b >= a {
        1
    } else {
        -1
    }
}

/// The L-shaped route from `start` to `end`: first along the x axis, then
/// along the y axis; it has exactly Manhattan-distance many steps.
pub open spec fn l_route(start: GridPos, end: GridPos) -> Seq<GridPos> {
    let dx = abs_int(end.x - start.x);
    let dy = abs_int(end.y - start.y);
    Seq::new(
        (dx + dy + 1) as nat,
        |i: int|
            if i <= dx {
                GridPos { x: (start.x + i * axis_step(start.x, end.x)) as i32, y: start.y }
            } else {
                GridPos { x: end.x, y: (start.y + (i - dx) * axis_step(start.y, end.y)) as i32 }
            },
    )
}

/// When the cells of the L-shaped corridor between two cells are
/// walkable, a route exists, and one of exactly Manhattan-distance many
/// steps at that. Together with `lemma_route_at_least_manhattan` this pins
/// the least route length on an unobstructed grid to the Manhattan
/// distance.
pub proof fn lemma_open_route_exists(grid: SpatialGrid, start: GridPos, end: GridPos)
    requires
        forall|i: int|
            1 <= i < l_route(start, end).len() ==> grid.spec_is_walkable(
                #[trigger] l_route(start, end)[i],
            ),
    ensures
        valid_route(grid, start, end, Seq::<u64>::empty(), l_route(start, end)),
        l_route(start, end).len() - 1 == start.spec_manhattan(end),
        has_route(grid, start, end, Seq::<u64>::empty()),
{
    reveal(valid_route);
    reveal(has_route);
    let p = l_route(start, end);
    let dx = abs_int(end.x - start.x);
    let dy = abs_int(end.y - start.y);
    let sx = axis_step(start.x, end.x);
    let sy = axis_step(start.y, end.y);
    assert(p.len() == dx + dy + 1);
    assert(p[0] == start) by {
        assert(0 * sx == 0);
    }
    assert(p.last() == end) by {
        if dy == 0 {
            assert(dx * sx == end.x - start.x) by (nonlinear_arith)
                requires
                    dx == abs_int(end.x - start.x),
                    sx == axis_step(start.x, end.x),
            ;
        } else {
            assert(dy * sy == end.y - start.y) by (nonlinear_arith)
                requires
                    dy == abs_int(end.y - start.y),
                    sy == axis_step(start.y, end.y),
            ;
        }
    }
    assert forall|i: int| 1 <= i < p.len() implies adjacent(p[i - 1], #[trigger] p[i]) by {
        lemma_l_route_step(start, end, i);
    }
    assert forall|i: int|
        1 <= i < p.len() implies cell_eligible(grid, end, Seq::<u64>::empty(), #[trigger] p[i]) by {
        assert(grid.spec_is_walkable(p[i]));
    }
    assert(valid_route(grid, start, end, Seq::<u64>::empty(), p));
    assert(has_route(grid, start, end, Seq::<u64>::empty()));
}

proof fn lemma_l_route_step(start: GridPos, end: GridPos, i: int)
    requires
        1 <= i < l_route(start, end).len(),
    ensures
        adjacent(l_route(start, end)[i - 1], l_route(start, end)[i]),
{
    let p = l_route(start, end);
    let dx = abs_int(end.x - start.x);
    let dy = abs_int(end.y - start.y);
    let sx = axis_step(start.x, end.x);
    let sy = axis_step(start.y, end.y);
    let a = p[i - 1];
    let b = p[i];
    if i <= dx {
        assert(a.x == start.x + (i - 1) * sx && b.x == start.x + i * sx && a.y == b.y == start.y)
            by (nonlinear_arith)
            requires
                1 <= i <= dx,
                a == l_route(start, end)[i - 1],
                b == l_route(start, end)[i],
                dx == abs_int(end.x - start.x),
                sx == axis_step(start.x, end.x),
                i < l_route(start, end).len(),
        ;
        assert(b.x == a.x + sx) by (nonlinear_arith)
            requires
                a.x == start.x + (i - 1) * sx,
                b.x == start.x + i * sx,
        ;
        if sx == 1 {
            assert(a.x < i32::MAX);
            assert(spec_neighbors(a)[3] == b);
        } else {
            assert(a.x > i32::MIN);
            assert(spec_neighbors(a)[2] == b);
        }
    } else {
        let j = i - dx;
        assert(b.x == end.x && b.y == start.y + j * sy);
        if i - 1 == dx {
            assert(a.x == start.x + dx * sx && a.y == start.y);
            assert(a.x == end.x) by (nonlinear_arith)
                requires
                    a.x == start.x + dx * sx,
                    dx == abs_int(end.x - start.x),
                    sx == axis_step(start.x, end.x),
            ;
            assert(b.y == a.y + sy) by {
                assert(j == 1);
            }
        } else {
            assert(a.x == end.x && a.y == start.y + (j - 1) * sy);
            assert(b.y == a.y + sy) by (nonlinear_arith)
                requires
                    a.y == start.y + (j - 1) * sy,
                    b.y == start.y + j * sy,
            ;
        }
        assert(1 <= j <= dy);
        assert(i32::MIN <= start.y + j * sy <= i32::MAX) by (nonlinear_arith)
            requires
                1 <= j <= dy,
                dy == abs_int(end.y - start.y),
                sy == axis_step(start.y, end.y),
                i32::MIN <= start.y <= i32::MAX,
                i32::MIN <= end.y <= i32::MAX,
        ;
        if sy == 1 {
            assert(a.y < i32::MAX);
            assert(spec_neighbors(a)[0] == b);
        } else {
            assert(a.y > i32::MIN);
            assert(spec_neighbors(a)[1] == b);
        }
    }
}

/// Every prefix of a repetition-free route is itself a route to the cell
/// it stops at: the cells before the original goal are eligible on their
/// own (walkable or allowed), so cutting the route short keeps it valid.
pub proof fn lemma_route_prefix(
    grid: SpatialGrid,
    start: GridPos,
    end: GridPos,
    allow: Seq<u64>,
    p: Seq<GridPos>,
    k: int,
)
    requires
        valid_route(grid, start, end, allow, p),
        distinct_cells(p),
        0 <= k < p.len(),
    ensures
        valid_route(grid, start, p[k], allow, p.take(k + 1)),
        has_route(grid, start, p[k], allow),
{
    reveal(valid_route);
    reveal(has_route);
    let q = p.take(k + 1);
    assert(q.last() == p[k]);
    assert(forall|i: int| 1 <= i < q.len() ==> adjacent(q[i - 1], #[trigger] q[i]));
    assert forall|i: int| 1 <= i < q.len() implies cell_eligible(grid, p[k], allow, #[trigger] q[i]) by {
        assert(cell_eligible(grid, end, allow, p[i]));
        if i == k {
            assert(q[i] == p[k]);
        } else if p[i] == end {
            assert(p[p.len() - 1] == end);
            assert(i < p.len() - 1 ==> p[i] != p[p.len() - 1]);
            assert(i == p.len() - 1);
            assert(i <= k);
        } else {
            assert(all_walkable(grid.spec_entities_at(p[i])) || allowed_occupant(
                grid.spec_entities_at(p[i]),
                allow,
            ));
        }
    }
    assert(valid_route(grid, start, p[k], allow, q));
}

/// A cell whose neighbor (by a saturating step) is another cell is itself a
/// neighbor of that cell.
proof fn lemma_pred_is_neighbor(q: GridPos, e: GridPos)
    requires
        adjacent(q, e),
        q != e,
    ensures
        spec_neighbors(e).contains(q),
{
    let nb = spec_neighbors(q);
    let i = choose|i: int| 0 <= i < nb.len() && nb[i] == e;
    assert(i == 0 || i == 1 || i == 2 || i == 3);
    if i == 0 {
        assert(spec_neighbors(e)[1] == q);
    } else if i == 1 {
        assert(spec_neighbors(e)[0] == q);
    } else if i == 2 {
        assert(spec_neighbors(e)[3] == q);
    } else {
        assert(spec_neighbors(e)[2] == q);
    }
}

proof fn lemma_no_enclosed_route(grid: SpatialGrid, start: GridPos, end: GridPos, p: Seq<GridPos>)
    requires
        start != end,
        start.spec_manhattan(end) != 1,
        forall|c: GridPos| spec_neighbors(end).contains(c) ==> !grid.spec_is_walkable(c),
    ensures
        !valid_route(grid, start, end, Seq::<u64>::empty(), p),
    decreases p.len(),
{
    reveal(valid_route);
    if valid_route(grid, start, end, Seq::<u64>::empty(), p) {
        let n = p.len() as int;
        assert(n >= 2);
        let q = p[n - 2];
        if q == end {
            let pp = p.drop_last();
            assert(pp.last() == end);
            assert(forall|i: int| 1 <= i < pp.len() ==> adjacent(pp[i - 1], #[trigger] pp[i]));
            assert(forall|i: int|
                1 <= i < pp.len() ==> cell_eligible(
                    grid,
                    end,
                    Seq::<u64>::empty(),
                    #[trigger] pp[i],
                ));
            lemma_no_enclosed_route(grid, start, end, pp);
            assert(valid_route(grid, start, end, Seq::<u64>::empty(), pp));
        } else {
            assert(adjacent(q, end));
            lemma_pred_is_neighbor(q, end);
            assert(!grid.spec_is_walkable(q));
            if n == 2 {
                lemma_adjacent_manhattan(q, end);
                assert(q == start);
                assert(start.spec_manhattan(end) == 0);
                assert(start == end);
            } else {
                assert(cell_eligible(grid, end, Seq::<u64>::empty(), q));
                assert(!allowed_occupant(grid.spec_entities_at(q), Seq::<u64>::empty())) by {
                    assert(forall|x: u64| !Seq::<u64>::empty().contains(x));
                }
                assert(grid.spec_is_walkable(q));
            }
        }
    }
}

/// When every neighbor of the goal cell is unwalkable, and the start is
/// neither the goal nor directly adjacent to it, no route to the goal
/// exists, so a path query for it is answered with nothing. (A start
/// directly adjacent to the goal is excluded: the goal cell itself is always
/// an eligible final step, so the one-step route would still exist.)
pub proof fn lemma_enclosed_goal_unreachable(grid: SpatialGrid, start: GridPos, end: GridPos)
    requires
        start != end,
        start.spec_manhattan(end) != 1,
        forall|c: GridPos| spec_neighbors(end).contains(c) ==> !grid.spec_is_walkable(c),
    ensures
        !has_route(grid, start, end, Seq::<u64>::empty()),
{
    reveal(has_route);
    if has_route(grid, start, end, Seq::<u64>::empty()) {
        let p = choose|p: Seq<GridPos>| valid_route(grid, start, end, Seq::<u64>::empty(), p);
        lemma_no_enclosed_route(grid, start, end, p);
    }
}

} // verus!

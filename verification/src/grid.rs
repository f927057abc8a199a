//! The spatial occupancy grid: a mapping from grid cell to the set of
//! occupant records in that cell, each annotated with walkability and a
//! movement-cost contribution.
//!
//! A cell is walkable iff it is present in the mapping and every occupant in
//! it permits traversal; a cell's traversal cost is the sum of its occupants'
//! cost contributions. An occupant may cover a rectangular footprint of
//! cells, anchored at its position.

use vstd::prelude::*;

use crate::grid_pos::GridPos;

verus! {

/// One occupant record: the owning object's identifier, its anchor cell, the
/// cell it previously occupied, its movement-cost contribution, whether it
/// permits traversal, and its footprint size in cells.
#[derive(Debug, PartialEq, Eq, Copy, Clone)]
pub struct SpatialEntity {
    pub entity: u64,
    pub position: GridPos,
    pub previous_position: GridPos,
    pub move_cost: i32,
    pub walkable: bool,
    pub size: (u8, u8),
}

impl SpatialEntity {
    pub fn entity(&self) -> (r: &u64)
        ensures
            r == self.entity,
    {
        &self.entity
    }

    pub fn position(&self) -> (r: &GridPos)
        ensures
            r == self.position,
    {
        &self.position
    }

    pub fn previous_position(&self) -> (r: &GridPos)
        ensures
            r == self.previous_position,
    {
        &self.previous_position
    }

    pub fn move_cost(&self) -> (r: i32)
        ensures
            r == self.move_cost,
    {
        self.move_cost
    }

    pub fn set_move_cost(&mut self, move_cost: i32)
        ensures
            *final(self) == (SpatialEntity { move_cost, ..*old(self) }),
    {
        self.move_cost = move_cost;
    }

    pub fn walkable(&self) -> (r: bool)
        ensures
            r == self.walkable,
    {
        self.walkable
    }

    pub fn set_walkable(&mut self, walkable: bool)
        ensures
            *final(self) == (SpatialEntity { walkable, ..*old(self) }),
    {
        self.walkable = walkable;
    }

    pub fn size(&self) -> (r: (u8, u8))
        ensures
            r == self.size,
    {
        self.size
    }
}

/// Whether cell `c` lies inside the rectangular footprint anchored at
/// `anchor` with the given width and height.
pub open spec fn in_footprint(anchor: GridPos, size: (u8, u8), c: GridPos) -> bool {
    &&& anchor.x <= c.x < anchor.x + size.0
    &&& anchor.y <= c.y < anchor.y + size.1
}

/// The sum of the occupants' movement-cost contributions.
pub open spec fn sum_costs(s: Seq<SpatialEntity>) -> int
    decreases s.len(),
{
    if s.len() == 0 {
        0
    } else {
        sum_costs(s.drop_last()) + s.last().move_cost
    }
}

/// Whether some occupant in the sequence has the given identifier.
pub open spec fn contains_id(s: Seq<SpatialEntity>, id: u64) -> bool {
    exists|i: int| 0 <= i < s.len() && s[i].entity == id
}

/// The index of the occupant with the given identifier.
pub open spec fn index_of_id(s: Seq<SpatialEntity>, id: u64) -> int {
    choose|i: int| 0 <= i < s.len() && s[i].entity == id
}

/// The sequence with the occupant of the given identifier removed, if present.
pub open spec fn remove_id(s: Seq<SpatialEntity>, id: u64) -> Seq<SpatialEntity> {
    if contains_id(s, id) {
        s.remove(index_of_id(s, id))
    } else {
        s
    }
}

/// Whether every occupant in the sequence permits traversal.
pub open spec fn all_walkable(s: Seq<SpatialEntity>) -> bool {
    forall|i: int| 0 <= i < s.len() ==> s[i].walkable
}

/// Whether an occupant record's footprint stays within the coordinate range.
pub open spec fn rec_fits(rec: SpatialEntity) -> bool {
    &&& rec.position.x + rec.size.0 <= i32::MAX
    &&& rec.position.y + rec.size.1 <= i32::MAX
}

/// Well-formedness of one cell's occupant sequence: identifiers are unique,
/// cost contributions are non-negative, their sum stays within `i32`, and
/// every record's footprint stays within the coordinate range.
pub open spec fn cell_wf(s: Seq<SpatialEntity>) -> bool {
    &&& forall|i: int, j: int|
        0 <= i < j < s.len() ==> s[i].entity != s[j].entity
    &&& forall|i: int| 0 <= i < s.len() ==> 0 <= s[i].move_cost
    &&& forall|i: int| 0 <= i < s.len() ==> rec_fits(s[i])
    &&& sum_costs(s) <= i32::MAX
}

struct Cell {
    pos: GridPos,
    occupants: Vec<SpatialEntity>,
}

/// The spatial grid: a mapping from grid cell to the occupant records at that
/// cell. A cell enters the mapping when an occupant is first registered there
/// and stays in it (possibly empty) afterwards.
pub struct SpatialGrid {
    cells: Vec<Cell>,
}

impl SpatialGrid {
    /// Whether the grid has an entry for cell `c`.
    pub closed spec fn has_cell(self, c: GridPos) -> bool {
        exists|i: int| 0 <= i < self.cells@.len() && self.cells@[i].pos == c
    }

    closed spec fn idx_of(self, c: GridPos) -> int {
        choose|i: int| 0 <= i < self.cells@.len() && self.cells@[i].pos == c
    }

    /// The occupant records at cell `c`; empty if the grid has no entry for it.
    pub closed spec fn spec_entities_at(self, c: GridPos) -> Seq<SpatialEntity> {
        if self.has_cell(c) {
            self.cells@[self.idx_of(c)].occupants@
        } else {
            Seq::empty()
        }
    }

    /// Whether `pos` can be traversed: the cell must be present in the
    /// mapping and every occupant in it must be walkable. A cell with no
    /// entry is not walkable.
    pub open spec fn spec_is_walkable(self, pos: GridPos) -> bool {
        self.has_cell(pos) && all_walkable(self.spec_entities_at(pos))
    }

    /// The traversal cost of `pos`: the sum of its occupants' contributions,
    /// zero for a cell with no entry.
    pub open spec fn spec_walk_cost(self, pos: GridPos) -> int {
        sum_costs(self.spec_entities_at(pos))
    }

    /// The grid's contents as a mapping: each present cell to its occupant
    /// sequence.
    pub open spec fn spec_cells(self) -> Map<GridPos, Seq<SpatialEntity>> {
        Map::new(|c: GridPos| self.has_cell(c), |c: GridPos| self.spec_entities_at(c))
    }

    /// Well-formedness: cell entries are keyed by distinct positions and
    /// every cell's occupant sequence is well formed.
    pub closed spec fn wf(self) -> bool {
        &&& forall|i: int, j: int|
            0 <= i < j < self.cells@.len() ==> self.cells@[i].pos != self.cells@[j].pos
        &&& forall|i: int| 0 <= i < self.cells@.len() ==> cell_wf(self.cells@[i].occupants@)
    }

    pub fn new() -> (r: Self)
        ensures
            r.wf(),
            forall|c: GridPos| !r.has_cell(c),
            forall|c: GridPos| r.spec_entities_at(c) == Seq::<SpatialEntity>::empty(),
    {
        let r = Self { cells: Vec::new() };
        proof {
            assert forall|c: GridPos| r.spec_entities_at(c) == Seq::<SpatialEntity>::empty() by {
                assert(!r.has_cell(c));
            }
        }
        r
    }

    proof fn lemma_idx(self, c: GridPos, i: int)
        requires
            self.wf(),
            0 <= i < self.cells@.len(),
            self.cells@[i].pos == c,
        ensures
            self.has_cell(c),
            self.idx_of(c) == i,
            self.spec_entities_at(c) == self.cells@[i].occupants@,
    {
        assert(self.has_cell(c));
        let j = self.idx_of(c);
        if i < j {
            assert(self.cells@[i].pos != self.cells@[j].pos);
        } else if j < i {
            assert(self.cells@[j].pos != self.cells@[i].pos);
        }
    }

    /// The index of the entry for cell `c` in the backing vector, if any.
    fn find_cell(&self, c: GridPos) -> (r: Option<usize>)
        requires
            self.wf(),
        ensures
            match r {
                Some(i) => {
                    &&& i < self.cells@.len()
                    &&& self.cells@[i as int].pos == c
                    &&& self.has_cell(c)
                    &&& self.idx_of(c) == i
                    &&& self.spec_entities_at(c) == self.cells@[i as int].occupants@
                },
                None => !self.has_cell(c),
            },
    {
        let n = self.cells.len();
        let mut i: usize = 0;
        while i < n
            invariant
                n == self.cells@.len(),
                i <= n,
                self.wf(),
                forall|k: int| 0 <= k < i ==> self.cells@[k].pos != c,
            decreases n - i,
        {
            if self.cells[i].pos == c {
                proof {
                    self.lemma_idx(c, i as int);
                }
                return Some(i);
            }
            i += 1;
        }
        None
    }

    /// Whether the grid has an entry for cell `c`.
    pub fn contains_cell(&self, c: &GridPos) -> (r: bool)
        requires
            self.wf(),
        ensures
            r == self.has_cell(*c),
    {
        match self.find_cell(*c) {
            Some(_) => true,
            None => false,
        }
    }

    /// Looks up the record with identifier `entity` at cell `pos`.
    pub fn get(&self, entity: &u64, pos: GridPos) -> (r: Option<SpatialEntity>)
        requires
            self.wf(),
        ensures
            match r {
                Some(rec) => {
                    &&& contains_id(self.spec_entities_at(pos), *entity)
                    &&& rec == self.spec_entities_at(pos)[index_of_id(
                        self.spec_entities_at(pos),
                        *entity,
                    )]
                    &&& rec.entity == entity
                },
                None => !contains_id(self.spec_entities_at(pos), *entity),
            },
    {
        let idx = match self.find_cell(pos) {
            Some(i) => i,
            None => {
                return None;
            },
        };
        let occupants = &self.cells[idx].occupants;
        let m = occupants.len();
        let mut j: usize = 0;
        while j < m
            invariant
                m == occupants@.len(),
                j <= m,
                occupants@ == self.spec_entities_at(pos),
                cell_wf(occupants@),
                forall|k: int| 0 <= k < j ==> occupants@[k].entity != entity,
            decreases m - j,
        {
            if occupants[j].entity == *entity {
                proof {
                    lemma_index_of_id(occupants@, *entity, j as int);
                }
                return Some(occupants[j]);
            }
            j += 1;
        }
        None
    }

    /// Whether `pos` can be traversed: the cell exists and every occupant in
    /// it is walkable.
    pub fn is_walkable(&self, pos: &GridPos) -> (r: bool)
        requires
            self.wf(),
        ensures
            r == self.spec_is_walkable(*pos),
    {
        let idx = match self.find_cell(*pos) {
            Some(i) => i,
            None => {
                return false;
            },
        };
        let occupants = &self.cells[idx].occupants;
        let m = occupants.len();
        let mut j: usize = 0;
        while j < m
            invariant
                m == occupants@.len(),
                j <= m,
                occupants@ == self.spec_entities_at(*pos),
                self.has_cell(*pos),
                forall|k: int| 0 <= k < j ==> occupants@[k].walkable,
            decreases m - j,
        {
            if !occupants[j].walkable {
                return false;
            }
            j += 1;
        }
        true
    }

    /// The sum of the occupant cost contributions at `pos`; zero if the cell
    /// is empty or absent.
    pub fn walk_cost_at(&self, pos: &GridPos) -> (r: i32)
        requires
            self.wf(),
        ensures
            r == self.spec_walk_cost(*pos),
            0 <= r,
    {
        let idx = match self.find_cell(*pos) {
            Some(i) => i,
            None => {
                return 0;
            },
        };
        let occupants = &self.cells[idx].occupants;
        let m = occupants.len();
        let mut j: usize = 0;
        let mut total: i32 = 0;
        proof {
            lemma_sum_costs_prefix(occupants@, 0);
        }
        while j < m
            invariant
                m == occupants@.len(),
                j <= m,
                occupants@ == self.spec_entities_at(*pos),
                cell_wf(occupants@),
                total == sum_costs(occupants@.take(j as int)),
                0 <= total,
            decreases m - j,
        {
            proof {
                lemma_sum_costs_prefix(occupants@, j + 1);
                assert(occupants@.take(j + 1).drop_last() =~= occupants@.take(j as int));
                assert(sum_costs(occupants@.take(j + 1)) == total + occupants@[j as int].move_cost);
                lemma_sum_costs_nonneg(occupants@.take(j + 1));
            }
            total = total + occupants[j].move_cost;
            j += 1;
        }
        proof {
            assert(occupants@.take(m as int) =~= occupants@);
        }
        total
    }
}

impl SpatialGrid {
    /// Frame lemma: replacing the occupants of the entry at index `j` (for
    /// cell `c`) touches no other cell.
    proof fn lemma_frame_update(self, other: Self, j: int, c: GridPos)
        requires
            self.wf(),
            0 <= j < self.cells@.len(),
            self.cells@[j].pos == c,
            other.cells@.len() == self.cells@.len(),
            other.cells@[j].pos == c,
            forall|k: int| 0 <= k < self.cells@.len() && k != j ==> other.cells@[k] == self.cells@[k],
            cell_wf(other.cells@[j].occupants@),
        ensures
            other.wf(),
            other.has_cell(c),
            other.spec_entities_at(c) == other.cells@[j].occupants@,
            forall|d: GridPos| d != c ==> other.has_cell(d) == self.has_cell(d),
            forall|d: GridPos| d != c ==> other.spec_entities_at(d) == self.spec_entities_at(d),
    {
        assert(forall|k: int| 0 <= k < self.cells@.len() ==> other.cells@[k].pos == self.cells@[k].pos);
        assert(other.wf());
        other.lemma_idx(c, j);
        assert forall|d: GridPos| d != c implies other.has_cell(d) == self.has_cell(d)
            && other.spec_entities_at(d) == self.spec_entities_at(d) by {
            if self.has_cell(d) {
                let k = self.idx_of(d);
                self.lemma_idx(d, k);
                assert(k != j);
                other.lemma_idx(d, k);
            } else if other.has_cell(d) {
                let k = other.idx_of(d);
                other.lemma_idx(d, k);
                assert(k != j);
                assert(self.cells@[k].pos == d);
            }
        }
    }

    /// Frame lemma: appending a fresh entry for a cell that had none touches
    /// no other cell.
    proof fn lemma_frame_push(self, other: Self, c: GridPos)
        requires
            self.wf(),
            !self.has_cell(c),
            other.cells@.len() == self.cells@.len() + 1,
            other.cells@[self.cells@.len() as int].pos == c,
            forall|k: int| 0 <= k < self.cells@.len() ==> other.cells@[k] == self.cells@[k],
            cell_wf(other.cells@[self.cells@.len() as int].occupants@),
        ensures
            other.wf(),
            other.has_cell(c),
            other.spec_entities_at(c) == other.cells@[self.cells@.len() as int].occupants@,
            forall|d: GridPos| d != c ==> other.has_cell(d) == self.has_cell(d),
            forall|d: GridPos| d != c ==> other.spec_entities_at(d) == self.spec_entities_at(d),
    {
        let n = self.cells@.len() as int;
        assert forall|i: int, j: int| 0 <= i < j < other.cells@.len() implies
            other.cells@[i].pos != other.cells@[j].pos by {
            if j < n {
                assert(self.cells@[i].pos != self.cells@[j].pos);
            } else {
                assert(other.cells@[j].pos == c);
                assert(self.cells@[i].pos != c) by {
                    if self.cells@[i].pos == c {
                        assert(self.has_cell(c));
                    }
                }
            }
        }
        assert(other.wf());
        other.lemma_idx(c, n);
        assert forall|d: GridPos| d != c implies other.has_cell(d) == self.has_cell(d)
            && other.spec_entities_at(d) == self.spec_entities_at(d) by {
            if self.has_cell(d) {
                let k = self.idx_of(d);
                self.lemma_idx(d, k);
                other.lemma_idx(d, k);
            } else if other.has_cell(d) {
                let k = other.idx_of(d);
                other.lemma_idx(d, k);
                assert(k != n);
                assert(self.cells@[k].pos == d);
            }
        }
    }

    /// Appends one occupant record to the entry for cell `c`, creating the
    /// entry when absent.
    fn push_at(&mut self, c: GridPos, rec: SpatialEntity)
        requires
            old(self).wf(),
            !contains_id(old(self).spec_entities_at(c), rec.entity),
            0 <= rec.move_cost,
            rec_fits(rec),
            sum_costs(old(self).spec_entities_at(c)) + rec.move_cost <= i32::MAX,
        ensures
            final(self).wf(),
            final(self).has_cell(c),
            final(self).spec_entities_at(c) == old(self).spec_entities_at(c).push(rec),
            forall|d: GridPos| d != c ==> final(self).has_cell(d) == old(self).has_cell(d),
            forall|d: GridPos| d != c
                ==> final(self).spec_entities_at(d) == old(self).spec_entities_at(d),
    {
        proof {
            lemma_cell_wf_push(old(self).spec_entities_at(c), rec);
        }
        match self.find_cell(c) {
            Some(i) => {
                let mut occupants = clone_entities(&self.cells[i].occupants);
                occupants.push(rec);
                self.cells.set(i, Cell { pos: c, occupants });
                proof {
                    old(self).lemma_frame_update(*self, i as int, c);
                }
            },
            None => {
                let mut occupants: Vec<SpatialEntity> = Vec::new();
                occupants.push(rec);
                self.cells.push(Cell { pos: c, occupants });
                proof {
                    assert(old(self).spec_entities_at(c).push(rec) =~= self.cells@.last().occupants@);
                    old(self).lemma_frame_push(*self, c);
                }
            },
        }
    }

    /// Removes the occupant with the given identifier from the entry for
    /// cell `c`, if both exist.
    fn remove_id_at(&mut self, c: GridPos, id: u64)
        requires
            old(self).wf(),
        ensures
            final(self).wf(),
            final(self).has_cell(c) == old(self).has_cell(c),
            final(self).spec_entities_at(c) == remove_id(old(self).spec_entities_at(c), id),
            forall|d: GridPos| d != c ==> final(self).has_cell(d) == old(self).has_cell(d),
            forall|d: GridPos| d != c
                ==> final(self).spec_entities_at(d) == old(self).spec_entities_at(d),
    {
        let i = match self.find_cell(c) {
            Some(i) => i,
            None => {
                return;
            },
        };
        let j = match find_id_in(&self.cells[i].occupants, id) {
            Some(j) => j,
            None => {
                return;
            },
        };
        let ghost s = self.cells@[i as int].occupants@;
        proof {
            lemma_index_of_id(s, id, j as int);
            lemma_cell_wf_remove(s, j as int);
        }
        let mut cloned = clone_entities(&self.cells[i].occupants);
        cloned.remove(j);
        self.cells.set(i, Cell { pos: c, occupants: cloned });
        proof {
            old(self).lemma_frame_update(*self, i as int, c);
        }
    }
}

/// The movement cost an occupant is registered with: the given contribution,
/// or zero.
pub open spec fn cost_or_zero(move_cost: Option<i32>) -> i32 {
    match move_cost {
        Some(c) => c,
        None => 0,
    }
}

/// The footprint an occupant is registered with: the given size, or one
/// single cell.
pub open spec fn size_or_single(size: Option<(u8, u8)>) -> (u8, u8) {
    match size {
        Some(s) => s,
        None => (1, 1),
    }
}

impl SpatialGrid {
    /// Registers an occupant across every cell of its footprint, creating
    /// missing cell entries, and returns the created record.
    ///
    /// The caller must not register an identifier that is already present in
    /// a footprint cell without removing it first.
    pub fn create_spatial_entity(
        &mut self,
        entity: u64,
        position: GridPos,
        walkable: bool,
        move_cost: Option<i32>,
        size: Option<(u8, u8)>,
    ) -> (rec: SpatialEntity)
        requires
            old(self).wf(),
            0 <= cost_or_zero(move_cost),
            position.x + size_or_single(size).0 <= i32::MAX,
            position.y + size_or_single(size).1 <= i32::MAX,
            forall|c: GridPos|
                in_footprint(position, size_or_single(size), c) ==> !contains_id(
                    old(self).spec_entities_at(c),
                    entity,
                ),
            forall|c: GridPos|
                in_footprint(position, size_or_single(size), c) ==> sum_costs(
                    old(self).spec_entities_at(c),
                ) + cost_or_zero(move_cost) <= i32::MAX,
        ensures
            final(self).wf(),
            rec == (SpatialEntity {
                entity,
                position,
                previous_position: position,
                move_cost: cost_or_zero(move_cost),
                walkable,
                size: size_or_single(size),
            }),
            forall|c: GridPos| in_footprint(position, rec.size, c) ==> final(self).has_cell(c),
            forall|c: GridPos|
                in_footprint(position, rec.size, c) ==> final(self).spec_entities_at(c) == old(
                    self,
                ).spec_entities_at(c).push(rec),
            forall|c: GridPos|
                !in_footprint(position, rec.size, c) ==> final(self).has_cell(c) == old(
                    self,
                ).has_cell(c),
            forall|c: GridPos|
                !in_footprint(position, rec.size, c) ==> final(self).spec_entities_at(c) == old(
                    self,
                ).spec_entities_at(c),
    {
        let (w, h) = match size {
            Some(s) => s,
            None => (1, 1),
        };
        let mc = match move_cost {
            Some(c) => c,
            None => 0,
        };
        let rec = SpatialEntity {
            entity,
            position,
            previous_position: position,
            move_cost: mc,
            walkable,
            size: (w, h),
        };
        let ghost g0 = *self;
        let mut dx: u8 = 0;
        while dx < w
            invariant
                self.wf(),
                g0 == *old(self),
                dx <= w,
                rec == (SpatialEntity {
                    entity,
                    position,
                    previous_position: position,
                    move_cost: mc,
                    walkable,
                    size: (w, h),
                }),
                0 <= mc,
                position.x + w <= i32::MAX,
                position.y + h <= i32::MAX,
                forall|c: GridPos|
                    in_footprint(position, (w, h), c) ==> !contains_id(
                        g0.spec_entities_at(c),
                        entity,
                    ),
                forall|c: GridPos|
                    in_footprint(position, (w, h), c) ==> sum_costs(g0.spec_entities_at(c)) + mc
                        <= i32::MAX,
                forall|c: GridPos|
                    in_footprint(position, (w, h), c) && c.x < position.x + dx ==> (
                    self.has_cell(c) && self.spec_entities_at(c) == g0.spec_entities_at(c).push(
                        rec,
                    )),
                forall|c: GridPos|
                    in_footprint(position, (w, h), c) && c.x >= position.x + dx ==> (
                    self.has_cell(c) == g0.has_cell(c) && self.spec_entities_at(c)
                        == g0.spec_entities_at(c)),
                forall|c: GridPos|
                    !in_footprint(position, (w, h), c) ==> (self.has_cell(c) == g0.has_cell(c)
                        && self.spec_entities_at(c) == g0.spec_entities_at(c)),
            decreases w - dx,
        {
            let x = position.x + dx as i32;
            let mut dy: u8 = 0;
            while dy < h
                invariant
                    self.wf(),
                    dx < w,
                    dy <= h,
                    x == position.x + dx,
                    rec == (SpatialEntity {
                        entity,
                        position,
                        previous_position: position,
                        move_cost: mc,
                        walkable,
                        size: (w, h),
                    }),
                    0 <= mc,
                    position.x + w <= i32::MAX,
                    position.y + h <= i32::MAX,
                    forall|c: GridPos|
                        in_footprint(position, (w, h), c) ==> !contains_id(
                            g0.spec_entities_at(c),
                            entity,
                        ),
                    forall|c: GridPos|
                        in_footprint(position, (w, h), c) ==> sum_costs(g0.spec_entities_at(c))
                            + mc <= i32::MAX,
                    forall|c: GridPos|
                        in_footprint(position, (w, h), c) && (c.x < position.x + dx || (c.x
                            == position.x + dx && c.y < position.y + dy)) ==> (self.has_cell(c)
                            && self.spec_entities_at(c) == g0.spec_entities_at(c).push(rec)),
                    forall|c: GridPos|
                        in_footprint(position, (w, h), c) && (c.x > position.x + dx || (c.x
                            == position.x + dx && c.y >= position.y + dy)) ==> (self.has_cell(c)
                            == g0.has_cell(c) && self.spec_entities_at(c) == g0.spec_entities_at(
                            c,
                        )),
                    forall|c: GridPos|
                        !in_footprint(position, (w, h), c) ==> (self.has_cell(c) == g0.has_cell(c)
                            && self.spec_entities_at(c) == g0.spec_entities_at(c)),
                decreases h - dy,
            {
                let y = position.y + dy as i32;
                proof {
                    let c = GridPos { x, y };
                    assert(in_footprint(position, (w, h), c));
                    assert(self.spec_entities_at(c) == g0.spec_entities_at(c));
                    assert(sum_costs(g0.spec_entities_at(c)) + mc <= i32::MAX);
                }
                self.push_at(GridPos { x, y }, rec);
                dy += 1;
            }
            dx += 1;
        }
        rec
    }

    /// Removes the occupant with identifier `entity`, found at cell `pos`,
    /// from every cell of its footprint; returns whether it was present at
    /// `pos`.
    pub fn remove(&mut self, entity: &u64, pos: &GridPos) -> (r: bool)
        requires
            old(self).wf(),
        ensures
            final(self).wf(),
            r == contains_id(old(self).spec_entities_at(*pos), *entity),
            !r ==> *final(self) == *old(self),
            r ==> {
                let rec = old(self).spec_entities_at(*pos)[index_of_id(
                    old(self).spec_entities_at(*pos),
                    *entity,
                )];
                &&& forall|c: GridPos|
                    in_footprint(rec.position, rec.size, c) ==> final(self).spec_entities_at(c)
                        == remove_id(old(self).spec_entities_at(c), *entity)
                &&& forall|c: GridPos|
                    !in_footprint(rec.position, rec.size, c) ==> final(self).spec_entities_at(c)
                        == old(self).spec_entities_at(c)
                &&& forall|c: GridPos| final(self).has_cell(c) == old(self).has_cell(c)
            },
    {
        let rec = match self.get(entity, *pos) {
            Some(rec) => rec,
            None => {
                return false;
            },
        };
        let ghost g0 = *self;
        let ghost fpos = rec.position;
        let ghost fsize = rec.size;
        proof {
            assert(rec_fits(rec)) by {
                let s = g0.spec_entities_at(*pos);
                assert(g0.has_cell(*pos));
                let i = g0.idx_of(*pos);
                g0.lemma_idx(*pos, i);
                assert(cell_wf(s));
                assert(s[index_of_id(s, *entity)] == rec);
            }
        }
        let (w, h) = rec.size;
        let position = rec.position;
        let mut dx: u8 = 0;
        while dx < w
            invariant
                self.wf(),
                g0 == *old(self),
                dx <= w,
                position == fpos,
                (w, h) == fsize,
                position.x + w <= i32::MAX,
                position.y + h <= i32::MAX,
                forall|c: GridPos|
                    in_footprint(position, (w, h), c) && c.x < position.x + dx
                        ==> self.spec_entities_at(c) == remove_id(g0.spec_entities_at(c), *entity),
                forall|c: GridPos|
                    in_footprint(position, (w, h), c) && c.x >= position.x + dx
                        ==> self.spec_entities_at(c) == g0.spec_entities_at(c),
                forall|c: GridPos|
                    !in_footprint(position, (w, h), c) ==> self.spec_entities_at(c)
                        == g0.spec_entities_at(c),
                forall|c: GridPos| self.has_cell(c) == g0.has_cell(c),
            decreases w - dx,
        {
            let x = position.x + dx as i32;
            let mut dy: u8 = 0;
            while dy < h
                invariant
                    self.wf(),
                    dx < w,
                    dy <= h,
                    x == position.x + dx,
                    position == fpos,
                    (w, h) == fsize,
                    position.x + w <= i32::MAX,
                    position.y + h <= i32::MAX,
                    forall|c: GridPos|
                        in_footprint(position, (w, h), c) && (c.x < position.x + dx || (c.x
                            == position.x + dx && c.y < position.y + dy))
                            ==> self.spec_entities_at(c) == remove_id(
                            g0.spec_entities_at(c),
                            *entity,
                        ),
                    forall|c: GridPos|
                        in_footprint(position, (w, h), c) && (c.x > position.x + dx || (c.x
                            == position.x + dx && c.y >= position.y + dy))
                            ==> self.spec_entities_at(c) == g0.spec_entities_at(c),
                    forall|c: GridPos|
                        !in_footprint(position, (w, h), c) ==> self.spec_entities_at(c)
                            == g0.spec_entities_at(c),
                    forall|c: GridPos| self.has_cell(c) == g0.has_cell(c),
                decreases h - dy,
            {
                let y = position.y + dy as i32;
                self.remove_id_at(GridPos { x, y }, *entity);
                dy += 1;
            }
            dx += 1;
        }
        true
    }
}

/// The occupant sequence of one cell after an occupant has moved: its old
/// record leaves every cell of the old footprint and the moved record enters
/// every cell of the new footprint.
pub open spec fn moved_cell(
    s: Seq<SpatialEntity>,
    id: u64,
    in_old: bool,
    in_new: bool,
    rec: SpatialEntity,
) -> Seq<SpatialEntity> {
    let t = if in_old {
        remove_id(s, id)
    } else {
        s
    };
    if in_new {
        t.push(rec)
    } else {
        t
    }
}

impl SpatialGrid {
    /// Moves an occupant to the cell `new_pos`: a no-op when the cell equals
    /// the record's cached position; otherwise the occupant leaves every old
    /// footprint cell, and a record with the old cell as `previous_position`
    /// enters every new footprint cell. Returns the (possibly moved) record.
    ///
    /// The identifier must occur only inside the record's own footprint.
    pub fn update(&mut self, ent: SpatialEntity, new_pos: GridPos) -> (rec: SpatialEntity)
        requires
            old(self).wf(),
            0 <= ent.move_cost,
            ent.position.x + ent.size.0 <= i32::MAX,
            ent.position.y + ent.size.1 <= i32::MAX,
            new_pos.x + ent.size.0 <= i32::MAX,
            new_pos.y + ent.size.1 <= i32::MAX,
            forall|c: GridPos|
                contains_id(old(self).spec_entities_at(c), ent.entity) ==> in_footprint(
                    ent.position,
                    ent.size,
                    c,
                ),
            forall|c: GridPos|
                in_footprint(new_pos, ent.size, c) ==> sum_costs(
                    remove_id(old(self).spec_entities_at(c), ent.entity),
                ) + ent.move_cost <= i32::MAX,
        ensures
            final(self).wf(),
            new_pos == ent.position ==> *final(self) == *old(self) && rec == ent,
            new_pos != ent.position ==> {
                &&& rec == (SpatialEntity {
                    position: new_pos,
                    previous_position: ent.position,
                    ..ent
                })
                &&& forall|c: GridPos|
                    final(self).spec_entities_at(c) == moved_cell(
                        old(self).spec_entities_at(c),
                        ent.entity,
                        in_footprint(ent.position, ent.size, c),
                        in_footprint(new_pos, ent.size, c),
                        rec,
                    )
                &&& forall|c: GridPos|
                    in_footprint(new_pos, ent.size, c) ==> final(self).has_cell(c)
                &&& forall|c: GridPos|
                    !in_footprint(new_pos, ent.size, c) ==> final(self).has_cell(c) == old(
                        self,
                    ).has_cell(c)
            },
    {
        if new_pos.x == ent.position.x && new_pos.y == ent.position.y {
            return ent;
        }
        let (w, h) = ent.size;
        let ghost g0 = *old(self);
        let old_anchor = ent.position;
        let mut dx: u8 = 0;
        while dx < w
            invariant
                self.wf(),
                g0 == *old(self),
                dx <= w,
                old_anchor == ent.position,
                (w, h) == ent.size,
                old_anchor.x + w <= i32::MAX,
                old_anchor.y + h <= i32::MAX,
                forall|c: GridPos|
                    in_footprint(old_anchor, (w, h), c) && c.x < old_anchor.x + dx
                        ==> self.spec_entities_at(c) == remove_id(
                        g0.spec_entities_at(c),
                        ent.entity,
                    ),
                forall|c: GridPos|
                    in_footprint(old_anchor, (w, h), c) && c.x >= old_anchor.x + dx
                        ==> self.spec_entities_at(c) == g0.spec_entities_at(c),
                forall|c: GridPos|
                    !in_footprint(old_anchor, (w, h), c) ==> self.spec_entities_at(c)
                        == g0.spec_entities_at(c),
                forall|c: GridPos| self.has_cell(c) == g0.has_cell(c),
            decreases w - dx,
        {
            let x = old_anchor.x + dx as i32;
            let mut dy: u8 = 0;
            while dy < h
                invariant
                    self.wf(),
                    dx < w,
                    dy <= h,
                    x == old_anchor.x + dx,
                    old_anchor == ent.position,
                    (w, h) == ent.size,
                    old_anchor.x + w <= i32::MAX,
                    old_anchor.y + h <= i32::MAX,
                    forall|c: GridPos|
                        in_footprint(old_anchor, (w, h), c) && (c.x < old_anchor.x + dx || (c.x
                            == old_anchor.x + dx && c.y < old_anchor.y + dy))
                            ==> self.spec_entities_at(c) == remove_id(
                            g0.spec_entities_at(c),
                            ent.entity,
                        ),
                    forall|c: GridPos|
                        in_footprint(old_anchor, (w, h), c) && (c.x > old_anchor.x + dx || (c.x
                            == old_anchor.x + dx && c.y >= old_anchor.y + dy))
                            ==> self.spec_entities_at(c) == g0.spec_entities_at(c),
                    forall|c: GridPos|
                        !in_footprint(old_anchor, (w, h), c) ==> self.spec_entities_at(c)
                            == g0.spec_entities_at(c),
                    forall|c: GridPos| self.has_cell(c) == g0.has_cell(c),
                decreases h - dy,
            {
                let y = old_anchor.y + dy as i32;
                self.remove_id_at(GridPos { x, y }, ent.entity);
                dy += 1;
            }
            dx += 1;
        }
        let rec = SpatialEntity { position: new_pos, previous_position: ent.position, ..ent };
        let ghost g1 = *self;
        proof {
            assert forall|c: GridPos| !contains_id(g1.spec_entities_at(c), ent.entity) by {
                if in_footprint(old_anchor, (w, h), c) {
                    let s = g0.spec_entities_at(c);
                    if g0.has_cell(c) {
                        let i = g0.idx_of(c);
                        g0.lemma_idx(c, i);
                        lemma_remove_id_gone(s, ent.entity);
                    } else {
                        assert(s =~= Seq::<SpatialEntity>::empty());
                        lemma_remove_id_gone(s, ent.entity);
                    }
                }
            }
        }
        let mut dx: u8 = 0;
        while dx < w
            invariant
                self.wf(),
                dx <= w,
                rec == (SpatialEntity {
                    position: new_pos,
                    previous_position: ent.position,
                    ..ent
                }),
                0 <= rec.move_cost,
                (w, h) == ent.size,
                new_pos.x + w <= i32::MAX,
                new_pos.y + h <= i32::MAX,
                forall|c: GridPos| !contains_id(g1.spec_entities_at(c), ent.entity),
                forall|c: GridPos|
                    in_footprint(new_pos, (w, h), c) ==> sum_costs(g1.spec_entities_at(c))
                        + ent.move_cost <= i32::MAX,
                forall|c: GridPos|
                    in_footprint(new_pos, (w, h), c) && c.x < new_pos.x + dx ==> (self.has_cell(c)
                        && self.spec_entities_at(c) == g1.spec_entities_at(c).push(rec)),
                forall|c: GridPos|
                    in_footprint(new_pos, (w, h), c) && c.x >= new_pos.x + dx ==> (self.has_cell(
                        c,
                    ) == g1.has_cell(c) && self.spec_entities_at(c) == g1.spec_entities_at(c)),
                forall|c: GridPos|
                    !in_footprint(new_pos, (w, h), c) ==> (self.has_cell(c) == g1.has_cell(c)
                        && self.spec_entities_at(c) == g1.spec_entities_at(c)),
            decreases w - dx,
        {
            let x = new_pos.x + dx as i32;
            let mut dy: u8 = 0;
            while dy < h
                invariant
                    self.wf(),
                    dx < w,
                    dy <= h,
                    x == new_pos.x + dx,
                    rec == (SpatialEntity {
                        position: new_pos,
                        previous_position: ent.position,
                        ..ent
                    }),
                    0 <= rec.move_cost,
                    (w, h) == ent.size,
                    new_pos.x + w <= i32::MAX,
                    new_pos.y + h <= i32::MAX,
                    forall|c: GridPos| !contains_id(g1.spec_entities_at(c), ent.entity),
                    forall|c: GridPos|
                        in_footprint(new_pos, (w, h), c) ==> sum_costs(g1.spec_entities_at(c))
                            + ent.move_cost <= i32::MAX,
                    forall|c: GridPos|
                        in_footprint(new_pos, (w, h), c) && (c.x < new_pos.x + dx || (c.x
                            == new_pos.x + dx && c.y < new_pos.y + dy)) ==> (self.has_cell(c)
                            && self.spec_entities_at(c) == g1.spec_entities_at(c).push(rec)),
                    forall|c: GridPos|
                        in_footprint(new_pos, (w, h), c) && (c.x > new_pos.x + dx || (c.x
                            == new_pos.x + dx && c.y >= new_pos.y + dy)) ==> (self.has_cell(c)
                            == g1.has_cell(c) && self.spec_entities_at(c) == g1.spec_entities_at(
                            c,
                        )),
                    forall|c: GridPos|
                        !in_footprint(new_pos, (w, h), c) ==> (self.has_cell(c) == g1.has_cell(c)
                            && self.spec_entities_at(c) == g1.spec_entities_at(c)),
                decreases h - dy,
            {
                let y = new_pos.y + dy as i32;
                proof {
                    let c = GridPos { x, y };
                    assert(in_footprint(new_pos, (w, h), c));
                    assert(self.spec_entities_at(c) == g1.spec_entities_at(c));
                    assert(sum_costs(g1.spec_entities_at(c)) + ent.move_cost <= i32::MAX);
                    assert(rec.move_cost == ent.move_cost);
                }
                self.push_at(GridPos { x, y }, rec);
                dy += 1;
            }
            dx += 1;
        }
        proof {
            assert forall|c: GridPos|
                self.spec_entities_at(c) == moved_cell(
                    g0.spec_entities_at(c),
                    ent.entity,
                    in_footprint(ent.position, ent.size, c),
                    in_footprint(new_pos, ent.size, c),
                    rec,
                ) by {
                if !in_footprint(ent.position, ent.size, c) {
                    assert(g1.spec_entities_at(c) == g0.spec_entities_at(c));
                    assert(remove_id(g0.spec_entities_at(c), ent.entity) == g0.spec_entities_at(
                        c,
                    )) by {
                        assert(!contains_id(g0.spec_entities_at(c), ent.entity));
                    }
                }
            }
        }
        rec
    }
}

/// The occupant sequence with the walkability flag of the record of the
/// given identifier replaced, if present.
pub open spec fn set_id_walkable(s: Seq<SpatialEntity>, id: u64, walkable: bool) -> Seq<
    SpatialEntity,
> {
    if contains_id(s, id) {
        let i = index_of_id(s, id);
        s.update(i, SpatialEntity { walkable, ..s[i] })
    } else {
        s
    }
}

/// Whether cell `c` lies within the square box of the given radius around
/// `center`.
pub open spec fn in_range(center: GridPos, range: i32, c: GridPos) -> bool {
    &&& center.x - range <= c.x <= center.x + range
    &&& center.y - range <= c.y <= center.y + range
}

/// Whether some cell inside the square box of the given radius around
/// `center` holds exactly the record `e`.
pub open spec fn holds_record_in_range(
    grid: SpatialGrid,
    center: GridPos,
    range: i32,
    e: SpatialEntity,
) -> bool {
    exists|c: GridPos, i: int|
        #![trigger grid.spec_entities_at(c)[i]]
        in_range(center, range, c) && 0 <= i < grid.spec_entities_at(c).len()
            && grid.spec_entities_at(c)[i] == e
}

impl SpatialGrid {
    /// Replaces the walkability flag of the occupant with the given
    /// identifier in the entry for cell `c`, if both exist.
    fn set_walkable_id_at(&mut self, c: GridPos, id: u64, walkable: bool)
        requires
            old(self).wf(),
        ensures
            final(self).wf(),
            final(self).has_cell(c) == old(self).has_cell(c),
            final(self).spec_entities_at(c) == set_id_walkable(
                old(self).spec_entities_at(c),
                id,
                walkable,
            ),
            forall|d: GridPos| d != c ==> final(self).has_cell(d) == old(self).has_cell(d),
            forall|d: GridPos| d != c
                ==> final(self).spec_entities_at(d) == old(self).spec_entities_at(d),
    {
        let i = match self.find_cell(c) {
            Some(i) => i,
            None => {
                return;
            },
        };
        let j = match find_id_in(&self.cells[i].occupants, id) {
            Some(j) => j,
            None => {
                return;
            },
        };
        let ghost s = self.cells@[i as int].occupants@;
        proof {
            lemma_index_of_id(s, id, j as int);
        }
        let prev = self.cells[i].occupants[j];
        let mut cloned = clone_entities(&self.cells[i].occupants);
        cloned.set(j, SpatialEntity { walkable, ..prev });
        proof {
            lemma_cell_wf_set(s, j as int, SpatialEntity { walkable, ..prev });
        }
        self.cells.set(i, Cell { pos: c, occupants: cloned });
        proof {
            old(self).lemma_frame_update(*self, i as int, c);
        }
    }

    /// Replaces the walkability flag of the occupant with identifier
    /// `entity`, found at cell `pos`, across every cell of its footprint;
    /// returns whether it was present at `pos`.
    pub fn set_walkable_at(&mut self, entity: &u64, pos: &GridPos, walkable: bool) -> (r: bool)
        requires
            old(self).wf(),
        ensures
            final(self).wf(),
            r == contains_id(old(self).spec_entities_at(*pos), *entity),
            !r ==> *final(self) == *old(self),
            r ==> {
                let rec = old(self).spec_entities_at(*pos)[index_of_id(
                    old(self).spec_entities_at(*pos),
                    *entity,
                )];
                &&& forall|c: GridPos|
                    in_footprint(rec.position, rec.size, c) ==> final(self).spec_entities_at(c)
                        == set_id_walkable(old(self).spec_entities_at(c), *entity, walkable)
                &&& forall|c: GridPos|
                    !in_footprint(rec.position, rec.size, c) ==> final(self).spec_entities_at(c)
                        == old(self).spec_entities_at(c)
                &&& forall|c: GridPos| final(self).has_cell(c) == old(self).has_cell(c)
            },
    {
        let rec = match self.get(entity, *pos) {
            Some(rec) => rec,
            None => {
                return false;
            },
        };
        let ghost g0 = *self;
        proof {
            assert(rec_fits(rec)) by {
                let s = g0.spec_entities_at(*pos);
                let i = g0.idx_of(*pos);
                g0.lemma_idx(*pos, i);
                assert(cell_wf(s));
                assert(s[index_of_id(s, *entity)] == rec);
            }
        }
        let (w, h) = rec.size;
        let position = rec.position;
        let mut dx: u8 = 0;
        while dx < w
            invariant
                self.wf(),
                g0 == *old(self),
                dx <= w,
                position == rec.position,
                (w, h) == rec.size,
                position.x + w <= i32::MAX,
                position.y + h <= i32::MAX,
                forall|c: GridPos|
                    in_footprint(position, (w, h), c) && c.x < position.x + dx
                        ==> self.spec_entities_at(c) == set_id_walkable(
                        g0.spec_entities_at(c),
                        *entity,
                        walkable,
                    ),
                forall|c: GridPos|
                    in_footprint(position, (w, h), c) && c.x >= position.x + dx
                        ==> self.spec_entities_at(c) == g0.spec_entities_at(c),
                forall|c: GridPos|
                    !in_footprint(position, (w, h), c) ==> self.spec_entities_at(c)
                        == g0.spec_entities_at(c),
                forall|c: GridPos| self.has_cell(c) == g0.has_cell(c),
            decreases w - dx,
        {
            let x = position.x + dx as i32;
            let mut dy: u8 = 0;
            while dy < h
                invariant
                    self.wf(),
                    dx < w,
                    dy <= h,
                    x == position.x + dx,
                    position == rec.position,
                    (w, h) == rec.size,
                    position.x + w <= i32::MAX,
                    position.y + h <= i32::MAX,
                    forall|c: GridPos|
                        in_footprint(position, (w, h), c) && (c.x < position.x + dx || (c.x
                            == position.x + dx && c.y < position.y + dy))
                            ==> self.spec_entities_at(c) == set_id_walkable(
                            g0.spec_entities_at(c),
                            *entity,
                            walkable,
                        ),
                    forall|c: GridPos|
                        in_footprint(position, (w, h), c) && (c.x > position.x + dx || (c.x
                            == position.x + dx && c.y >= position.y + dy))
                            ==> self.spec_entities_at(c) == g0.spec_entities_at(c),
                    forall|c: GridPos|
                        !in_footprint(position, (w, h), c) ==> self.spec_entities_at(c)
                            == g0.spec_entities_at(c),
                    forall|c: GridPos| self.has_cell(c) == g0.has_cell(c),
                decreases h - dy,
            {
                let y = position.y + dy as i32;
                self.set_walkable_id_at(GridPos { x, y }, *entity, walkable);
                dy += 1;
            }
            dx += 1;
        }
        true
    }

    /// The deduplicated occupant records at one cell.
    pub fn get_entities_at(&self, position: &GridPos) -> (r: Vec<SpatialEntity>)
        requires
            self.wf(),
        ensures
            r@ == self.spec_entities_at(*position),
    {
        match self.find_cell(*position) {
            Some(i) => clone_entities(&self.cells[i].occupants),
            None => {
                let r: Vec<SpatialEntity> = Vec::new();
                proof {
                    assert(r@ =~= self.spec_entities_at(*position));
                }
                r
            },
        }
    }

    /// The deduplicated occupant records within the square box of the given
    /// radius: one record per occupant identifier found there, each taken
    /// from a cell inside the box, and every identifier inside the box
    /// represented.
    pub fn get_entities_in_range(&self, position: &GridPos, range: i32) -> (r: Vec<SpatialEntity>)
        requires
            self.wf(),
            0 <= range,
            i32::MIN <= position.x - range,
            position.x + range <= i32::MAX,
            i32::MIN <= position.y - range,
            position.y + range <= i32::MAX,
        ensures
            forall|a: int, b: int| 0 <= a < b < r@.len() ==> r@[a].entity != r@[b].entity,
            forall|k: int|
                0 <= k < r@.len() ==> holds_record_in_range(*self, *position, range, #[trigger] r@[k]),
            forall|c: GridPos, i: int|
                in_range(*position, range, c) && 0 <= i < self.spec_entities_at(c).len()
                    ==> contains_id(r@, self.spec_entities_at(c)[i].entity),
    {
        let lo_x: i64 = position.x as i64 - range as i64;
        let hi_x: i64 = position.x as i64 + range as i64;
        let lo_y: i64 = position.y as i64 - range as i64;
        let hi_y: i64 = position.y as i64 + range as i64;
        let mut r: Vec<SpatialEntity> = Vec::new();
        let mut xi: i64 = lo_x;
        while xi <= hi_x
            invariant
                self.wf(),
                lo_x == position.x - range,
                hi_x == position.x + range,
                lo_y == position.y - range,
                hi_y == position.y + range,
                i32::MIN <= lo_x,
                hi_x <= i32::MAX,
                i32::MIN <= lo_y,
                hi_y <= i32::MAX,
                lo_x <= xi <= hi_x + 1,
                forall|a: int, b: int| 0 <= a < b < r@.len() ==> r@[a].entity != r@[b].entity,
                forall|k: int|
                    0 <= k < r@.len() ==> holds_record_in_range(*self, *position, range, #[trigger] r@[k]),
                forall|c: GridPos, i: int|
                    in_range(*position, range, c) && c.x < xi && 0 <= i < self.spec_entities_at(
                        c,
                    ).len() ==> contains_id(r@, self.spec_entities_at(c)[i].entity),
            decreases hi_x + 1 - xi,
        {
            let mut yi: i64 = lo_y;
            while yi <= hi_y
                invariant
                    self.wf(),
                    lo_x == position.x - range,
                    hi_x == position.x + range,
                    lo_y == position.y - range,
                    hi_y == position.y + range,
                    i32::MIN <= lo_x,
                    hi_x <= i32::MAX,
                    i32::MIN <= lo_y,
                    hi_y <= i32::MAX,
                    lo_x <= xi <= hi_x,
                    lo_y <= yi <= hi_y + 1,
                    forall|a: int, b: int| 0 <= a < b < r@.len() ==> r@[a].entity != r@[b].entity,
                    forall|k: int|
                        0 <= k < r@.len() ==> holds_record_in_range(*self, *position, range, #[trigger] r@[k]),
                    forall|c: GridPos, i: int|
                        in_range(*position, range, c) && (c.x < xi || (c.x == xi && c.y < yi)) && 0
                            <= i < self.spec_entities_at(c).len() ==> contains_id(
                            r@,
                            self.spec_entities_at(c)[i].entity,
                        ),
                decreases hi_y + 1 - yi,
            {
                let cpos = GridPos { x: xi as i32, y: yi as i32 };
                let occupants = self.get_entities_at(&cpos);
                let m = occupants.len();
                let mut j: usize = 0;
                while j < m
                    invariant
                        self.wf(),
                        m == occupants@.len(),
                        j <= m,
                        occupants@ == self.spec_entities_at(cpos),
                        in_range(*position, range, cpos),
                        lo_x == position.x - range,
                        hi_x == position.x + range,
                        lo_y == position.y - range,
                        hi_y == position.y + range,
                        lo_x <= xi <= hi_x,
                        lo_y <= yi <= hi_y,
                        cpos == (GridPos { x: xi as i32, y: yi as i32 }),
                        forall|a: int, b: int|
                            0 <= a < b < r@.len() ==> r@[a].entity != r@[b].entity,
                        forall|k: int|
                            0 <= k < r@.len() ==> holds_record_in_range(*self, *position, range, #[trigger] r@[k]),
                        forall|c: GridPos, i: int|
                            in_range(*position, range, c) && (c.x < xi || (c.x == xi && c.y < yi))
                                && 0 <= i < self.spec_entities_at(c).len() ==> contains_id(
                                r@,
                                self.spec_entities_at(c)[i].entity,
                            ),
                        forall|i: int|
                            0 <= i < j ==> contains_id(r@, self.spec_entities_at(cpos)[i].entity),
                    decreases m - j,
                {
                    let e = occupants[j];
                    let ghost r0 = r@;
                    if !vec_contains_id(&r, e.entity) {
                        r.push(e);
                        proof {
                            let rr = r@;
                            assert(rr.last() == e);
                            assert forall|a: int, b: int|
                                0 <= a < b < rr.len() implies rr[a].entity != rr[b].entity by {
                                if b == rr.len() - 1 {
                                    assert(rr[a] == r0[a]);
                                    if rr[a].entity == e.entity {
                                        assert(contains_id(r0, e.entity));
                                    }
                                }
                            }
                            assert forall|k: int|
                                0 <= k < rr.len() implies holds_record_in_range(
                                *self,
                                *position,
                                range,
                                #[trigger] rr[k],
                            ) by {
                                if k == rr.len() - 1 {
                                    let jj = j as int;
                                    assert(in_range(*position, range, cpos));
                                    assert(0 <= jj < self.spec_entities_at(cpos).len());
                                    assert(self.spec_entities_at(cpos)[jj] == rr[k]);
                                }
                            }
                            assert forall|c: GridPos, i: int|
                                in_range(*position, range, c) && (c.x < xi || (c.x == xi && c.y
                                    < yi)) && 0 <= i < self.spec_entities_at(c).len()
                                    implies contains_id(
                                rr,
                                self.spec_entities_at(c)[i].entity,
                            ) by {
                                lemma_contains_id_push(r0, e, self.spec_entities_at(c)[i].entity);
                            }
                            assert forall|i: int|
                                0 <= i < j + 1 implies contains_id(
                                rr,
                                self.spec_entities_at(cpos)[i].entity,
                            ) by {
                                if i < j {
                                    lemma_contains_id_push(
                                        r0,
                                        e,
                                        self.spec_entities_at(cpos)[i].entity,
                                    );
                                } else {
                                    assert(rr[rr.len() - 1].entity == e.entity);
                                }
                            }
                        }
                    } else {
                        proof {
                            assert forall|i: int|
                                0 <= i < j + 1 implies contains_id(
                                r@,
                                self.spec_entities_at(cpos)[i].entity,
                            ) by {
                                if i == j {
                                    assert(contains_id(r@, e.entity));
                                }
                            }
                        }
                    }
                    j += 1;
                }
            yi += 1;
            }
            xi += 1;
        }
        r
    }
}

/// Whether the vector holds a record with the given identifier.
fn vec_contains_id(v: &Vec<SpatialEntity>, id: u64) -> (r: bool)
    ensures
        r == contains_id(v@, id),
{
    match find_id_in(v, id) {
        Some(j) => {
            proof {
                assert(contains_id(v@, id));
            }
            true
        },
        None => false,
    }
}

/// Replacing one record by one with the same cost contribution keeps the
/// cost sum.
proof fn lemma_sum_costs_update_same(s: Seq<SpatialEntity>, i: int, rec: SpatialEntity)
    requires
        0 <= i < s.len(),
        rec.move_cost == s[i].move_cost,
    ensures
        sum_costs(s.update(i, rec)) == sum_costs(s),
    decreases s.len(),
{
    let t = s.update(i, rec);
    if i == s.len() - 1 {
        assert(t.drop_last() =~= s.drop_last());
        assert(t.last() == rec);
    } else {
        assert(t.drop_last() =~= s.drop_last().update(i, rec));
        lemma_sum_costs_update_same(s.drop_last(), i, rec);
        assert(t.last() == s.last());
    }
}

/// A walkability change of one record keeps identifiers, costs and
/// footprints, and so preserves cell well-formedness.
proof fn lemma_cell_wf_set(s: Seq<SpatialEntity>, i: int, rec: SpatialEntity)
    requires
        cell_wf(s),
        0 <= i < s.len(),
        rec.entity == s[i].entity,
        rec.move_cost == s[i].move_cost,
        rec.position == s[i].position,
        rec.size == s[i].size,
    ensures
        cell_wf(s.update(i, rec)),
{
    let t = s.update(i, rec);
    lemma_sum_costs_update_same(s, i, rec);
    assert(forall|k: int| 0 <= k < t.len() ==> t[k].entity == s[k].entity);
    assert(rec_fits(rec)) by {
        assert(rec_fits(s[i]));
    }
}

impl Default for SpatialGrid {
    fn default() -> (r: Self)
        ensures
            r.wf(),
            forall|c: GridPos| !r.has_cell(c),
            forall|c: GridPos| r.spec_entities_at(c) == Seq::<SpatialEntity>::empty(),
    {
        Self::new()
    }
}

/// Registering an occupant in a cell and then removing the same
/// identifier restores the cell's occupant sequence, so in particular the
/// identifier is no longer contained. `lemma_insert_then_remove_restores`
/// lifts this to whole grids across every footprint cell.
pub proof fn lemma_insert_remove_round_trip(s: Seq<SpatialEntity>, rec: SpatialEntity)
    requires
        forall|a: int, b: int| 0 <= a < b < s.len() ==> s[a].entity != s[b].entity,
        !contains_id(s, rec.entity),
    ensures
        remove_id(s.push(rec), rec.entity) == s,
        !contains_id(remove_id(s.push(rec), rec.entity), rec.entity),
{
    let t = s.push(rec);
    assert(t[s.len() as int].entity == rec.entity);
    lemma_index_of_id_unique(t, rec.entity, s.len() as int);
    assert(t.remove(s.len() as int) =~= s);
}

/// `index_of_id` picks the only index holding the identifier when the
/// identifier occurs exactly once.
proof fn lemma_index_of_id_unique(s: Seq<SpatialEntity>, id: u64, i: int)
    requires
        0 <= i < s.len(),
        s[i].entity == id,
        forall|k: int| 0 <= k < s.len() && k != i ==> s[k].entity != id,
    ensures
        contains_id(s, id),
        index_of_id(s, id) == i,
{
    assert(contains_id(s, id));
}

/// Lifting the round trip to whole grid states: when `mid` is `before`
/// with a fresh record registered across its footprint (the shape
/// `create_spatial_entity` ensures), and `after` is `mid` with that
/// identifier removed again from the record found at its anchor cell (the
/// shape `remove` ensures), then every footprint cell holds exactly what it
/// held before, and the identifier is gone from all of them.
pub proof fn lemma_insert_then_remove_restores(
    before: SpatialGrid,
    mid: SpatialGrid,
    after: SpatialGrid,
    rec: SpatialEntity,
)
    requires
        before.wf(),
        forall|c: GridPos|
            in_footprint(rec.position, rec.size, c) ==> !contains_id(
                before.spec_entities_at(c),
                rec.entity,
            ),
        forall|c: GridPos|
            in_footprint(rec.position, rec.size, c) ==> mid.spec_entities_at(c)
                == before.spec_entities_at(c).push(rec),
        forall|c: GridPos|
            !in_footprint(rec.position, rec.size, c) ==> mid.spec_entities_at(c)
                == before.spec_entities_at(c),
        forall|c: GridPos|
            in_footprint(rec.position, rec.size, c) ==> after.spec_entities_at(c) == remove_id(
                mid.spec_entities_at(c),
                rec.entity,
            ),
        forall|c: GridPos|
            !in_footprint(rec.position, rec.size, c) ==> after.spec_entities_at(c)
                == mid.spec_entities_at(c),
    ensures
        forall|c: GridPos| after.spec_entities_at(c) == before.spec_entities_at(c),
        forall|c: GridPos|
            in_footprint(rec.position, rec.size, c) ==> !contains_id(
                after.spec_entities_at(c),
                rec.entity,
            ),
{
    assert forall|c: GridPos| after.spec_entities_at(c) == before.spec_entities_at(c) by {
        if in_footprint(rec.position, rec.size, c) {
            before.lemma_wf_cell(c);
            lemma_insert_remove_round_trip(before.spec_entities_at(c), rec);
        }
    }
    assert forall|c: GridPos|
        in_footprint(rec.position, rec.size, c) implies !contains_id(
        after.spec_entities_at(c),
        rec.entity,
    ) by {
        before.lemma_wf_cell(c);
        lemma_insert_remove_round_trip(before.spec_entities_at(c), rec);
    }
}

/// An identifier stays contained when another record is appended.
proof fn lemma_contains_id_push(v: Seq<SpatialEntity>, e: SpatialEntity, id: u64)
    requires
        contains_id(v, id),
    ensures
        contains_id(v.push(e), id),
{
    let k = choose|k: int| 0 <= k < v.len() && v[k].entity == id;
    assert(v.push(e)[k].entity == id);
}

/// The index of the record with the given identifier, if present.
fn find_id_in(v: &Vec<SpatialEntity>, id: u64) -> (r: Option<usize>)
    ensures
        match r {
            Some(j) => j < v@.len() && v@[j as int].entity == id,
            None => !contains_id(v@, id),
        },
{
    let n = v.len();
    let mut j: usize = 0;
    while j < n
        invariant
            n == v@.len(),
            j <= n,
            forall|k: int| 0 <= k < j ==> v@[k].entity != id,
        decreases n - j,
    {
        if v[j].entity == id {
            return Some(j);
        }
        j += 1;
    }
    None
}

/// Copies a vector of occupant records.
fn clone_entities(v: &Vec<SpatialEntity>) -> (r: Vec<SpatialEntity>)
    ensures
        r@ == v@,
{
    let mut r: Vec<SpatialEntity> = Vec::new();
    let n = v.len();
    let mut i: usize = 0;
    while i < n
        invariant
            n == v@.len(),
            i <= n,
            r@ == v@.take(i as int),
        decreases n - i,
    {
        r.push(v[i]);
        proof {
            assert(r@ =~= v@.take(i + 1));
        }
        i += 1;
    }
    proof {
        assert(v@.take(n as int) =~= v@);
    }
    r
}

/// Appending a record with a fresh identifier and a non-negative cost that
/// keeps the sum within bounds preserves cell well-formedness.
proof fn lemma_cell_wf_push(s: Seq<SpatialEntity>, rec: SpatialEntity)
    requires
        cell_wf(s),
        !contains_id(s, rec.entity),
        0 <= rec.move_cost,
        rec_fits(rec),
        sum_costs(s) + rec.move_cost <= i32::MAX,
    ensures
        cell_wf(s.push(rec)),
{
    let t = s.push(rec);
    assert(t.drop_last() =~= s);
    assert(sum_costs(t) == sum_costs(s) + rec.move_cost);
    assert forall|i: int, j: int| 0 <= i < j < t.len() implies t[i].entity != t[j].entity by {
        if j < s.len() {
        } else {
            assert(t[j] == rec);
            assert(t[i] == s[i]);
            assert(!(s[i].entity == rec.entity)) by {
                if s[i].entity == rec.entity {
                    assert(contains_id(s, rec.entity));
                }
            }
        }
    }
}

/// Removing one record preserves cell well-formedness, and its cost leaves
/// the sum.
proof fn lemma_cell_wf_remove(s: Seq<SpatialEntity>, i: int)
    requires
        cell_wf(s),
        0 <= i < s.len(),
    ensures
        cell_wf(s.remove(i)),
        sum_costs(s.remove(i)) == sum_costs(s) - s[i].move_cost,
    decreases s.len(),
{
    let t = s.remove(i);
    if i == s.len() - 1 {
        assert(t =~= s.drop_last());
    } else {
        assert(t.drop_last() =~= s.drop_last().remove(i));
        lemma_cell_wf_remove(s.drop_last(), i);
        assert(t.last() == s.last());
    }
    lemma_sum_costs_nonneg(t);
}

impl SpatialGrid {
    /// A cell the grid has no entry for holds no occupants.
    pub proof fn lemma_absent_cell_empty(self, c: GridPos)
        requires
            !self.has_cell(c),
        ensures
            self.spec_entities_at(c) == Seq::<SpatialEntity>::empty(),
    {
    }

    /// Every cell of a well-formed grid has a well-formed occupant sequence.
    pub proof fn lemma_wf_cell(self, c: GridPos)
        requires
            self.wf(),
        ensures
            cell_wf(self.spec_entities_at(c)),
    {
        if self.has_cell(c) {
            let i = self.idx_of(c);
            assert(0 <= i < self.cells@.len() && self.cells@[i].pos == c);
        } else {
            assert(self.spec_entities_at(c) =~= Seq::<SpatialEntity>::empty());
        }
    }
}

/// After removing an identifier from a cell with unique identifiers, the
/// identifier is gone.
pub proof fn lemma_remove_id_gone(s: Seq<SpatialEntity>, id: u64)
    requires
        forall|a: int, b: int| 0 <= a < b < s.len() ==> s[a].entity != s[b].entity,
    ensures
        !contains_id(remove_id(s, id), id),
{
    if contains_id(s, id) {
        let i = index_of_id(s, id);
        let t = s.remove(i);
        assert forall|k: int| 0 <= k < t.len() implies t[k].entity != id by {
            if k < i {
                lemma_index_of_id(s, id, i);
                assert(s[k].entity != s[i].entity);
            } else {
                assert(t[k] == s[k + 1]);
                assert(s[i].entity != s[k + 1].entity);
            }
        }
    }
}

proof fn lemma_index_of_id(s: Seq<SpatialEntity>, id: u64, i: int)
    requires
        forall|a: int, b: int| 0 <= a < b < s.len() ==> s[a].entity != s[b].entity,
        0 <= i < s.len(),
        s[i].entity == id,
    ensures
        contains_id(s, id),
        index_of_id(s, id) == i,
{
    assert(contains_id(s, id));
    let j = index_of_id(s, id);
    if i < j {
        assert(s[i].entity != s[j].entity);
    } else if j < i {
        assert(s[j].entity != s[i].entity);
    }
}

/// Cost sums over a prefix are bounded by the sum over the whole sequence
/// when all contributions are non-negative.
proof fn lemma_sum_costs_prefix(s: Seq<SpatialEntity>, n: int)
    requires
        0 <= n <= s.len(),
        forall|i: int| 0 <= i < s.len() ==> 0 <= s[i].move_cost,
    ensures
        sum_costs(s.take(n)) <= sum_costs(s),
        0 <= sum_costs(s.take(n)),
    decreases s.len(),
{
    lemma_sum_costs_nonneg(s.take(n));
    if n == s.len() {
        assert(s.take(n) =~= s);
    } else if s.len() > 0 {
        assert(s.drop_last().take(n) =~= s.take(n));
        lemma_sum_costs_prefix(s.drop_last(), n);
        lemma_sum_costs_nonneg(s);
    }
}

proof fn lemma_sum_costs_nonneg(s: Seq<SpatialEntity>)
    requires
        forall|i: int| 0 <= i < s.len() ==> 0 <= s[i].move_cost,
    ensures
        0 <= sum_costs(s),
    decreases s.len(),
{
    if s.len() > 0 {
        lemma_sum_costs_nonneg(s.drop_last());
    }
}

} // verus!

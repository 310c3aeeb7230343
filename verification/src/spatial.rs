//! Sparse macro-cell index over the bodies of a dimension.
//!
//! Space is cut into cubic macro cells. A body registers in every cell
//! that its bounds overlap, unless that would be more than
//! `MAX_GRID_CELLS_PER_BODY` cells: such a large body is kept in a separate
//! list that every query scans. The index also keeps each body's exact
//! bounds, of a type `B` that it never reads itself; a query hands them to
//! the caller's intersection test.

use vstd::prelude::*;
use std::collections::HashMap;
use std::collections::HashSet;

verus! {

broadcast use vstd::std_specs::hash::group_hash_axioms;

/// Most cells a body may occupy before it is indexed as a large body.
pub const MAX_GRID_CELLS_PER_BODY: usize = 4096;

/// A macro cell, by its integer coordinates.
#[derive(Clone, Copy, Debug, PartialEq, Eq, Hash, Structural)]
pub struct MacroCell(pub i32, pub i32, pub i32);

/// The box of cells from `min` to `max`, both included.
#[derive(Clone, Copy, Debug, PartialEq, Eq, Structural)]
pub struct CellRange {
    pub min: MacroCell,
    pub max: MacroCell,
}

/// Whether cell `c` lies in range `r`.
pub open spec fn in_range(c: MacroCell, r: CellRange) -> bool {
    &&& r.min.0 <= c.0 <= r.max.0
    &&& r.min.1 <= c.1 <= r.max.1
    &&& r.min.2 <= c.2 <= r.max.2
}

/// Number of cells along one axis.
pub open spec fn span(lo: i32, hi: i32) -> int {
    if hi >= lo { hi - lo + 1 } else { 0 }
}

/// Number of cells in a range.
pub open spec fn range_volume(r: CellRange) -> int {
    span(r.min.0, r.max.0) * span(r.min.1, r.max.1) * span(r.min.2, r.max.2)
}

/// The key under which a cell is stored: its three coordinates, as 32-bit
/// words, side by side in one 128-bit number.
pub open spec fn cell_key(c: MacroCell) -> u128 {
    ((c.0 as u32) as int * 0x1_0000_0000_0000_0000 + (c.1 as u32) as int * 0x1_0000_0000 + (c.2 as u32) as int) as u128
}

proof fn lemma_word_cast_injective(x: i32, y: i32)
    by (bit_vector)
    ensures
        (x as u32) == (y as u32) ==> x == y,
{
}

/// Distinct cells have distinct keys.
pub proof fn lemma_cell_key_injective(a: MacroCell, b: MacroCell)
    ensures
        cell_key(a) == cell_key(b) <==> a == b,
{
    let (a0, a1, a2) = ((a.0 as u32) as int, (a.1 as u32) as int, (a.2 as u32) as int);
    let (b0, b1, b2) = ((b.0 as u32) as int, (b.1 as u32) as int, (b.2 as u32) as int);
    if cell_key(a) == cell_key(b) {
        assert(a0 * 0x1_0000_0000_0000_0000 + a1 * 0x1_0000_0000 + a2 == b0 * 0x1_0000_0000_0000_0000 + b1 * 0x1_0000_0000 + b2);
        assert(a2 == b2 && a1 == b1 && a0 == b0) by (nonlinear_arith)
            requires
                a0 * 0x1_0000_0000_0000_0000 + a1 * 0x1_0000_0000 + a2 == b0 * 0x1_0000_0000_0000_0000 + b1 * 0x1_0000_0000 + b2,
                0 <= a0 < 0x1_0000_0000, 0 <= a1 < 0x1_0000_0000, 0 <= a2 < 0x1_0000_0000,
                0 <= b0 < 0x1_0000_0000, 0 <= b1 < 0x1_0000_0000, 0 <= b2 < 0x1_0000_0000,
        ;
        lemma_word_cast_injective(a.0, b.0);
        lemma_word_cast_injective(a.1, b.1);
        lemma_word_cast_injective(a.2, b.2);
    }
}

/// The storage key of a cell.
pub fn macro_cell_key(c: MacroCell) -> (k: u128)
    ensures
        k == cell_key(c),
{
    let a = c.0 as u32;
    let b = c.1 as u32;
    let d = c.2 as u32;
    (a as u128) * 0x1_0000_0000_0000_0000u128 + (b as u128) * 0x1_0000_0000u128 + (d as u128)
}

/// Adds the members of `ids` other than `except` that are not yet in `seen`
/// to both `seen` and `found`.
fn absorb(ids: &HashSet<usize>, except: usize, seen: &mut HashSet<usize>, found: &mut Vec<usize>)
    requires
        old(seen)@ == old(found)@.to_set(),
        old(found)@.no_duplicates(),
        !old(seen)@.contains(except),
    ensures
        final(seen)@ == old(seen)@.union(ids@.remove(except)),
        final(seen)@ == final(found)@.to_set(),
        final(found)@.no_duplicates(),
        !final(seen)@.contains(except),
{
    let ghost seen0 = seen@;
    let ghost mut done: Set<usize> = Set::empty();
    for id in it: ids.iter()
        invariant
            seen@ == found@.to_set(),
            found@.no_duplicates(),
            !seen@.contains(except),
            seen@ == seen0.union(done.remove(except)),
            forall|x: usize| #[trigger] done.contains(x) <==> exists|j: int| 0 <= j < it.index() && *it.seq()[j] == x,
            it.seq().unref().to_set() == ids@,
            it.index() == it.seq().len() ==> done == ids@,
    {
        let v: usize = *id;
        if v != except && !seen.contains(&v) {
            let ghost f0 = found@;
            seen.insert(v);
            found.push(v);
            proof {
                assert(found@ == f0.push(v));
                assert(found@.to_set() =~= f0.to_set().insert(v)) by {
                    assert forall|x: usize| found@.contains(x) <==> (f0.contains(x) || x == v) by {
                        if found@.contains(x) {
                            let j = choose|j: int| 0 <= j < found@.len() && found@[j] == x;
                            if j < f0.len() { assert(f0[j] == x); }
                        }
                        if f0.contains(x) {
                            let j = choose|j: int| 0 <= j < f0.len() && f0[j] == x;
                            assert(found@[j] == x);
                        }
                        if x == v { assert(found@[f0.len() as int] == v); }
                    }
                }
                assert forall|a: int, b: int| 0 <= a < b < found@.len() implies found@[a] != found@[b] by {
                    if b == f0.len() {
                        assert(f0.contains(found@[a]));
                    }
                }
            }
        }
        let ghost old_done = done;
        proof {
            done = done.insert(v);
        }
        proof {
            assert forall|x: usize| #[trigger] done.contains(x) <==> exists|j: int| 0 <= j < it.index() + 1 && *it.seq()[j] == x by {
                if exists|j: int| 0 <= j < it.index() + 1 && *it.seq()[j] == x {
                    let j = choose|j: int| 0 <= j < it.index() + 1 && *it.seq()[j] == x;
                    if j < it.index() {
                        assert(old_done.contains(x));
                    } else {
                        assert(*it.seq()[j] == v);
                    }
                }
                if old_done.contains(x) {
                    let j = choose|j: int| 0 <= j < it.index() && *it.seq()[j] == x;
                    assert(0 <= j < it.index() + 1);
                }
                if x == v {
                    assert(*it.seq()[it.index()] == v);
                }
            }
            assert(seen@ =~= seen0.union(done.remove(except)));
            assert(it.index() + 1 == it.seq().len() ==> done == ids@) by {
              if it.index() + 1 == it.seq().len() {
                assert forall|x: usize| #[trigger] done.contains(x) <==> ids@.contains(x) by {
                    if ids@.contains(x) {
                        assert(it.seq().unref().to_set().contains(x));
                        assert(it.seq().unref().contains(x));
                        let j = choose|j: int| 0 <= j < it.seq().unref().len() && it.seq().unref()[j] == x;
                        assert(*it.seq()[j] == x);
                    }
                    if done.contains(x) {
                        let j = choose|j: int| 0 <= j < it.index() + 1 && *it.seq()[j] == x;
                        assert(it.seq().unref()[j] == x);
                        assert(it.seq().unref().contains(x));
                    }
                }
                assert(done =~= ids@);
              }
            }
        }
    }
}

/// The sparse index.
pub struct WorldSpatialIndex<B> {
    pub cells: HashMap<u128, HashSet<usize>>,
    pub body_cells: HashMap<usize, Vec<MacroCell>>,
    pub bounds: HashMap<usize, B>,
    pub large_bodies: HashSet<usize>,
}

/// Whether some entry of `cells` has key `k`.
pub open spec fn listed(cells: Seq<MacroCell>, k: u128) -> bool {
    exists|j: int| 0 <= j < cells.len() && cell_key(#[trigger] cells[j]) == k
}

/// The cell sets and the per-body cell lists describe the same occupancy:
/// a body is in a cell's set exactly when the cell is in the body's list,
/// and no cell set is empty.
pub open spec fn consistent(cs: Map<u128, Set<usize>>, lists: Map<usize, Seq<MacroCell>>) -> bool {
    &&& forall|k: u128| #[trigger] cs.contains_key(k) ==> cs[k] != Set::<usize>::empty()
    &&& forall|k: u128, id: usize| #[trigger] cs.contains_key(k) && #[trigger] cs[k].contains(id)
        ==> lists.contains_key(id) && listed(lists[id], k)
    &&& forall|id: usize, j: int| #[trigger] lists.contains_key(id) && 0 <= j < lists[id].len()
        ==> cs.contains_key(cell_key(#[trigger] lists[id][j])) && cs[cell_key(lists[id][j])].contains(id)
}

impl<B> WorldSpatialIndex<B> {
    /// The occupant set of each stored cell key.
    pub open spec fn cell_sets(self) -> Map<u128, Set<usize>> {
        Map::new(|k: u128| self.cells@.contains_key(k), |k: u128| self.cells@[k]@)
    }

    /// The cell list of each body registered in cells.
    pub open spec fn cell_lists(self) -> Map<usize, Seq<MacroCell>> {
        Map::new(|id: usize| self.body_cells@.contains_key(id), |id: usize| self.body_cells@[id]@)
    }

    /// The bodies that occupy cell `c`.
    pub open spec fn occupants(self, c: MacroCell) -> Set<usize> {
        if self.cells@.contains_key(cell_key(c)) {
            self.cells@[cell_key(c)]@
        } else {
            Set::empty()
        }
    }

    /// `self` is `old` with body `id` registered over `range` with bounds
    /// `bounds`: in the cells of the range, or as a large body when the
    /// range has more than `MAX_GRID_CELLS_PER_BODY` cells.
    pub open spec fn is_update_of(self, old: Self, id: usize, range: CellRange, bounds: B) -> bool {
        &&& self.bounds@ == old.bounds@.insert(id, bounds)
        &&& range_volume(range) > MAX_GRID_CELLS_PER_BODY ==> {
            &&& self.large_bodies@ == old.large_bodies@.insert(id)
            &&& forall|c: MacroCell| #[trigger] self.occupants(c) == old.occupants(c).remove(id)
        }
        &&& range_volume(range) <= MAX_GRID_CELLS_PER_BODY ==> {
            &&& self.large_bodies@ == old.large_bodies@.remove(id)
            &&& forall|c: MacroCell| #[trigger] self.occupants(c) == if in_range(c, range) {
                old.occupants(c).insert(id)
            } else {
                old.occupants(c).remove(id)
            }
        }
    }

    /// `self` is `old` with body `id` removed from cells, large bodies and
    /// bounds.
    pub open spec fn is_removal_of(self, old: Self, id: usize) -> bool {
        &&& self.bounds@ == old.bounds@.remove(id)
        &&& self.large_bodies@ == old.large_bodies@.remove(id)
        &&& forall|c: MacroCell| #[trigger] self.occupants(c) == old.occupants(c).remove(id)
    }

    /// The index's internal invariant: occupancy is recorded consistently
    /// both ways, and every body with bounds is registered either in cells
    /// or as a large body, not both.
    pub open spec fn wf(self) -> bool {
        &&& consistent(self.cell_sets(), self.cell_lists())
        &&& forall|id: usize| #[trigger] self.bounds@.contains_key(id)
            <==> (self.body_cells@.contains_key(id) || self.large_bodies@.contains(id))
        &&& forall|id: usize| !(#[trigger] self.body_cells@.contains_key(id) && self.large_bodies@.contains(id))
    }

    /// An empty index.
    pub fn new() -> (index: Self)
        ensures
            index.wf(),
            index.bounds@ == Map::<usize, B>::empty(),
            index.large_bodies@ == Set::<usize>::empty(),
            forall|c: MacroCell| #[trigger] index.occupants(c) == Set::<usize>::empty(),
    {
        let index = WorldSpatialIndex {
            cells: HashMap::new(),
            body_cells: HashMap::new(),
            bounds: HashMap::new(),
            large_bodies: HashSet::new(),
        };
        assert(index.cell_sets() =~= Map::empty());
        assert(index.cell_lists() =~= Map::empty());
        index
    }

    /// Number of cells that hold at least one body.
    pub fn cell_count(&self) -> (n: usize)
        ensures
            n == self.cells@.len(),
    {
        self.cells.len()
    }


    fn add_occupant(&mut self, c: MacroCell, id: usize)
        ensures
            final(self).cell_sets() == old(self).cell_sets().insert(
                cell_key(c),
                (if old(self).cell_sets().contains_key(cell_key(c)) {
                    old(self).cell_sets()[cell_key(c)]
                } else {
                    Set::<usize>::empty()
                }).insert(id),
            ),
            final(self).body_cells@ == old(self).body_cells@,
            final(self).bounds@ == old(self).bounds@,
            final(self).large_bodies@ == old(self).large_bodies@,
            forall|c2: MacroCell| #[trigger] final(self).occupants(c2) == if c2 == c {
                old(self).occupants(c2).insert(id)
            } else {
                old(self).occupants(c2)
            },
    {
        let key = macro_cell_key(c);
        let ghost before = self.cells@;
        let mut ids = match self.cells.remove(&key) {
            Some(ids) => ids,
            None => HashSet::new(),
        };
        ids.insert(id);
        self.cells.insert(key, ids);
        proof {
            assert(self.cells@ == before.insert(key, ids));
            assert(self.cell_sets() =~= old(self).cell_sets().insert(
                cell_key(c),
                (if old(self).cell_sets().contains_key(cell_key(c)) {
                    old(self).cell_sets()[cell_key(c)]
                } else {
                    Set::<usize>::empty()
                }).insert(id),
            ));
            assert forall|c2: MacroCell| #[trigger] self.occupants(c2) == if c2 == c {
                old(self).occupants(c2).insert(id)
            } else {
                old(self).occupants(c2)
            } by {
                lemma_cell_key_injective(c, c2);
                if c2 == c {
                    assert(self.occupants(c2) =~= old(self).occupants(c2).insert(id));
                }
            }
        }
    }

    /// Registers body `id` with exact bounds `bounds` over the cells of
    /// `range`, replacing its previous registration. A body that would
    /// occupy more than `MAX_GRID_CELLS_PER_BODY` cells is registered as a
    /// large body instead.
    pub fn update(&mut self, id: usize, range: CellRange, bounds: B)
        requires
            old(self).wf(),
        ensures
            final(self).wf(),
            final(self).is_update_of(*old(self), id, range, bounds),
    {
        self.remove(id);
        let ghost after_remove = *self;
        self.bounds.insert(id, bounds);
        let ghost cs1 = self.cell_sets();
        let ghost lists1 = self.cell_lists();
        let ghost mid = *self;
        assert(mid.cells == after_remove.cells);
        assert forall|c: MacroCell| #[trigger] mid.occupants(c) == old(self).occupants(c).remove(id) by {
            assert(after_remove.is_removal_of(*old(self), id));
            assert(after_remove.occupants(c) == old(self).occupants(c).remove(id));
        }
        let (lo, hi) = (range.min, range.max);
        let nx: u128 = if hi.0 >= lo.0 { (hi.0 as i64 - lo.0 as i64 + 1) as u128 } else { 0 };
        let ny: u128 = if hi.1 >= lo.1 { (hi.1 as i64 - lo.1 as i64 + 1) as u128 } else { 0 };
        let nz: u128 = if hi.2 >= lo.2 { (hi.2 as i64 - lo.2 as i64 + 1) as u128 } else { 0 };
        assert(nx * ny <= 0x1_0000_0000_0000_0000 && nx * ny * nz <= 0x1_0000_0000_0000_0000_0000_0000) by (nonlinear_arith)
            requires
                nx <= 0x1_0000_0000,
                ny <= 0x1_0000_0000,
                nz <= 0x1_0000_0000,
        ;
        assert(nx * ny * nz == range_volume(range));
        if nx * ny * nz > MAX_GRID_CELLS_PER_BODY as u128 {
            self.large_bodies.insert(id);
            proof {
                assert(self.cell_lists() =~= lists1);
                assert(self.large_bodies@ =~= old(self).large_bodies@.insert(id));
                assert(self.bounds@ =~= old(self).bounds@.insert(id, bounds));
                assert forall|c: MacroCell| #[trigger] self.occupants(c) == old(self).occupants(c).remove(id) by {
                    assert(self.occupants(c) == mid.occupants(c));
                }
            }
            return;
        }
        let mut occupied: Vec<MacroCell> = Vec::new();
        let mut x: i64 = lo.0 as i64;
        while x <= hi.0 as i64
            invariant
                lo == range.min,
                hi == range.max,
                lo.0 <= x <= hi.0 + 1 || (x == lo.0 && hi.0 < lo.0),
                consistent(self.cell_sets(), lists1.insert(id, occupied@)),
                self.cell_lists() == lists1,
                !lists1.contains_key(id),
                self.bounds@ == old(self).bounds@.insert(id, bounds),
                self.large_bodies@ == old(self).large_bodies@.remove(id),
                self.body_cells@ == mid.body_cells@,
                forall|bid: usize| #[trigger] self.bounds@.contains_key(bid) && bid != id
                    <==> (self.body_cells@.contains_key(bid) || self.large_bodies@.contains(bid)),
                forall|bid: usize| !(#[trigger] self.body_cells@.contains_key(bid) && self.large_bodies@.contains(bid)),
                !self.large_bodies@.contains(id),
                forall|c: MacroCell| #[trigger] self.occupants(c) == if in_range(c, range) && c.0 < x {
                    mid.occupants(c).insert(id)
                } else {
                    mid.occupants(c)
                },
            decreases hi.0 - x + 1,
        {
            let mut y: i64 = lo.1 as i64;
            while y <= hi.1 as i64
                invariant
                    lo == range.min,
                    hi == range.max,
                    lo.0 <= x <= hi.0,
                    lo.1 <= y <= hi.1 + 1 || (y == lo.1 && hi.1 < lo.1),
                    consistent(self.cell_sets(), lists1.insert(id, occupied@)),
                    self.cell_lists() == lists1,
                    !lists1.contains_key(id),
                    self.bounds@ == old(self).bounds@.insert(id, bounds),
                    self.large_bodies@ == old(self).large_bodies@.remove(id),
                    self.body_cells@ == mid.body_cells@,
                    forall|c: MacroCell| #[trigger] self.occupants(c) == if in_range(c, range)
                        && (c.0 < x || (c.0 == x && c.1 < y)) {
                        mid.occupants(c).insert(id)
                    } else {
                        mid.occupants(c)
                    },
                decreases hi.1 - y + 1,
            {
                let mut z: i64 = lo.2 as i64;
                while z <= hi.2 as i64
                    invariant
                        lo == range.min,
                        hi == range.max,
                        lo.0 <= x <= hi.0,
                        lo.1 <= y <= hi.1,
                        lo.2 <= z <= hi.2 + 1 || (z == lo.2 && hi.2 < lo.2),
                        consistent(self.cell_sets(), lists1.insert(id, occupied@)),
                        self.cell_lists() == lists1,
                        !lists1.contains_key(id),
                        self.bounds@ == old(self).bounds@.insert(id, bounds),
                        self.large_bodies@ == old(self).large_bodies@.remove(id),
                        self.body_cells@ == mid.body_cells@,
                        forall|c: MacroCell| #[trigger] self.occupants(c) == if in_range(c, range)
                            && (c.0 < x || (c.0 == x && (c.1 < y || (c.1 == y && c.2 < z)))) {
                            mid.occupants(c).insert(id)
                        } else {
                            mid.occupants(c)
                        },
                    decreases hi.2 - z + 1,
                {
                    let cell = MacroCell(x as i32, y as i32, z as i32);
                    let ghost cs_before = self.cell_sets();
                    let ghost occ_before = occupied@;
                    let ghost state_before = *self;
                    self.add_occupant(cell, id);
                    occupied.push(cell);
                    proof {
                        let cs = self.cell_sets();
                        let lists = lists1.insert(id, occupied@);
                        let lists_before = lists1.insert(id, occ_before);
                        assert(occupied@ == occ_before.push(cell));
                        assert forall|k: u128| #[trigger] cs.contains_key(k) implies cs[k] != Set::<usize>::empty() by {
                            if k == cell_key(cell) {
                                assert(cs[k].contains(id));
                            }
                        }
                        assert forall|k: u128, bid: usize| #[trigger] cs.contains_key(k) && #[trigger] cs[k].contains(bid)
                            implies lists.contains_key(bid) && listed(lists[bid], k) by {
                            if bid == id {
                                if k == cell_key(cell) {
                                    assert(occupied@[occupied@.len() - 1] == cell);
                                } else {
                                    assert(cs_before[k].contains(id));
                                    let j = choose|j: int| 0 <= j < occ_before.len() && cell_key(#[trigger] occ_before[j]) == k;
                                    assert(occupied@[j] == occ_before[j]);
                                }
                            } else {
                                assert(cs_before.contains_key(k) && cs_before[k].contains(bid));
                            }
                        }
                        assert forall|bid: usize, j: int| #[trigger] lists.contains_key(bid) && 0 <= j < lists[bid].len()
                            implies cs.contains_key(cell_key(#[trigger] lists[bid][j])) && cs[cell_key(lists[bid][j])].contains(bid) by {
                            if bid == id {
                                if j < occ_before.len() {
                                    assert(lists[bid][j] == occ_before[j]);
                                    assert(lists_before.contains_key(id) && lists_before[id][j] == occ_before[j]);
                                    let k2 = cell_key(occ_before[j]);
                                    assert(cs_before.contains_key(k2) && cs_before[k2].contains(id));
                                } else {
                                    assert(lists[bid][j] == cell);
                                }
                            } else {
                                assert(lists[bid] == lists_before[bid]);
                                assert(lists_before.contains_key(bid));
                                let k2 = cell_key(lists_before[bid][j]);
                                assert(cs_before.contains_key(k2) && cs_before[k2].contains(bid));
                            }
                        }
                        assert forall|c: MacroCell| #[trigger] self.occupants(c) == if in_range(c, range)
                            && (c.0 < x || (c.0 == x && (c.1 < y || (c.1 == y && c.2 < z + 1)))) {
                            mid.occupants(c).insert(id)
                        } else {
                            mid.occupants(c)
                        } by {
                            assert(self.occupants(c) == if c == cell {
                                state_before.occupants(c).insert(id)
                            } else {
                                state_before.occupants(c)
                            });
                        }
                    }
                    z = z + 1;
                }
                proof {
                    assert forall|c: MacroCell| #[trigger] self.occupants(c) == if in_range(c, range)
                        && (c.0 < x || (c.0 == x && c.1 < y + 1)) {
                        mid.occupants(c).insert(id)
                    } else {
                        mid.occupants(c)
                    } by {}
                }
                y = y + 1;
            }
            proof {
                assert forall|c: MacroCell| #[trigger] self.occupants(c) == if in_range(c, range) && c.0 < x + 1 {
                    mid.occupants(c).insert(id)
                } else {
                    mid.occupants(c)
                } by {}
            }
            x = x + 1;
        }
        let ghost final_list = occupied@;
        let ghost pre = *self;
        self.body_cells.insert(id, occupied);
        proof {
            assert(self.cell_lists() =~= lists1.insert(id, final_list));
            assert forall|c: MacroCell| #[trigger] self.occupants(c) == if in_range(c, range) {
                old(self).occupants(c).insert(id)
            } else {
                old(self).occupants(c).remove(id)
            } by {
                assert(mid.occupants(c) == old(self).occupants(c).remove(id));
                assert(self.occupants(c) == pre.occupants(c));
                if in_range(c, range) {
                    assert(old(self).occupants(c).remove(id).insert(id) =~= old(self).occupants(c).insert(id));
                }
            }
        }
    }


    /// Whether body `x` is a candidate of a query over `range` that skips
    /// `except`: it occupies a cell of the range or is a large body.
    pub open spec fn is_candidate(self, range: CellRange, except: usize, x: usize) -> bool {
        &&& x != except
        &&& (self.large_bodies@.contains(x)
            || exists|c: MacroCell| in_range(c, range) && #[trigger] self.occupants(c).contains(x))
    }

    /// Candidates met among the cells of `range` that come before cell
    /// `(x, y, z)` in scan order.
    pub open spec fn gathered(self, range: CellRange, except: usize, x: int, y: int, z: int) -> Set<usize> {
        Set::new(|id: usize| id != except && exists|c: MacroCell| in_range(c, range)
            && (c.0 < x || (c.0 == x && (c.1 < y || (c.1 == y && c.2 < z))))
            && #[trigger] self.occupants(c).contains(id))
    }

    /// The bodies other than `except` that occupy a cell of `range` or are
    /// large, and whose bounds pass `intersects`. Each body appears once.
    pub fn query<F: Fn(&B) -> bool>(&self, range: CellRange, except: usize, intersects: F) -> (result: Vec<usize>)
        requires
            self.wf(),
            forall|b: B| intersects.requires((&b,)),
        ensures
            result@.no_duplicates(),
            forall|x: usize| #[trigger] result@.contains(x) ==> self.is_candidate(range, except, x)
                && self.bounds@.contains_key(x) && intersects.ensures((&self.bounds@[x],), true),
            forall|x: usize| self.is_candidate(range, except, x) && !(#[trigger] result@.contains(x))
                ==> self.bounds@.contains_key(x) && intersects.ensures((&self.bounds@[x],), false),
    {
        let (lo, hi) = (range.min, range.max);
        let mut seen: HashSet<usize> = HashSet::new();
        let mut found: Vec<usize> = Vec::new();
        proof {
            assert(found@.to_set() =~= Set::<usize>::empty());
            assert(self.gathered(range, except, lo.0 as int, lo.1 as int, lo.2 as int) =~= Set::<usize>::empty());
        }
        let mut x: i64 = lo.0 as i64;
        while x <= hi.0 as i64
            invariant
                self.wf(),
                lo == range.min,
                hi == range.max,
                lo.0 <= x <= hi.0 + 1 || (x == lo.0 && hi.0 < lo.0),
                seen@ == found@.to_set(),
                found@.no_duplicates(),
                !seen@.contains(except),
                seen@ == self.gathered(range, except, x as int, lo.1 as int, lo.2 as int),
            decreases hi.0 - x + 1,
        {
            let mut y: i64 = lo.1 as i64;
            while y <= hi.1 as i64
                invariant
                    self.wf(),
                    lo == range.min,
                    hi == range.max,
                    lo.0 <= x <= hi.0,
                    lo.1 <= y <= hi.1 + 1 || (y == lo.1 && hi.1 < lo.1),
                    seen@ == found@.to_set(),
                    found@.no_duplicates(),
                    !seen@.contains(except),
                    seen@ == self.gathered(range, except, x as int, y as int, lo.2 as int),
                decreases hi.1 - y + 1,
            {
                let mut z: i64 = lo.2 as i64;
                while z <= hi.2 as i64
                    invariant
                        self.wf(),
                        lo == range.min,
                        hi == range.max,
                        lo.0 <= x <= hi.0,
                        lo.1 <= y <= hi.1,
                        lo.2 <= z <= hi.2 + 1 || (z == lo.2 && hi.2 < lo.2),
                        seen@ == found@.to_set(),
                        found@.no_duplicates(),
                        !seen@.contains(except),
                        seen@ == self.gathered(range, except, x as int, y as int, z as int),
                    decreases hi.2 - z + 1,
                {
                    let cell = MacroCell(x as i32, y as i32, z as i32);
                    let key = macro_cell_key(cell);
                    let ghost seen_before = seen@;
                    match self.cells.get(&key) {
                        Some(ids) => {
                            absorb(ids, except, &mut seen, &mut found);
                        },
                        None => {},
                    }
                    proof {
                        assert(seen@ == seen_before.union(self.occupants(cell).remove(except)));
                        let next = self.gathered(range, except, x as int, y as int, z + 1);
                        assert forall|id: usize| #[trigger] next.contains(id) <==> seen@.contains(id) by {
                            if next.contains(id) {
                                let c = choose|c: MacroCell| in_range(c, range)
                                    && (c.0 < x || (c.0 == x && (c.1 < y || (c.1 == y && c.2 < z + 1))))
                                    && #[trigger] self.occupants(c).contains(id);
                                if c == cell {
                                } else {
                                    assert(self.gathered(range, except, x as int, y as int, z as int).contains(id));
                                }
                            }
                            if seen_before.contains(id) {
                                let c = choose|c: MacroCell| in_range(c, range)
                                    && (c.0 < x || (c.0 == x && (c.1 < y || (c.1 == y && c.2 < z))))
                                    && #[trigger] self.occupants(c).contains(id);
                                assert(next.contains(id));
                            }
                            if self.occupants(cell).remove(except).contains(id) {
                                assert(in_range(cell, range));
                                assert(next.contains(id));
                            }
                        }
                        assert(seen@ =~= next);
                    }
                    z = z + 1;
                }
                proof {
                    assert(self.gathered(range, except, x as int, y as int, z as int)
                        =~= self.gathered(range, except, x as int, y + 1, lo.2 as int));
                }
                y = y + 1;
            }
            proof {
                assert(self.gathered(range, except, x as int, y as int, lo.2 as int)
                    =~= self.gathered(range, except, x + 1, lo.1 as int, lo.2 as int));
            }
            x = x + 1;
        }
        let ghost cell_candidates = seen@;
        absorb(&self.large_bodies, except, &mut seen, &mut found);
        proof {
            assert forall|id: usize| seen@.contains(id) <==> self.is_candidate(range, except, id) by {
                if self.is_candidate(range, except, id) && !self.large_bodies@.contains(id) {
                    let c = choose|c: MacroCell| in_range(c, range) && #[trigger] self.occupants(c).contains(id);
                    assert(self.gathered(range, except, x as int, lo.1 as int, lo.2 as int).contains(id));
                }
            }
            assert forall|id: usize| self.is_candidate(range, except, id) implies #[trigger] self.bounds@.contains_key(id) by {
                if !self.large_bodies@.contains(id) {
                    let c = choose|c: MacroCell| in_range(c, range) && #[trigger] self.occupants(c).contains(id);
                    let k = cell_key(c);
                    assert(self.cell_sets().contains_key(k) && self.cell_sets()[k].contains(id));
                    assert(self.cell_lists().contains_key(id));
                }
            }
        }
        proof {
            assert forall|j: int| 0 <= j < found@.len() implies self.is_candidate(range, except, #[trigger] found@[j]) by {
                assert(found@.to_set().contains(found@[j]));
            }
            assert forall|id: usize| self.is_candidate(range, except, id) implies #[trigger] found@.contains(id) by {
                assert(found@.to_set().contains(id));
            }
        }
        let mut result: Vec<usize> = Vec::new();
        let n = found.len();
        let mut i: usize = 0;
        while i < n
            invariant
                self.wf(),
                n == found@.len(),
                0 <= i <= n,
                found@.no_duplicates(),
                forall|j: int| 0 <= j < found@.len() ==> self.is_candidate(range, except, #[trigger] found@[j]),
                forall|id: usize| self.is_candidate(range, except, id) ==> #[trigger] found@.contains(id),
                forall|id: usize| self.is_candidate(range, except, id) ==> #[trigger] self.bounds@.contains_key(id),
                forall|b: B| intersects.requires((&b,)),
                result@.no_duplicates(),
                forall|id: usize| #[trigger] result@.contains(id) ==> (exists|j: int| 0 <= j < i && found@[j] == id)
                    && self.bounds@.contains_key(id) && intersects.ensures((&self.bounds@[id],), true),
                forall|j: int| 0 <= j < i && !result@.contains(#[trigger] found@[j])
                    ==> intersects.ensures((&self.bounds@[found@[j]],), false),
            decreases n - i,
        {
            let cand = found[i];
            let ghost r0 = result@;
            proof {
                assert(found@.contains(cand));
                assert(self.is_candidate(range, except, cand));
            }
            match self.bounds.get(&cand) {
                Some(b) => {
                    let hit = intersects(b);
                    proof {
                        assert(*b == self.bounds@[cand]);
                    }
                    if hit {
                        result.push(cand);
                        proof {
                            assert(result@ == r0.push(cand));
                            assert(result@[r0.len() as int] == cand);
                            assert(result@.contains(cand));
                            assert(!r0.contains(cand)) by {
                                if r0.contains(cand) {
                                    let j = choose|j: int| 0 <= j < i && found@[j] == cand;
                                    assert(found@[j] == found@[i as int]);
                                }
                            }
                            assert forall|a: int, b2: int| 0 <= a < b2 < result@.len() implies result@[a] != result@[b2] by {
                                if b2 == r0.len() {
                                    assert(r0.contains(result@[a]));
                                }
                            }
                        }
                    } else {
                        proof {
                            assert(intersects.ensures((&self.bounds@[cand],), false));
                            assert(result@ == r0);
                        }
                    }
                },
                None => {
                    proof {
                        assert(self.bounds@.contains_key(cand));
                    }
                },
            }
            proof {
                assert(result@.contains(cand) || intersects.ensures((&self.bounds@[cand],), false)) by {
                    if !result@.contains(cand) {
                    }
                }
                assert forall|id: usize| #[trigger] result@.contains(id) implies (exists|j: int| 0 <= j < i + 1 && found@[j] == id)
                    && self.bounds@.contains_key(id) && intersects.ensures((&self.bounds@[id],), true) by {
                    if r0.contains(id) {
                        let j = choose|j: int| 0 <= j < i && found@[j] == id;
                        assert(0 <= j < i + 1 && found@[j] == id);
                    } else {
                        assert(found@[i as int] == id);
                    }
                }
                assert forall|j: int| 0 <= j < i + 1 && !result@.contains(#[trigger] found@[j])
                    implies intersects.ensures((&self.bounds@[found@[j]],), false) by {
                    if j < i {
                        if r0.contains(found@[j]) {
                            assert(result@.len() >= r0.len());
                            let k = choose|k: int| 0 <= k < r0.len() && r0[k] == found@[j];
                            assert(result@[k] == r0[k]);
                            assert(result@.contains(found@[j]));
                        }
                    } else {
                        assert(found@[j] == cand);
                    }
                }
            }
            i = i + 1;
        }
        proof {
            assert forall|id: usize| self.is_candidate(range, except, id) && !(#[trigger] result@.contains(id))
                implies self.bounds@.contains_key(id) && intersects.ensures((&self.bounds@[id],), false) by {
                assert(found@.contains(id));
                let j = choose|j: int| 0 <= j < found@.len() && found@[j] == id;
            }
            assert forall|id: usize| #[trigger] result@.contains(id) implies self.is_candidate(range, except, id) by {
                let j = choose|j: int| 0 <= j < i && found@[j] == id;
            }
        }
        result
    }

    /// Removes body `id` from the index: from every cell, from the large
    /// bodies and from the bounds. Cells left empty are dropped.
    pub fn remove(&mut self, id: usize)
        requires
            old(self).wf(),
        ensures
            final(self).wf(),
            final(self).is_removal_of(*old(self), id),
    {
        let ghost cs0 = self.cell_sets();
        let ghost lists0 = self.cell_lists();
        match self.body_cells.remove(&id) {
            Some(cells) => {
                let ghost list = cells@;
                let n = cells.len();
                let mut i: usize = 0;
                while i < n
                    invariant
                        n == cells@.len(),
                        list == cells@,
                        0 <= i <= n,
                        lists0.contains_key(id),
                        lists0[id] == list,
                        consistent(cs0, lists0),
                        self.cell_lists() == lists0.remove(id),
                        self.bounds@ == old(self).bounds@,
                        self.large_bodies@ == old(self).large_bodies@,
                        self.body_cells@ == old(self).body_cells@.remove(id),
                        lists0 == old(self).cell_lists(),
                        cs0 == old(self).cell_sets(),
                        old(self).wf(),
                        forall|k: u128| #[trigger] self.cell_sets().contains_key(k) <==> (cs0.contains_key(k)
                            && !(listed(list.take(i as int), k) && cs0[k].remove(id) == Set::<usize>::empty())),
                        forall|k: u128| #[trigger] self.cell_sets().contains_key(k) ==> self.cell_sets()[k]
                            == if listed(list.take(i as int), k) { cs0[k].remove(id) } else { cs0[k] },
                    decreases n - i,
                {
                    let cell = cells[i];
                    let key = macro_cell_key(cell);
                    let ghost before = self.cell_sets();
                    let ghost before_cells = self.cells@;
                    let taken = self.cells.remove(&key);
                    match taken {
                        Some(mut ids) => {
                            let ghost old_ids = ids@;
                            ids.remove(&id);
                            let empty = ids.is_empty();
                            proof {
                                assert(ids@ == old_ids.remove(id));
                                if empty {
                                    assert(ids@ =~= Set::<usize>::empty());
                                }
                            }
                            if !empty {
                                self.cells.insert(key, ids);
                                proof {
                                    assert(self.cells@ == before_cells.insert(key, ids));
                                }
                            } else {
                                proof {
                                    assert(self.cells@ == before_cells.remove(key));
                                    assert(old_ids.remove(id) == Set::<usize>::empty());
                                }
                            }
                        },
                        None => {
                            assert(self.cells@ == before_cells);
                        },
                    }
                    proof {
                        let prefix = list.take(i as int);
                        let next = list.take(i + 1);
                        assert(next =~= prefix.push(cell));
                        assert forall|k: u128| #[trigger] listed(next, k) == (listed(prefix, k) || k == key) by {
                            if listed(next, k) {
                                let j = choose|j: int| 0 <= j < next.len() && cell_key(#[trigger] next[j]) == k;
                                if j < prefix.len() {
                                    assert(prefix[j] == next[j]);
                                }
                            }
                            if listed(prefix, k) {
                                let j = choose|j: int| 0 <= j < prefix.len() && cell_key(#[trigger] prefix[j]) == k;
                                assert(next[j] == prefix[j]);
                            }
                            if k == key {
                                assert(next[i as int] == cell);
                            }
                        }
                        assert(cs0.contains_key(key) && cs0[key].contains(id)) by {
                            assert(lists0[id][i as int] == cell);
                        }
                        if before.contains_key(key) {
                            assert(before[key].remove(id) =~= cs0[key].remove(id));
                        }
                        assert forall|k: u128| k != key implies (#[trigger] self.cell_sets().contains_key(k) == before.contains_key(k)
                            && (before.contains_key(k) ==> self.cell_sets()[k] == before[k])) by {}
                        assert forall|k: u128| #[trigger] self.cell_sets().contains_key(k) <==> (cs0.contains_key(k)
                            && !(listed(next, k) && cs0[k].remove(id) == Set::<usize>::empty())) by {
                            if k != key {
                                assert(self.cell_sets().contains_key(k) == before.contains_key(k));
                            }
                        }
                        assert forall|k: u128| #[trigger] self.cell_sets().contains_key(k) implies self.cell_sets()[k]
                            == if listed(next, k) { cs0[k].remove(id) } else { cs0[k] } by {
                            if k == key {
                                assert(self.cell_sets()[k] =~= cs0[k].remove(id));
                            } else {
                                assert(self.cell_sets()[k] == before[k]);
                            }
                        }
                    }
                    i = i + 1;
                }
                proof {
                    assert(list.take(n as int) =~= list);
                    let cs = self.cell_sets();
                    assert forall|k: u128| cs0.contains_key(k) && cs0[k].contains(id) implies listed(list, k) by {}
                    assert forall|k: u128| #[trigger] cs.contains_key(k) implies cs[k] =~= cs0[k].remove(id) by {
                        if !listed(list, k) {
                            assert(cs0.contains_key(k));
                            assert(!cs0[k].contains(id));
                        }
                    }
                    assert forall|k: u128| #[trigger] cs.contains_key(k) <==> (cs0.contains_key(k)
                        && cs0[k].remove(id) != Set::<usize>::empty()) by {
                        if cs0.contains_key(k) && !listed(list, k) {
                            assert(!cs0[k].contains(id));
                            assert(cs0[k].remove(id) =~= cs0[k]);
                        }
                    }
                }
            },
            None => {
                proof {
                    assert forall|k: u128| #[trigger] cs0.contains_key(k) implies !cs0[k].contains(id) by {}
                    assert forall|k: u128| #[trigger] cs0.contains_key(k) implies cs0[k].remove(id) =~= cs0[k] by {}
                }
            },
        }
        self.large_bodies.remove(&id);
        self.bounds.remove(&id);
        proof {
            let cs = self.cell_sets();
            let lists = self.cell_lists();
            assert(lists =~= lists0.remove(id));
            assert forall|k: u128| #[trigger] cs.contains_key(k) implies cs[k] == cs0[k].remove(id)
                && cs0.contains_key(k) by {}
            assert forall|k: u128| #[trigger] cs.contains_key(k) implies cs[k] != Set::<usize>::empty() by {}
            assert forall|k: u128, other: usize| #[trigger] cs.contains_key(k) && #[trigger] cs[k].contains(other)
                implies lists.contains_key(other) && listed(lists[other], k) by {
                assert(cs0[k].contains(other));
            }
            assert forall|other: usize, j: int| #[trigger] lists.contains_key(other) && 0 <= j < lists[other].len()
                implies cs.contains_key(cell_key(#[trigger] lists[other][j])) && cs[cell_key(lists[other][j])].contains(other) by {
                let k = cell_key(lists[other][j]);
                assert(cs0.contains_key(k) && cs0[k].contains(other));
                assert(cs0[k].remove(id).contains(other));
            }
            assert forall|c: MacroCell| #[trigger] self.occupants(c) == old(self).occupants(c).remove(id) by {
                let k = cell_key(c);
                if cs.contains_key(k) {
                    assert(self.occupants(c) == cs[k]);
                } else if cs0.contains_key(k) {
                    assert(old(self).occupants(c) == cs0[k]);
                    assert(cs0[k].remove(id) =~= Set::<usize>::empty());
                    assert(self.occupants(c) =~= old(self).occupants(c).remove(id));
                } else {
                    assert(self.occupants(c) =~= old(self).occupants(c).remove(id));
                }
            }
        }
    }
}

} // verus!

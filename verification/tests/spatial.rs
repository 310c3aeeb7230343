use worldengine_rapier::spatial::{CellRange, MacroCell, WorldSpatialIndex, MAX_GRID_CELLS_PER_BODY};

const MACRO_CELL_SIZE: f64 = 512.0;

#[derive(Clone, Copy, Debug, PartialEq)]
struct Aabb {
    min: [f64; 3],
    max: [f64; 3],
}

impl Aabb {
    fn around(center: [f64; 3], half: [f64; 3]) -> Aabb {
        Aabb {
            min: [center[0] - half[0], center[1] - half[1], center[2] - half[2]],
            max: [center[0] + half[0], center[1] + half[1], center[2] + half[2]],
        }
    }

    fn intersects(&self, other: &Aabb) -> bool {
        (0..3).all(|i| self.min[i] <= other.max[i] && self.max[i] >= other.min[i])
    }

    fn cells(&self) -> CellRange {
        let lo = |v: f64| (v / MACRO_CELL_SIZE).floor() as i32;
        CellRange {
            min: MacroCell(lo(self.min[0]), lo(self.min[1]), lo(self.min[2])),
            max: MacroCell(lo(self.max[0]), lo(self.max[1]), lo(self.max[2])),
        }
    }
}

fn put(index: &mut WorldSpatialIndex<Aabb>, id: usize, bounds: Aabb) {
    index.update(id, bounds.cells(), bounds);
}

fn ask(index: &WorldSpatialIndex<Aabb>, q: Aabb, except: usize) -> Vec<usize> {
    let mut found = index.query(q.cells(), except, |b: &Aabb| b.intersects(&q));
    found.sort();
    found
}

#[test]
fn sparse_grid_returns_only_intersecting_candidates() {
    let mut index: WorldSpatialIndex<Aabb> = WorldSpatialIndex::new();
    put(&mut index, 1, Aabb::around([0.0, 0.0, 0.0], [2.0, 2.0, 2.0]));
    put(&mut index, 2, Aabb::around([MACRO_CELL_SIZE - 1.0, 0.0, 0.0], [4.0, 4.0, 4.0]));
    for id in 3..10_003 {
        put(&mut index, id, Aabb::around([id as f64 * 1024.0, 0.0, 0.0], [1.0, 1.0, 1.0]));
    }

    assert_eq!(ask(&index, Aabb::around([0.0, 0.0, 0.0], [3.0, 3.0, 3.0]), 1), Vec::<usize>::new());
    assert_eq!(ask(&index, Aabb::around([MACRO_CELL_SIZE, 0.0, 0.0], [8.0, 8.0, 8.0]), 1), vec![2]);
    assert!(index.cell_count() >= 10_000);
}

#[test]
fn oversized_body_uses_large_object_fallback() {
    let mut index: WorldSpatialIndex<Aabb> = WorldSpatialIndex::new();
    let half = MACRO_CELL_SIZE * 20.0;
    put(&mut index, 7, Aabb::around([0.0, 0.0, 0.0], [half, half, half]));
    assert_eq!(index.cell_count(), 0);
    assert_eq!(ask(&index, Aabb::around([10.0, 10.0, 10.0], [1.0, 1.0, 1.0]), 99), vec![7]);
}

#[test]
fn grid_limit_is_inclusive() {
    let mut index: WorldSpatialIndex<Aabb> = WorldSpatialIndex::new();
    let range = CellRange { min: MacroCell(0, 0, 0), max: MacroCell(15, 15, 15) };
    assert_eq!(MAX_GRID_CELLS_PER_BODY, 4096);
    let b = Aabb { min: [0.0; 3], max: [16.0 * MACRO_CELL_SIZE - 1.0; 3] };
    index.update(1, range, b);
    assert_eq!(index.cell_count(), 4096);
    let wider = CellRange { min: MacroCell(0, 0, 0), max: MacroCell(16, 15, 15) };
    index.update(1, wider, b);
    assert_eq!(index.cell_count(), 0);
    assert_eq!(index.query(range, 0, |_b: &Aabb| true), vec![1]);
}

#[test]
fn moving_a_body_updates_its_cells() {
    let mut index: WorldSpatialIndex<Aabb> = WorldSpatialIndex::new();
    put(&mut index, 3, Aabb::around([10.0, 10.0, 10.0], [1.0, 1.0, 1.0]));
    put(&mut index, 3, Aabb::around([5000.0, 10.0, 10.0], [1.0, 1.0, 1.0]));
    assert_eq!(index.cell_count(), 1);
    assert!(ask(&index, Aabb::around([10.0, 10.0, 10.0], [5.0, 5.0, 5.0]), 0).is_empty());
    assert_eq!(ask(&index, Aabb::around([5000.0, 10.0, 10.0], [5.0, 5.0, 5.0]), 0), vec![3]);
    index.remove(3);
    assert_eq!(index.cell_count(), 0);
    assert!(ask(&index, Aabb::around([5000.0, 10.0, 10.0], [5.0, 5.0, 5.0]), 0).is_empty());
}

#[test]
fn query_filters_by_exact_bounds() {
    let mut index: WorldSpatialIndex<Aabb> = WorldSpatialIndex::new();
    put(&mut index, 1, Aabb::around([100.0, 0.0, 0.0], [1.0, 1.0, 1.0]));
    put(&mut index, 2, Aabb::around([400.0, 0.0, 0.0], [1.0, 1.0, 1.0]));
    assert_eq!(ask(&index, Aabb::around([100.0, 0.0, 0.0], [2.0, 2.0, 2.0]), 0), vec![1]);
    let all = index.query(CellRange { min: MacroCell(0, 0, 0), max: MacroCell(0, 0, 0) }, 0, |_b: &Aabb| true);
    let mut all = all;
    all.sort();
    assert_eq!(all, vec![1, 2]);
}

#[test]
fn moving_a_body_forgets_its_old_place_and_repeats_change_nothing() {
    let mut index: WorldSpatialIndex<Aabb> = WorldSpatialIndex::new();
    let first = Aabb::around([0.0, 0.0, 0.0], [1.0, 1.0, 1.0]);
    let second = Aabb::around([2000.0, 0.0, 0.0], [1.0, 1.0, 1.0]);
    put(&mut index, 1, first);
    put(&mut index, 2, first);
    put(&mut index, 1, second);
    assert_eq!(ask(&index, first, 99), vec![2]);
    assert_eq!(ask(&index, second, 99), vec![1]);
    let cells = index.cell_count();
    put(&mut index, 1, second);
    assert_eq!(index.cell_count(), cells);
    assert_eq!(ask(&index, first, 99), vec![2]);
    assert_eq!(ask(&index, second, 99), vec![1]);
}

#[test]
fn test_10k_retained_sleeping_regions_scale() {
    let mut index: WorldSpatialIndex<Aabb> = WorldSpatialIndex::new();
    let total_regions = 10_000;
    for i in 0..total_regions {
        let min = [(i as f64) * 200.0, 0.0, 0.0];
        let max = [min[0] + 100.0, 100.0, 100.0];
        put(&mut index, i, Aabb { min, max });
    }
    let query_box = Aabb { min: [50.0, 0.0, 0.0], max: [250.0, 100.0, 100.0] };
    let hits = ask(&index, query_box, usize::MAX);
    assert_eq!(hits.len(), 2);
    assert!(hits.contains(&0));
    assert!(hits.contains(&1));
}

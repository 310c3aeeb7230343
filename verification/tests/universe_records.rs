use worldengine_rapier::geometry::{BlockPos, PersistentBodyGeometry};
use worldengine_rapier::command::VectorBits;
use worldengine_rapier::export::{
    encode_active_poses, encode_materialization_requests, export_limit, overflow_code, ExportPose,
};
use worldengine_rapier::section::pack_section_pos;
use worldengine_rapier::spatial::{CellRange, MacroCell};
use worldengine_rapier::terrain::terrain_overlaps_bounds;
use worldengine_rapier::universe::{
    DimensionUniverse, LevelColliderID, MaterializationRequest, ResidentPhysicsBody, SimulationTier, UniverseBody,
};

type Universe = DimensionUniverse<(), [f64; 6], ()>;

fn record_body(id: LevelColliderID) -> UniverseBody<()> {
    UniverseBody {
        id,
        translation: VectorBits { x: 12.5f64.to_bits(), y: (-4.0f64).to_bits(), z: 88.25f64.to_bits() },
        physics: (),
        simulation_tier: SimulationTier::Active,
        last_update_tick: 0,
        next_update_tick: 0,
        schedule_generation: 0,
        resident: None,
        assembly_root: id,
        assembly_size: 1,
        command_queue: Vec::new(),
    }
}

fn vbits(x: f64, y: f64, z: f64) -> VectorBits {
    VectorBits { x: x.to_bits(), y: y.to_bits(), z: z.to_bits() }
}

fn boxed(center: [f64; 3], half: f64) -> [f64; 6] {
    [center[0] - half, center[1] - half, center[2] - half, center[0] + half, center[1] + half, center[2] + half]
}

fn cells_of(b: &[f64; 6]) -> CellRange {
    let lo = |v: f64| (v / 512.0).floor() as i32;
    CellRange { min: MacroCell(lo(b[0]), lo(b[1]), lo(b[2])), max: MacroCell(lo(b[3]), lo(b[4]), lo(b[5])) }
}

fn overlaps(a: &[f64; 6], b: &[f64; 6]) -> bool {
    (0..3).all(|i| a[i] <= b[i + 3] && a[i + 3] >= b[i])
}

fn resident_in(scene_handle: i64) -> ResidentPhysicsBody {
    ResidentPhysicsBody { rigid_body_index: 0, rigid_body_generation: 0, scene_handle }
}

/// Block corners of a box: its minimum rounded down and its maximum
/// rounded up, as `i32`.
fn block_corners(b: &[f64; 6]) -> [i32; 6] {
    [
        b[0].floor() as i32,
        b[1].floor() as i32,
        b[2].floor() as i32,
        b[3].ceil() as i32,
        b[4].ceil() as i32,
        b[5].ceil() as i32,
    ]
}

fn sweep_hits(universe: &Universe, b: &[f64; 6]) -> bool {
    let c = block_corners(b);
    universe.swept_intersects_terrain(c[0], c[1], c[2], c[3], c[4], c[5])
}

#[test]
fn unresident_deletion_cleans_all_universe_records() {
    let mut universe = Universe::new();
    let id = 42;
    let mut b = record_body(id);
    b.translation = vbits(100.0, 50.0, 100.0);
    universe.universe_bodies.insert(id, b);
    let bounds = boxed([100.0, 50.0, 100.0], 1.0);
    universe.spatial_index.update(id, cells_of(&bounds), bounds);
    universe.pose_dirty_bodies.insert(id);
    universe.pending_command_bodies.insert(id);
    universe.pending_materializations.insert(id);
    universe.pending_evictions.insert(id);
    universe.body_geometries.insert(id, PersistentBodyGeometry::new());

    universe.remove_body(id);
    assert!(!universe.body_geometries.contains_key(&id));

    assert!(!universe.universe_bodies.contains_key(&id));
    assert!(!universe.pose_dirty_bodies.contains(&id));
    assert!(!universe.pending_command_bodies.contains(&id));
    assert!(!universe.pending_materializations.contains(&id));
    assert!(!universe.pending_evictions.contains(&id));
    let q = boxed([100.0, 50.0, 100.0], 2.0);
    assert!(universe.spatial_index.query(cells_of(&q), 999, |b: &[f64; 6]| overlaps(b, &q)).is_empty());
}

#[test]
fn re_materialization_before_eviction_drain_preserves_residency() {
    let mut universe = Universe::new();
    let id = 301;
    universe.universe_bodies.insert(id, record_body(id));

    assert!(universe.mark_resident(id, resident_in(1)));
    assert!(universe.universe_bodies[&id].resident.is_some());

    universe.mark_evicted(id, vbits(0.0, 0.0, 0.0), (), true);
    assert!(universe.universe_bodies[&id].resident.is_none());
    assert_eq!(universe.eviction_events.len(), 1);

    assert!(universe.mark_resident(id, resident_in(2)));
    assert!(universe.eviction_events.is_empty(), "Materialization must clear stale eviction event for body");
    assert!(universe.universe_bodies[&id].resident.is_some());
    assert_eq!(universe.universe_bodies[&id].resident, Some(resident_in(2)));
    assert!(!universe.mark_resident(id, resident_in(3)));
}

#[test]
fn eviction_dirties_pose_for_universe_channel() {
    let mut universe = Universe::new();
    let id = 88;
    let mut b = record_body(id);
    b.translation = vbits(10.0, 0.0, 0.0);
    universe.universe_bodies.insert(id, b);
    universe.mark_resident(id, resident_in(5));

    universe.mark_evicted(id, vbits(11.0, 0.0, 0.0), (), false);

    assert!(universe.pose_dirty_bodies.contains(&id));
    let evicted = &universe.universe_bodies[&id];
    assert_eq!(f64::from_bits(evicted.translation.x), 11.0);
    assert!(universe.eviction_events.is_empty());
}

#[test]
fn requests_and_events_are_recorded_once_until_drained() {
    let mut universe = Universe::new();
    universe.universe_bodies.insert(1, record_body(1));
    universe.request_materialization(1);
    universe.request_materialization(1);
    universe.request_materialization(2);
    assert_eq!(
        universe.materialization_requests,
        vec![MaterializationRequest { id: 1, position: record_body(1).translation }]
    );
    assert_eq!(universe.drain_materialization_requests().len(), 1);
    assert!(universe.pending_materializations.is_empty());
    universe.request_materialization(1);
    assert_eq!(universe.materialization_requests.len(), 1);

    universe.record_eviction(4);
    universe.record_eviction(4);
    universe.record_eviction(5);
    assert_eq!(universe.drain_eviction_events(), vec![4, 5]);
    assert!(universe.pending_evictions.is_empty());
}

#[test]
fn terrain_risk_wakes_ballistic_body() {
    let mut universe = Universe::new();
    universe.add_world_terrain_chunk(5, 0, 0);
    assert!(universe.terrain_sections.contains(&pack_section_pos(5, 0, 0)));

    let mut ballistic = record_body(100);
    ballistic.translation = vbits(70.0, 8.0, 8.0);
    ballistic.simulation_tier = SimulationTier::Ballistic;
    universe.universe_bodies.insert(100, ballistic);
    let bounds = boxed([70.0, 8.0, 8.0], 1.0);
    universe.spatial_index.update(100, cells_of(&bounds), bounds);
    universe.schedule_body(100, 1);

    universe.begin_tick(1);
    assert_eq!(universe.pop_due_body(), Some(100));
    let lookahead = 0.05 * 20.0;
    let swept = [bounds[0], bounds[1], bounds[2], bounds[3] + 10.0 * lookahead, bounds[4], bounds[5]];
    let neighbors = universe.spatial_index.query(cells_of(&swept), 100, |b: &[f64; 6]| overlaps(b, &swept));
    assert!(neighbors.is_empty());
    assert!(sweep_hits(&universe, &swept));
    universe.wake_ballistic_body(100, &neighbors);

    assert_eq!(universe.universe_bodies[&100].simulation_tier, SimulationTier::Active);
    assert!(universe.materialization_requests.iter().any(|r| r.id == 100));
}

#[test]
fn terrain_domain_guard_at_huge_coordinates() {
    let mut universe = Universe::new();
    universe.terrain_sections.insert(pack_section_pos(0, 0, 0));
    let bounds_huge = boxed([10_000_000_000.0, 100.0, 10_000_000_000.0], 10.0);
    assert!(!sweep_hits(&universe, &bounds_huge));
}

#[test]
fn terrain_outside_domain_is_ignored() {
    let mut universe = Universe::new();
    universe.add_world_terrain_chunk(0, 129, 0);
    universe.add_world_terrain_chunk(2_000_000, 0, 0);
    assert!(universe.terrain_sections.is_empty());
    universe.add_world_terrain_chunk(1, 1, 1);
    universe.remove_world_terrain_chunk(0, -129, 0);
    assert_eq!(universe.terrain_sections.len(), 1);
    universe.remove_world_terrain_chunk(1, 1, 1);
    assert!(universe.terrain_sections.is_empty());
}

#[test]
fn terrain_sweep_counts_sections() {
    let mut universe = Universe::new();
    assert!(!universe.swept_intersects_terrain(0, 0, 0, 100_000, 100_000, 100_000));
    universe.add_world_terrain_chunk(100, 0, 100);
    assert!(!universe.swept_intersects_terrain(0, 0, 0, 15, 15, 15));
    assert!(universe.swept_intersects_terrain(1600, 0, 1600, 1610, 10, 1610));
    assert!(universe.swept_intersects_terrain(-16, -16, -16, 16 * 16, 16 * 16, 16 * 16));
    assert!(!universe.swept_intersects_terrain(0, 0, 0, 16 * 15, 16 * 15, 16 * 15));
}

#[test]
fn materialization_export_respects_capacity() {
    let mut universe = Universe::new();
    for id in [7usize, 8, 9] {
        let mut b = record_body(id);
        b.translation = vbits(id as f64, 2.0 * id as f64, -1.0);
        universe.universe_bodies.insert(id, b);
        universe.request_materialization(id);
    }
    assert_eq!(universe.write_materialization_requests(10, 0), (0, Vec::new()));
    assert_eq!(universe.write_materialization_requests(2, 1000), (-3, Vec::new()));
    assert_eq!(universe.write_materialization_requests(10, 95), (-3, Vec::new()));
    assert_eq!(universe.materialization_requests.len(), 3);

    let (count, bytes) = universe.write_materialization_requests(3, 96);
    assert_eq!(count, 3);
    assert_eq!(bytes.len(), 96);
    assert!(universe.materialization_requests.is_empty());
    assert!(universe.pending_materializations.is_empty());
    for (i, id) in [7i32, 8, 9].iter().enumerate() {
        let rec = &bytes[i * 32..i * 32 + 32];
        assert_eq!(i32::from_ne_bytes(rec[0..4].try_into().unwrap()), *id);
        assert_eq!(&rec[4..8], &[0u8; 4]);
        let x = f64::from_bits(u64::from_ne_bytes(rec[8..16].try_into().unwrap()));
        let y = f64::from_bits(u64::from_ne_bytes(rec[16..24].try_into().unwrap()));
        let z = f64::from_bits(u64::from_ne_bytes(rec[24..32].try_into().unwrap()));
        assert_eq!((x, y, z), (*id as f64, 2.0 * *id as f64, -1.0));
    }
    assert_eq!(universe.write_materialization_requests(3, 96), (0, Vec::new()));
}

#[test]
fn dirty_pose_export_restores_marks_on_overflow() {
    let mut universe = Universe::new();
    universe.universe_bodies.insert(1, record_body(1));
    universe.universe_bodies.insert(2, record_body(2));
    universe.pose_dirty_bodies.insert(1);
    universe.pose_dirty_bodies.insert(2);
    universe.pose_dirty_bodies.insert(3);
    assert_eq!(universe.take_dirty_pose_ids(2, 1000), Err(-3));
    assert_eq!(universe.pose_dirty_bodies.len(), 3);
    assert_eq!(universe.take_dirty_pose_ids(5, 0), Ok(Vec::new()));
    let mut ids = universe.take_dirty_pose_ids(5, 180).unwrap();
    ids.sort();
    assert_eq!(ids, vec![1, 2]);
    assert!(universe.pose_dirty_bodies.is_empty());
    assert_eq!(universe.take_dirty_pose_ids(5, 180), Ok(Vec::new()));
}

#[test]
fn export_limits_and_codes() {
    assert_eq!(export_limit(-5, 1000, 32), 0);
    assert_eq!(export_limit(10, 1000, 32), 10);
    assert_eq!(export_limit(100, 1000, 32), 31);
    assert_eq!(export_limit(i32::MAX, 59, 60), 0);
    assert_eq!(overflow_code(0), 0);
    assert_eq!(overflow_code(17), -17);
    assert_eq!(overflow_code(usize::MAX), -i32::MAX);
}

#[test]
fn pose_records_round_trip() {
    let poses = vec![
        ExportPose { id: 3, position: vbits(1.0, 2.0, 3.0), rotation: [0.0f64, 0.0, 0.0, 1.0].map(f64::to_bits) },
        ExportPose { id: -1, position: vbits(-1.5, 0.25, 1e10), rotation: [0.5f64, 0.5, 0.5, 0.5].map(f64::to_bits) },
    ];
    let bytes = encode_active_poses(&poses);
    assert_eq!(bytes.len(), 120);
    for (i, p) in poses.iter().enumerate() {
        let rec = &bytes[i * 60..i * 60 + 60];
        assert_eq!(i32::from_ne_bytes(rec[0..4].try_into().unwrap()), p.id);
        let expected = [p.position.x, p.position.y, p.position.z, p.rotation[0], p.rotation[1], p.rotation[2], p.rotation[3]];
        for s in 0..7 {
            let off = 4 + s * 8;
            assert_eq!(u64::from_ne_bytes(rec[off..off + 8].try_into().unwrap()), expected[s]);
        }
    }
    let second_x = f64::from_bits(u64::from_ne_bytes(bytes[64..72].try_into().unwrap()));
    assert_eq!(second_x, -1.5);
    let reqs = vec![MaterializationRequest { id: 12, position: vbits(1.0, 2.0, 3.0) }];
    let out = encode_materialization_requests(&reqs);
    assert_eq!(out.len(), 32);
    assert_eq!(i32::from_ne_bytes(out[0..4].try_into().unwrap()), 12);
    assert_eq!(f64::from_bits(u64::from_ne_bytes(out[24..32].try_into().unwrap())), 3.0);
}

#[test]
fn terrain_block_overlap_is_bounded() {
    let solid_at = |x: i32, y: i32, z: i32| x == 3 && y == -2 && z == 7;
    assert!(terrain_overlaps_bounds(0, -4, 0, 8, 0, 8, solid_at));
    assert!(!terrain_overlaps_bounds(4, -4, 0, 8, 0, 8, solid_at));
    assert!(!terrain_overlaps_bounds(5, 0, 0, 4, 0, 0, |_x: i32, _y: i32, _z: i32| true));
    assert!(terrain_overlaps_bounds(0, 0, 0, 16, 15, 15, |_x: i32, _y: i32, _z: i32| false));
    assert!(!terrain_overlaps_bounds(0, 0, 0, 15, 15, 15, |_x: i32, _y: i32, _z: i32| false));
    assert!(!terrain_overlaps_bounds(i32::MAX, 0, 0, i32::MAX, 0, 0, |_x: i32, _y: i32, _z: i32| false));
}

#[test]
fn persistent_geometry_outlives_residency() {
    let mut universe = Universe::new();
    let id = 12;
    universe.universe_bodies.insert(id, record_body(id));
    let com = vbits(0.0, 0.5, 0.0);
    universe.set_body_stats(id, BlockPos { x: -1, y: 0, z: -1 }, BlockPos { x: 1, y: 2, z: 1 }, com);
    universe.mark_resident(id, resident_in(1));
    universe.mark_evicted(id, vbits(3.0, 0.0, 0.0), (), true);
    assert!(universe.eviction_events.contains(&id));
    universe.mark_evicted(id, vbits(3.0, 0.0, 0.0), (), true);
    universe.mark_resident(id, resident_in(2));
    let g = &universe.body_geometries[&id];
    assert_eq!(g.local_bounds_max, Some(BlockPos { x: 1, y: 2, z: 1 }));
    assert_eq!(g.center_of_mass, Some(com));
}

#[test]
fn evicting_an_already_pending_body_keeps_its_event() {
    let mut universe = Universe::new();
    let id = 13;
    universe.universe_bodies.insert(id, record_body(id));
    universe.mark_resident(id, resident_in(1));
    universe.mark_evicted(id, vbits(0.0, 0.0, 0.0), (), true);
    universe.universe_bodies.get_mut(&id).unwrap().resident = Some(resident_in(1));
    universe.mark_evicted(id, vbits(0.0, 0.0, 0.0), (), true);
    assert_eq!(universe.eviction_events, vec![id]);
    assert!(universe.pending_evictions.contains(&id));
}

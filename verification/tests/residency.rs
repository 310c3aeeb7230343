use std::collections::HashMap;
use worldengine_rapier::callbacks::SableSceneData;
use worldengine_rapier::chunks::count_callback_sections;
use worldengine_rapier::command::VectorBits;
use worldengine_rapier::geometry::{
    octree_fits, ActiveLevelColliderInfo, BlockPos, ChunkSection, OctreeWork, PersistentBodyGeometry,
};
use worldengine_rapier::section::pack_section_pos;
use worldengine_rapier::spatial::{CellRange, MacroCell};
use worldengine_rapier::universe::{DimensionUniverse, LevelColliderID, ResidentPhysicsBody, SimulationTier, UniverseBody};

type Universe = DimensionUniverse<(), (), ()>;
type Region = SableSceneData<(), (), ()>;
type RegionGeometry = ActiveLevelColliderInfo<(), ()>;

fn body(id: LevelColliderID) -> UniverseBody<()> {
    UniverseBody {
        id,
        translation: vbits(12.5, -4.0, 88.25),
        physics: (),
        simulation_tier: SimulationTier::Active,
        last_update_tick: 0,
        next_update_tick: 0,
        schedule_generation: 0,
        resident: None,
        assembly_root: id,
        assembly_size: 1,
        command_queue: Vec::new(),
    }
}

fn vbits(x: f64, y: f64, z: f64) -> VectorBits {
    VectorBits { x: x.to_bits(), y: y.to_bits(), z: z.to_bits() }
}

fn cells_around(center: [f64; 3], half: f64) -> CellRange {
    let lo = |v: f64| (v / 512.0).floor() as i32;
    CellRange {
        min: MacroCell(lo(center[0] - half), lo(center[1] - half), lo(center[2] - half)),
        max: MacroCell(lo(center[0] + half), lo(center[1] + half), lo(center[2] + half)),
    }
}

fn empty_section(serial_callback_blocks: u16) -> ChunkSection {
    ChunkSection { blocks: vec![(0, 0); 4096], serial_callback_blocks }
}

/// Makes body `id` resident in `region`, as a region taking it in does.
fn materialize(universe: &mut Universe, region: &mut Region, id: LevelColliderID) {
    assert!(universe.region_geometry_fits(id));
    let (info, _work): (RegionGeometry, Option<OctreeWork>) = universe.region_geometry(id, None, ());
    region.admit_level_collider(id, info);
    universe.mark_resident(id, ResidentPhysicsBody { rigid_body_index: id as u32, rigid_body_generation: 0, scene_handle: 1 });
}

/// Hands body `id` back from `region`, as an eviction does.
fn evict(universe: &mut Universe, region: &mut Region, id: LevelColliderID, emit_event: bool) -> bool {
    if universe.universe_bodies[&id].resident.is_none() {
        return true;
    }
    if let Some(info) = region.release_level_collider(id) {
        universe.keep_region_geometry(id, info);
    }
    let translation = universe.universe_bodies[&id].translation;
    universe.mark_evicted(id, translation, (), emit_event);
    true
}

#[test]
fn universe_sublevel_block_change_updates_persistent_geometry() {
    let mut universe = Universe::new();
    let id = 99;
    universe.universe_bodies.insert(id, body(id));

    let mut geom: PersistentBodyGeometry<()> = PersistentBodyGeometry::new();
    let mut chunk_map = HashMap::new();
    chunk_map.insert(pack_section_pos(0, 0, 0), empty_section(0));
    geom.chunk_map = Some(chunk_map);
    universe.body_geometries.insert(id, geom);

    let sec_pos = pack_section_pos(0, 0, 0);
    let never = |_collider: u16| false;
    universe.change_geometry_block(id, 2, 3, 4, (42 << 16) | 1, never);

    let updated_geom = &universe.body_geometries[&id];
    assert!(updated_geom.dirty_sections.contains(&sec_pos));
    let block = universe.geometry_edit_start(id, 2, 3, 4).unwrap().0;
    assert_eq!(block.0, 42);
}

#[test]
fn dormant_callback_block_tracks_serial_sections_across_materialization_and_eviction() {
    let mut universe = Universe::new();
    let mut region: Region = SableSceneData::new(0, ());
    let id = 102;
    universe.universe_bodies.insert(id, body(id));

    let mut geom: PersistentBodyGeometry<()> = PersistentBodyGeometry::new();
    let mut chunk_map = HashMap::new();
    chunk_map.insert(pack_section_pos(0, 0, 0), empty_section(3));
    geom.chunk_map = Some(chunk_map);
    universe.body_geometries.insert(id, geom);

    assert_eq!(region.sublevel_serial_callback_sections, 0);

    materialize(&mut universe, &mut region, id);
    assert_eq!(
        region.sublevel_serial_callback_sections, 1,
        "Materializing body with callback blocks must increment serial callback sections"
    );

    evict(&mut universe, &mut region, id, false);
    assert_eq!(region.sublevel_serial_callback_sections, 0, "Evicting body must decrement serial callback sections");
    assert!(region.level_colliders.get(&id).is_none(), "Eviction must remove ActiveLevelColliderInfo from scene");
}

#[test]
fn test_repeated_wake_sleep_cycle_100_bodies() {
    let mut universe = Universe::new();
    let mut region: Region = SableSceneData::new(0, ());
    let count = 100;
    for id in 0..count {
        let mut b = body(id);
        b.translation = vbits(id as f64 * 20.0, 50.0, 0.0);
        b.simulation_tier = SimulationTier::Dormant;
        universe.universe_bodies.insert(id, b);
    }

    for _cycle in 0..10 {
        for id in 0..count {
            materialize(&mut universe, &mut region, id);
            assert!(universe.universe_bodies[&id].resident.is_some());
            assert!(region.level_colliders.contains_key(&id));
        }

        for id in 0..count {
            let evicted = evict(&mut universe, &mut region, id, true);
            assert!(evicted);
            assert!(universe.universe_bodies[&id].resident.is_none());
        }

        let drained: Vec<LevelColliderID> = universe.drain_eviction_events();
        assert_eq!(drained.len(), count);
    }
    assert_eq!(region.level_colliders.len(), 0);
    assert!(universe.universe_bodies.values().all(|b| b.resident.is_none()));
}

#[test]
fn scale_dormant_bodies_zero_rapier_cost() {
    let mut universe = Universe::new();
    for id in 0..10_000 {
        let mut b = body(id);
        let center = [id as f64 * 5.0, 0.0, 0.0];
        b.translation = vbits(center[0], center[1], center[2]);
        universe.spatial_index.update(id, cells_around(center, 1.0), ());
        universe.universe_bodies.insert(id, b);
    }
    assert_eq!(universe.universe_bodies.len(), 10_000);
    universe.begin_tick(1);
    while universe.next_due_action().is_some() {}
    assert_eq!(universe.materialization_requests.len(), 0);
}

#[test]
fn test_java_callback_blocks_across_sleep_wake_cycles() {
    let mut universe = Universe::new();
    let mut region: Region = SableSceneData::new(0, ());
    let id = 901;
    universe.universe_bodies.insert(id, body(id));

    let mut geom: PersistentBodyGeometry<()> = PersistentBodyGeometry::new();
    let mut chunk_map = HashMap::new();
    chunk_map.insert(pack_section_pos(0, 0, 0), empty_section(3));
    geom.chunk_map = Some(chunk_map);
    universe.body_geometries.insert(id, geom);

    for _ in 0..20 {
        materialize(&mut universe, &mut region, id);
        assert_eq!(region.sublevel_serial_callback_sections, 1);
        assert!(!region.can_parallel_step());

        evict(&mut universe, &mut region, id, false);
        assert_eq!(region.sublevel_serial_callback_sections, 0);
        assert!(region.can_parallel_step());
    }
}

#[test]
fn callback_sections_are_counted_per_section() {
    let mut chunks = HashMap::new();
    assert_eq!(count_callback_sections(&chunks), 0);
    chunks.insert(pack_section_pos(0, 0, 0), empty_section(3));
    chunks.insert(pack_section_pos(1, 0, 0), empty_section(0));
    chunks.insert(pack_section_pos(2, 0, 0), empty_section(1));
    assert_eq!(count_callback_sections(&chunks), 2);
}

#[test]
fn rebuilt_octree_plans_a_first_cube() {
    let mut info: RegionGeometry = ActiveLevelColliderInfo::new(None, ());
    info.octree = Some(());
    info.octree_origin = Some(BlockPos { x: -64, y: 0, z: 0 });
    info.octree_log_size = Some(7);
    info.dirty_sections.insert(5);
    let (min, max) = (BlockPos { x: 0, y: 0, z: 0 }, BlockPos { x: 15, y: 3, z: 3 });
    assert!(octree_fits(min, max));
    assert!(!octree_fits(BlockPos { x: i32::MIN, y: 0, z: 0 }, BlockPos { x: i32::MAX, y: 0, z: 0 }));
    match info.rebuild_octree(min, max) {
        OctreeWork::Build { log_size } => assert_eq!(log_size, 4),
        OctreeWork::Grow { .. } => panic!("expected a first octree"),
    }
    assert_eq!(info.octree, None);
    assert_eq!(info.octree_origin, Some(min));
    assert!(info.dirty_sections.is_empty());

    let mut universe = Universe::new();
    universe.set_body_stats(3, min, max, vbits(0.0, 0.0, 0.0));
    universe.body_geometries.get_mut(&3).unwrap().dirty_sections.insert(9);
    universe.keep_octree(3, Some(()), HashMap::new(), info.octree_origin, info.octree_log_size);
    let g = &universe.body_geometries[&3];
    assert_eq!(g.octree, Some(()));
    assert_eq!(g.octree_origin, Some(min));
    assert_eq!(g.octree_log_size, Some(4));
    assert!(g.dirty_sections.is_empty());
    universe.keep_octree(4, None, HashMap::new(), None, None);
    assert!(!universe.body_geometries.contains_key(&4));
}

#[test]
fn dormant_body_persistent_geometry_retained_across_materialization() {
    let mut universe = Universe::new();
    let mut region: Region = SableSceneData::new(0, ());
    let id = 55;
    let mut b = body(id);
    b.translation = vbits(200.0, 64.0, 200.0);
    universe.universe_bodies.insert(id, b);

    let com = vbits(0.5, 2.5, 0.5);
    let mut geom: PersistentBodyGeometry<()> = PersistentBodyGeometry::new();
    geom.local_bounds_min = Some(BlockPos { x: -2, y: 0, z: -2 });
    geom.local_bounds_max = Some(BlockPos { x: 3, y: 5, z: 3 });
    geom.center_of_mass = Some(com);
    geom.geometry_version = 7;
    universe.body_geometries.insert(id, geom);

    materialize(&mut universe, &mut region, id);

    let info = &region.level_colliders[&id];
    assert_eq!(info.local_bounds_min, Some(BlockPos { x: -2, y: 0, z: -2 }));
    assert_eq!(info.local_bounds_max, Some(BlockPos { x: 3, y: 5, z: 3 }));
    assert_eq!(info.center_of_mass, Some(com));
    assert_eq!(info.geometry_version, 7);

    evict(&mut universe, &mut region, id, false);
    let retained = &universe.body_geometries[&id];
    assert_eq!(retained.local_bounds_min, Some(BlockPos { x: -2, y: 0, z: -2 }));
    assert_eq!(retained.local_bounds_max, Some(BlockPos { x: 3, y: 5, z: 3 }));
    assert_eq!(retained.center_of_mass, Some(com));
}

#[test]
fn region_geometry_plans_an_octree_only_when_needed() {
    let mut universe = Universe::new();
    let (info, work): (RegionGeometry, Option<OctreeWork>) = universe.region_geometry(1, None, ());
    assert!(matches!(work, Some(OctreeWork::Build { log_size: 2 })));
    assert_eq!(info.local_bounds_min, Some(BlockPos { x: -1, y: -1, z: -1 }));
    assert_eq!(info.octree_origin, Some(BlockPos { x: -1, y: -1, z: -1 }));
    assert!(info.chunk_map.as_ref().unwrap().is_empty());
    assert!(!universe.body_geometries.contains_key(&1));

    let mut geom: PersistentBodyGeometry<()> = PersistentBodyGeometry::new();
    geom.octree = Some(());
    geom.octree_origin = Some(BlockPos { x: -8, y: -8, z: -8 });
    geom.octree_log_size = Some(4);
    universe.body_geometries.insert(2, geom);
    let (info, work): (RegionGeometry, Option<OctreeWork>) = universe.region_geometry(2, None, ());
    assert!(work.is_none());
    assert_eq!(info.octree, Some(()));
    assert_eq!(info.octree_log_size, Some(4));

    universe.body_geometries.get_mut(&2).unwrap().dirty_sections.insert(11);
    let (info, work): (RegionGeometry, Option<OctreeWork>) = universe.region_geometry(2, None, ());
    assert!(matches!(work, Some(OctreeWork::Build { log_size: 2 })));
    assert_eq!(info.octree, None);
    let g = &universe.body_geometries[&2];
    assert!(g.dirty_sections.is_empty());
    assert_eq!(g.octree_origin, Some(BlockPos { x: -1, y: -1, z: -1 }));
}

#[test]
fn test_1m_dormant_bodies_scale_and_tick() {
    let mut universe = Universe::new();
    let total = 1_000_000;
    for id in 0..total {
        let mut b = body(id);
        b.translation = vbits((id % 1000) as f64 * 10.0, ((id / 1000) % 1000) as f64 * 10.0, 0.0);
        b.simulation_tier = SimulationTier::Dormant;
        universe.universe_bodies.insert(id, b);
    }
    assert_eq!(universe.universe_bodies.len(), total);
    universe.begin_tick(1);
    while universe.next_due_action().is_some() {}
    assert_eq!(universe.materialization_requests.len(), 0);
}

#[test]
fn test_zero_g_1m_static_bodies_no_spurious_wakes() {
    let mut universe = Universe::new();
    let total = 1_000_000;
    for id in 0..total {
        let mut b = body(id);
        b.translation = vbits((id % 1000) as f64 * 5.0, 0.0, (id / 1000) as f64 * 5.0);
        b.simulation_tier = SimulationTier::Dormant;
        universe.universe_bodies.insert(id, b);
    }
    for tick in 1..=5 {
        universe.begin_tick(tick);
        while universe.next_due_action().is_some() {}
        assert_eq!(universe.materialization_requests.len(), 0);
    }
}

use worldengine_rapier::callbacks::{SableSceneData, SectionOwner};
use worldengine_rapier::command::VectorBits;
use worldengine_rapier::export::{export_active_poses, ExportPose};
use worldengine_rapier::geometry::{ActiveLevelColliderInfo, BlockPos, OctreeWork};
use worldengine_rapier::lifecycle::{eviction_decision, DueAction, EvictionDecision, ACTIVE_RECHECK_INTERVAL};
use worldengine_rapier::section::pack_section_pos;
use worldengine_rapier::universe::{DimensionUniverse, LevelColliderID, SimulationTier, UniverseBody};

type Region = SableSceneData<(), (), ()>;
type Universe = DimensionUniverse<(), (), ()>;

fn pos(x: i32, y: i32, z: i32) -> BlockPos {
    BlockPos { x, y, z }
}

fn air() -> Vec<i32> {
    vec![0; 4096]
}

fn body(id: LevelColliderID, tier: SimulationTier) -> UniverseBody<()> {
    UniverseBody {
        id,
        translation: VectorBits { x: 0, y: 0, z: 0 },
        physics: (),
        simulation_tier: tier,
        last_update_tick: 0,
        next_update_tick: 0,
        schedule_generation: 0,
        resident: None,
        assembly_root: id,
        assembly_size: 1,
        command_queue: Vec::new(),
    }
}

#[test]
fn terrain_chunk_load_and_unload_track_callbacks() {
    let mut region: Region = SableSceneData::new(0, ());
    let mut words = air();
    words[(3 * 16 + 2) * 16 + 1] = 0x0001_0004;
    assert!(region.add_chunk(SectionOwner::Terrain, 0, 2, -1, 5, &words, 2));
    assert_eq!(region.terrain_serial_callback_sections, 1);
    assert!(!region.can_parallel_step());
    let key = pack_section_pos(2, -1, 5);
    let section = &region.main_level_chunks[&key];
    assert_eq!(section.blocks.len(), 4096);
    assert_eq!(section.blocks[(3 * 16 + 2) * 16 + 1], (1, 4));
    assert_eq!(section.blocks[0], (0, 0));

    assert!(!region.add_chunk(SectionOwner::Terrain, 0, 2, -1, 5, &air(), 0));
    assert_eq!(region.terrain_serial_callback_sections, 0);

    let removed = region.remove_chunk(SectionOwner::Terrain, 0, 2, -1, 5).unwrap();
    assert_eq!(removed.serial_callback_blocks, 0);
    assert!(region.main_level_chunks.is_empty());
    assert!(region.remove_chunk(SectionOwner::Terrain, 0, 2, -1, 5).is_none());
    assert!(region.can_parallel_step());
}

#[test]
fn sub_level_chunks_mark_their_sections_dirty() {
    let mut region: Region = SableSceneData::new(0, ());
    region.level_colliders.insert(7, ActiveLevelColliderInfo::new(None, ()));
    assert!(!region.add_chunk(SectionOwner::SubLevel, 7, 1, 0, 0, &air(), 3));
    assert_eq!(region.sublevel_serial_callback_sections, 1);
    let info = &region.level_colliders[&7];
    assert_eq!(info.geometry_version, 1);
    assert!(info.dirty_sections.contains(&pack_section_pos(1, 0, 0)));
    assert!(info.chunk_map.as_ref().unwrap().contains_key(&pack_section_pos(1, 0, 0)));

    let removed = region.remove_chunk(SectionOwner::SubLevel, 7, 1, 0, 0).unwrap();
    assert_eq!(removed.serial_callback_blocks, 3);
    assert_eq!(region.sublevel_serial_callback_sections, 0);
    assert_eq!(region.level_colliders[&7].geometry_version, 2);
    assert!(region.level_colliders[&7].chunk_map.as_ref().unwrap().is_empty());
}

#[test]
fn block_changes_follow_callback_colliders() {
    let mut region: Region = SableSceneData::new(0, ());
    let needs_callback = |collider: u16| collider == 5;
    assert_eq!(region.change_block(SectionOwner::Terrain, 0, 17, 3, -2, 0x0005_0000, needs_callback), None);
    assert!(region.main_level_chunks.is_empty());

    region.add_chunk(SectionOwner::Terrain, 0, 1, 0, -1, &air(), 0);
    assert_eq!(region.change_block(SectionOwner::Terrain, 0, 17, 3, -2, 0x0005_0009, needs_callback), Some((0, 0)));
    assert_eq!(region.terrain_serial_callback_sections, 1);
    let key = pack_section_pos(1, 0, -1);
    let slot = (3 * 16 + 14) * 16 + 1;
    assert_eq!(region.main_level_chunks[&key].blocks[slot], (5, 9));
    assert_eq!(region.main_level_chunks[&key].serial_callback_blocks, 1);

    assert_eq!(region.change_block(SectionOwner::Terrain, 0, 17, 3, -2, 0x0002_0000, needs_callback), Some((5, 9)));
    assert_eq!(region.terrain_serial_callback_sections, 0);
    assert_eq!(region.main_level_chunks[&key].serial_callback_blocks, 0);
}

#[test]
fn sub_level_block_change_creates_its_section() {
    let mut region: Region = SableSceneData::new(0, ());
    let never = |_collider: u16| false;
    assert_eq!(region.change_block(SectionOwner::SubLevel, 3, 0, 0, 0, 0x0001_0000, never), None);
    region.level_colliders.insert(3, ActiveLevelColliderInfo::new(None, ()));
    assert_eq!(region.change_block(SectionOwner::SubLevel, 3, 0, 0, 0, 0x0001_0000, never), Some((0, 0)));
    let info = &region.level_colliders[&3];
    let key = pack_section_pos(0, 0, 0);
    assert_eq!(info.chunk_map.as_ref().unwrap()[&key].blocks[0], (1, 0));
    assert!(info.dirty_sections.contains(&key));
    assert_eq!(info.geometry_version, 1);
}

#[test]
fn first_bounds_build_then_later_bounds_grow() {
    let mut info: ActiveLevelColliderInfo<(), ()> = ActiveLevelColliderInfo::new(None, ());
    match info.set_local_bounds(pos(0, 0, 0), pos(15, 3, 3)) {
        OctreeWork::Build { log_size } => assert_eq!(log_size, 4),
        OctreeWork::Grow { .. } => panic!("expected a first octree"),
    }
    assert_eq!(info.octree_origin, Some(pos(0, 0, 0)));
    assert_eq!(info.octree_log_size, Some(4));
    assert_eq!(info.local_bounds_max, Some(pos(15, 3, 3)));

    info.octree = Some(());
    match info.set_local_bounds(pos(-20, 0, 0), pos(40, 15, 15)) {
        OctreeWork::Grow { octants } => assert_eq!(octants, vec![1, 1, 0]),
        OctreeWork::Build { .. } => panic!("expected growth"),
    }
    assert_eq!(info.octree_origin, Some(pos(-48, 0, 0)));
    assert_eq!(info.octree_log_size, Some(7));
    assert_eq!(info.local_bounds_min, Some(pos(-20, 0, 0)));

    match info.set_local_bounds(pos(-1, 0, 0), pos(2, 2, 2)) {
        OctreeWork::Grow { octants } => assert!(octants.is_empty()),
        OctreeWork::Build { .. } => panic!("expected growth"),
    }
    assert_eq!(info.octree_log_size, Some(7));
}

#[test]
fn body_stats_create_and_update_persistent_geometry() {
    let mut universe = Universe::new();
    let com = VectorBits { x: 0.5f64.to_bits(), y: 0, z: 0 };
    assert!(universe.set_body_stats(9, pos(0, 0, 0), pos(3, 3, 3), com));
    assert!(universe.body_geometries.contains_key(&9));
    assert!(!universe.universe_bodies.contains_key(&9));
    assert!(!universe.set_body_stats(9, pos(0, 0, 0), pos(3, 3, 3), com));
    universe.body_geometries.get_mut(&9).unwrap().octree = Some(());
    assert!(universe.set_body_stats(9, pos(0, 0, 0), pos(4, 3, 3), com));
    let g = &universe.body_geometries[&9];
    assert_eq!(g.octree, None);
    assert_eq!(g.local_bounds_max, Some(pos(4, 3, 3)));
    assert_eq!(g.center_of_mass, Some(com));
}

#[test]
fn universe_sub_level_chunks_are_kept_per_body() {
    let mut universe = Universe::new();
    let mut words = air();
    words[1] = 0x0003_0001;
    universe.add_geometry_chunk(4, 0, 1, 0, &words, 1);
    let key = pack_section_pos(0, 1, 0);
    let g = &universe.body_geometries[&4];
    assert_eq!(g.chunk_map.as_ref().unwrap()[&key].blocks[1], (3, 1));
    assert_eq!(g.geometry_version, 1);
    assert!(g.dirty_sections.contains(&key));

    let removed = universe.remove_geometry_chunk(4, 0, 1, 0).unwrap();
    assert_eq!(removed.serial_callback_blocks, 1);
    assert!(universe.body_geometries[&4].chunk_map.as_ref().unwrap().is_empty());
    assert_eq!(universe.body_geometries[&4].geometry_version, 2);
    assert!(universe.remove_geometry_chunk(5, 0, 1, 0).is_none());
    assert!(!universe.body_geometries.contains_key(&5));
}

#[test]
fn eviction_decision_table() {
    let none: Vec<LevelColliderID> = Vec::new();
    let some: Vec<LevelColliderID> = vec![3];
    assert_eq!(eviction_decision(true, true, &none, false), EvictionDecision::Keep);
    assert_eq!(eviction_decision(false, true, &some, false), EvictionDecision::Keep);
    assert_eq!(eviction_decision(false, false, &none, true), EvictionDecision::Keep);
    assert_eq!(eviction_decision(false, true, &none, false), EvictionDecision::Dormant);
    assert_eq!(eviction_decision(false, false, &none, false), EvictionDecision::Ballistic);
}

#[test]
fn due_actions_follow_the_tier() {
    let mut universe = Universe::new();
    universe.universe_bodies.insert(1, body(1, SimulationTier::Dormant));
    universe.universe_bodies.insert(2, body(2, SimulationTier::Ballistic));
    universe.universe_bodies.insert(3, body(3, SimulationTier::Active));
    universe.schedule_body(1, 1);
    universe.schedule_body(2, 2);
    universe.schedule_body(3, 3);
    universe.begin_tick(5);
    assert_eq!(universe.next_due_action(), Some((1, DueAction::Rest)));
    assert_eq!(universe.next_due_action(), Some((2, DueAction::Fly)));
    assert_eq!(universe.next_due_action(), Some((3, DueAction::Rechecked)));
    assert_eq!(universe.universe_bodies[&3].next_update_tick, 5 + ACTIVE_RECHECK_INTERVAL);
    assert!(universe.pending_materializations.contains(&3));
    assert_eq!(universe.materialization_requests.len(), 1);
    assert_eq!(universe.next_due_action(), None);
}

#[test]
fn pose_export_refuses_what_does_not_fit() {
    let pose = |id: i32| ExportPose {
        id,
        position: VectorBits { x: 1.0f64.to_bits(), y: 2.0f64.to_bits(), z: 3.0f64.to_bits() },
        rotation: [0, 0, 0, 1.0f64.to_bits()],
    };
    let poses = vec![pose(4), pose(5)];
    assert_eq!(export_active_poses(&poses, 1, 1000), Err(-2));
    assert_eq!(export_active_poses(&poses, 10, 119), Err(-2));
    let out = export_active_poses(&poses, 2, 120).unwrap();
    assert_eq!(out.len(), 120);
    assert_eq!(&out[0..4], &4i32.to_ne_bytes());
    assert_eq!(&out[60..64], &5i32.to_ne_bytes());
    assert_eq!(&out[4..12], &1.0f64.to_bits().to_ne_bytes());
    assert_eq!(export_active_poses(&Vec::new(), 0, 0).unwrap().len(), 0);
}

#[test]
fn bounds_fit_until_growth_runs_out_of_range() {
    let mut info: ActiveLevelColliderInfo<(), ()> = ActiveLevelColliderInfo::new(None, ());
    assert!(info.local_bounds_fit(pos(0, 0, 0), pos(15, 3, 3)));
    assert!(!info.local_bounds_fit(pos(i32::MIN, 0, 0), pos(i32::MAX, 0, 0)));
    assert!(!info.local_bounds_fit(pos(1, 1, 1), pos(0, 0, 0)));
    info.set_local_bounds(pos(0, 0, 0), pos(15, 3, 3));
    info.octree = Some(());
    assert!(info.local_bounds_fit(pos(-20, 0, 0), pos(40, 15, 15)));
    assert!(!info.local_bounds_fit(pos(0, 0, 0), pos(1 << 30, 0, 0)));
    info.octree_origin = Some(pos(i32::MIN + 4, 0, 0));
    assert!(!info.local_bounds_fit(pos(i32::MIN, 0, 0), pos(0, 0, 0)));
}

#[test]
fn region_geometry_is_kept_when_a_body_leaves() {
    let mut universe = Universe::new();
    let words = air();
    universe.add_geometry_chunk(6, 0, 0, 0, &words, 0);
    let mut info: ActiveLevelColliderInfo<(), ()> = ActiveLevelColliderInfo::new(None, ());
    info.set_local_bounds(pos(-2, -2, -2), pos(2, 2, 2));
    info.geometry_version = 9;
    universe.keep_region_geometry(6, info);
    let g = &universe.body_geometries[&6];
    assert_eq!(g.local_bounds_min, Some(pos(-2, -2, -2)));
    assert_eq!(g.octree_origin, Some(pos(-2, -2, -2)));
    assert_eq!(g.octree_log_size, Some(3));
    assert_eq!(g.geometry_version, 9);
    assert!(g.chunk_map.as_ref().unwrap().contains_key(&pack_section_pos(0, 0, 0)));
}

#[test]
fn universe_sub_level_block_edits_create_and_count() {
    let mut universe = Universe::new();
    let calls_back = |collider: u16| collider == 7;
    assert_eq!(universe.change_geometry_block(2, 5, 5, 5, 0x0007_0000, calls_back), None);
    assert!(!universe.body_geometries.contains_key(&2));

    universe.set_body_stats(2, pos(0, 0, 0), pos(15, 15, 15), VectorBits { x: 0, y: 0, z: 0 });
    assert_eq!(universe.change_geometry_block(2, 5, 5, -1, 0x0007_0002, calls_back), Some((0, 0)));
    let key = pack_section_pos(0, 0, -1);
    let slot = (5 * 16 + 15) * 16 + 5;
    let g = &universe.body_geometries[&2];
    let section = &g.chunk_map.as_ref().unwrap()[&key];
    assert_eq!(section.blocks[slot], (7, 2));
    assert_eq!(section.serial_callback_blocks, 1);
    assert!(g.dirty_sections.contains(&key));
    assert_eq!(g.geometry_version, 1);

    assert_eq!(universe.change_geometry_block(2, 5, 5, -1, 0, calls_back), Some((7, 2)));
    let section = &universe.body_geometries[&2].chunk_map.as_ref().unwrap()[&key];
    assert_eq!(section.serial_callback_blocks, 0);
    assert_eq!(universe.change_geometry_block(2, 5, 5, -1, 0, calls_back), Some((0, 0)));
    assert_eq!(universe.body_geometries[&2].geometry_version, 3);
}

#[test]
fn sub_level_edits_touch_one_section() {
    let mut region: Region = SableSceneData::new(0, ());
    region.level_colliders.insert(8, ActiveLevelColliderInfo::new(None, ()));
    region.level_colliders.insert(9, ActiveLevelColliderInfo::new(None, ()));
    let mut words = air();
    words[0] = 0x0004_0000;
    region.add_chunk(SectionOwner::SubLevel, 8, 0, 0, 0, &words, 0);
    region.add_chunk(SectionOwner::SubLevel, 8, 1, 0, 0, &words, 0);
    region.level_colliders.get_mut(&8).unwrap().dirty_sections.clear();
    let never = |_collider: u16| false;
    region.change_block(SectionOwner::SubLevel, 8, 16, 0, 0, 0, never);
    let info = &region.level_colliders[&8];
    let map = info.chunk_map.as_ref().unwrap();
    assert_eq!(map[&pack_section_pos(0, 0, 0)].blocks[0], (4, 0));
    assert_eq!(map[&pack_section_pos(1, 0, 0)].blocks[0], (0, 0));
    assert_eq!(info.dirty_sections.len(), 1);
    assert!(info.dirty_sections.contains(&pack_section_pos(1, 0, 0)));
    assert_eq!(info.geometry_version, 3);
    assert!(region.level_colliders[&9].chunk_map.is_none());
}

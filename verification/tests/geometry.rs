use std::collections::HashMap;
use worldengine_rapier::callbacks::{decode_block, SableSceneData, SectionOwner};
use worldengine_rapier::command::VectorBits;
use worldengine_rapier::geometry::{
    initial_octree_log_size, octree_growth_step, ActiveLevelColliderInfo, BlockPos, PersistentBodyGeometry,
};
use worldengine_rapier::section::{is_inside_terrain_domain, pack_section_pos};

type Region = SableSceneData<(), (), ()>;

fn pos(x: i32, y: i32, z: i32) -> BlockPos {
    BlockPos { x, y, z }
}

#[test]
fn dirty_section_tracking_is_incremental_and_persistent() {
    let mut info: ActiveLevelColliderInfo<HashMap<i64, ()>, ()> = ActiveLevelColliderInfo::new(None, ());
    info.chunk_map = Some(HashMap::new());
    info.mark_section_dirty(4, -2, 9);
    info.mark_section_dirty(4, -2, 9);
    info.mark_section_dirty(5, -2, 9);

    assert_eq!(info.geometry_version, 3);
    assert_eq!(info.dirty_sections.len(), 2);
    assert!(info.dirty_sections.contains(&pack_section_pos(4, -2, 9)));
    assert!(info.has_own_chunks());
}

#[test]
fn serial_step_refcounting_tracks_section_callbacks() {
    let mut sable: Region = SableSceneData::new(0, ());
    assert!(sable.can_parallel_step());

    sable.terrain_serial_callback_sections += 1;
    assert!(!sable.can_parallel_step());

    sable.terrain_serial_callback_sections = sable.terrain_serial_callback_sections.saturating_sub(1);
    assert!(sable.can_parallel_step());
}

#[test]
fn geometry_version_wraps_and_sections_dedupe() {
    let mut geom: PersistentBodyGeometry<()> = PersistentBodyGeometry::new();
    geom.geometry_version = u64::MAX;
    geom.mark_section_dirty(-1, 0, 1);
    geom.mark_section_dirty(-1, 0, 1);
    assert_eq!(geom.geometry_version, 1);
    assert_eq!(geom.dirty_sections.len(), 1);
}

#[test]
fn local_bounds_containment() {
    let mut info: ActiveLevelColliderInfo<(), ()> = ActiveLevelColliderInfo::new(None, ());
    assert!(!info.has_own_chunks());
    assert!(!info.contains(0, 0, 0));
    info.local_bounds_min = Some(pos(-1, -1, -1));
    assert!(!info.contains(0, 0, 0));
    info.local_bounds_max = Some(pos(1, 2, 3));
    assert!(info.contains(0, 0, 0));
    assert!(info.contains(-1, 2, 3));
    assert!(!info.contains(2, 0, 0));
    assert!(!info.contains(0, -2, 0));
}

#[test]
fn octree_grows_towards_negative_bounds() {
    assert_eq!(octree_growth_step(pos(0, 0, 0), 4, pos(0, 0, 0), pos(15, 15, 15)), None);
    assert_eq!(
        octree_growth_step(pos(0, 0, 0), 4, pos(0, 0, 0), pos(16, 0, 0)),
        Some((0, pos(0, 0, 0)))
    );
    assert_eq!(
        octree_growth_step(pos(0, 0, 0), 4, pos(-1, 0, 0), pos(15, 15, 15)),
        Some((1, pos(-16, 0, 0)))
    );
    assert_eq!(
        octree_growth_step(pos(0, 0, 0), 4, pos(-1, -1, -1), pos(0, 0, 0)),
        Some((7, pos(-16, -16, -16)))
    );
    let mut origin = pos(0, 0, 0);
    let mut log_size = 4u32;
    let mut octants = Vec::new();
    while let Some((octant, next)) = octree_growth_step(origin, log_size, pos(-20, 0, 0), pos(40, 15, 15)) {
        octants.push(octant);
        origin = next;
        log_size += 1;
    }
    assert_eq!(octants, vec![1, 1, 0]);
    assert_eq!(origin, pos(-48, 0, 0));
    assert_eq!(log_size, 7);
}

#[test]
fn section_replacement_counts_callback_sections() {
    let mut sable: Region = SableSceneData::new(5, ());
    sable.replace_section(SectionOwner::Terrain, None, Some(3));
    sable.replace_section(SectionOwner::SubLevel, None, Some(1));
    assert_eq!(sable.terrain_serial_callback_sections, 1);
    assert_eq!(sable.sublevel_serial_callback_sections, 1);
    sable.replace_section(SectionOwner::Terrain, Some(3), Some(2));
    assert_eq!(sable.terrain_serial_callback_sections, 1);
    sable.replace_section(SectionOwner::Terrain, Some(2), Some(0));
    assert_eq!(sable.terrain_serial_callback_sections, 0);
    sable.replace_section(SectionOwner::Terrain, Some(9), None);
    assert_eq!(sable.terrain_serial_callback_sections, 0);
    sable.replace_section(SectionOwner::SubLevel, Some(1), None);
    assert!(sable.can_parallel_step());
}

#[test]
fn block_changes_track_callback_blocks() {
    let mut sable: Region = SableSceneData::new(0, ());
    let mut blocks: u16 = 0;
    sable.block_callback_changed(SectionOwner::Terrain, &mut blocks, false, true);
    sable.block_callback_changed(SectionOwner::Terrain, &mut blocks, false, true);
    assert_eq!((sable.terrain_serial_callback_sections, blocks), (1, 2));
    sable.block_callback_changed(SectionOwner::Terrain, &mut blocks, true, true);
    assert_eq!((sable.terrain_serial_callback_sections, blocks), (1, 2));
    sable.block_callback_changed(SectionOwner::Terrain, &mut blocks, true, false);
    assert_eq!((sable.terrain_serial_callback_sections, blocks), (1, 1));
    sable.block_callback_changed(SectionOwner::Terrain, &mut blocks, true, false);
    assert_eq!((sable.terrain_serial_callback_sections, blocks), (0, 0));
    assert!(sable.can_parallel_step());
}

#[test]
fn merging_and_rebasing_move_counts() {
    let mut a: Region = SableSceneData::new(1, ());
    let mut b: Region = SableSceneData::new(2, ());
    a.add_sublevel_sections(2);
    b.add_sublevel_sections(3);
    b.replace_section(SectionOwner::Terrain, None, Some(1));
    a.absorb_sublevel_sections(&mut b);
    assert_eq!(a.sublevel_serial_callback_sections, 5);
    assert_eq!(b.sublevel_serial_callback_sections, 0);
    assert_eq!(b.terrain_serial_callback_sections, 1);
    b.clear_terrain_sections();
    assert!(b.can_parallel_step());
    let mut full: Region = SableSceneData::new(3, ());
    full.add_sublevel_sections(u32::MAX);
    full.absorb_sublevel_sections(&mut a);
    assert_eq!(full.sublevel_serial_callback_sections, u32::MAX);
}

#[test]
fn block_words_split_in_half() {
    assert_eq!(decode_block(0x0003_0007), (3, 7));
    assert_eq!(decode_block(-1), (0xFFFF, 0xFFFF));
    assert_eq!(decode_block(0x7FFF_0000), (0x7FFF, 0));
}

#[test]
fn section_keys_pack_coordinates() {
    assert_eq!(pack_section_pos(0, 0, 0), 0);
    assert_eq!(pack_section_pos(1, 0, 0), 1i64 << 42);
    assert_eq!(pack_section_pos(0, 1, 0), 1);
    assert_eq!(pack_section_pos(0, 0, 1), 1i64 << 20);
    assert_eq!(pack_section_pos(-1, -1, -1), -1);
    assert_ne!(pack_section_pos(4, -2, 9), pack_section_pos(5, -2, 9));
    assert_eq!(pack_section_pos(1 << 22, 0, 0), pack_section_pos(0, 0, 0));
}

#[test]
fn terrain_domain_bounds() {
    assert!(is_inside_terrain_domain(1_875_000, 128, -1_875_000));
    assert!(!is_inside_terrain_domain(1_875_001, 0, 0));
    assert!(!is_inside_terrain_domain(0, -129, 0));
    assert!(!is_inside_terrain_domain(0, 0, -1_875_001));
}

#[test]
fn first_octree_holds_longest_side() {
    assert_eq!(initial_octree_log_size(pos(0, 0, 0), pos(0, 0, 0)), 0);
    assert_eq!(initial_octree_log_size(pos(-1, -1, -1), pos(1, 1, 1)), 2);
    assert_eq!(initial_octree_log_size(pos(0, 0, 0), pos(15, 3, 3)), 4);
    assert_eq!(initial_octree_log_size(pos(0, 0, 0), pos(16, 3, 3)), 5);
    assert_eq!(initial_octree_log_size(pos(0, -100, 0), pos(0, 99, 5)), 8);
}

#[test]
fn new_bounds_reset_the_octree_origin() {
    let mut geom: PersistentBodyGeometry<()> = PersistentBodyGeometry::new();
    let com = VectorBits { x: 0.5f64.to_bits(), y: 0, z: 0 };
    assert!(geom.set_local_bounds(pos(0, 0, 0), pos(3, 3, 3), com));
    geom.octree_origin = Some(pos(0, 0, 0));
    assert!(!geom.set_local_bounds(pos(0, 0, 0), pos(3, 3, 3), com));
    assert_eq!(geom.octree_origin, Some(pos(0, 0, 0)));
    assert!(geom.set_local_bounds(pos(0, 0, 0), pos(4, 3, 3), com));
    assert_eq!(geom.octree_origin, None);
    assert_eq!(geom.local_bounds_max, Some(pos(4, 3, 3)));
    assert_eq!(geom.center_of_mass, Some(com));
}

#[test]
fn universe_side_section_exchange_moves_by_difference() {
    let mut sable: Region = SableSceneData::new(0, ());
    sable.exchange_sublevel_section(false, true);
    sable.exchange_sublevel_section(true, true);
    assert_eq!(sable.sublevel_serial_callback_sections, 1);
    sable.exchange_sublevel_section(true, false);
    sable.exchange_sublevel_section(true, false);
    assert_eq!(sable.sublevel_serial_callback_sections, 0);
    sable.exchange_sublevel_section(false, false);
    assert!(sable.can_parallel_step());
}

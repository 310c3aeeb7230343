//! The block geometry that the universe keeps for each body: its local
//! bounds and centre of mass, and its own sections with their change
//! tracking. A body's entry is created on first use, even before the body
//! itself is registered.

use vstd::prelude::*;
use std::collections::{HashMap, HashSet};
use crate::callbacks::{block_parts, decode_block};
use crate::chunks::{block_section_key, block_slot, block_slot_exec, decoded_blocks, empty_blocks, empty_section, section_in, sections_of};
use crate::command::VectorBits;
use crate::geometry::{
    first_octree_fits, is_first_octree_size, octree_fits, ActiveLevelColliderInfo, BlockPos, ChunkSection, OctreeWork,
    PersistentBodyGeometry, SECTION_BLOCKS,
};
use rapier3d::geometry::ColliderHandle;
use crate::section::{pack_section_pos, section_key};
use crate::universe::{DimensionUniverse, LevelColliderID};

verus! {

broadcast use vstd::std_specs::hash::group_hash_axioms;

impl<P, B, O> DimensionUniverse<P, B, O> {
    /// Everything but the geometry table agrees.
    pub open spec fn same_but_geometries(self, other: Self) -> bool {
        &&& self.universe_bodies@ == other.universe_bodies@
        &&& self.scheduled() == other.scheduled()
        &&& self.spatial_index == other.spatial_index
        &&& self.current_tick == other.current_tick
        &&& self.pose_dirty_bodies@ == other.pose_dirty_bodies@
        &&& self.pending_command_bodies@ == other.pending_command_bodies@
        &&& self.materialization_requests@ == other.materialization_requests@
        &&& self.pending_materializations@ == other.pending_materializations@
        &&& self.eviction_events@ == other.eviction_events@
        &&& self.pending_evictions@ == other.pending_evictions@
        &&& self.terrain_sections@ == other.terrain_sections@
    }

    fn take_geometry(&mut self, id: LevelColliderID) -> (g: PersistentBodyGeometry<O>)
        requires
            old(self).wf(),
        ensures
            final(self).wf(),
            old(self).body_geometries@.contains_key(id) ==> g == old(self).body_geometries@[id],
            !old(self).body_geometries@.contains_key(id) ==> {
                &&& g.local_bounds_min is None
                &&& g.local_bounds_max is None
                &&& g.octree_origin is None
                &&& g.octree_log_size is None
                &&& g.center_of_mass is None
                &&& g.chunk_map is None
                &&& g.geometry_version == 0
                &&& g.dirty_sections@ == Set::<i64>::empty()
                &&& g.octree is None
                &&& g.section_octrees@ == Map::<i64, O>::empty()
            },
            final(self).body_geometries@ == old(self).body_geometries@.remove(id),
            final(self).same_but_geometries(*old(self)),
    {
        match self.body_geometries.remove(&id) {
            Some(g) => g,
            None => PersistentBodyGeometry::new(),
        }
    }

    fn put_geometry(&mut self, id: LevelColliderID, g: PersistentBodyGeometry<O>)
        requires
            old(self).wf(),
        ensures
            final(self).wf(),
            final(self).body_geometries@ == old(self).body_geometries@.insert(id, g),
            final(self).same_but_geometries(*old(self)),
    {
        self.body_geometries.insert(id, g);
    }

    /// Records the local bounds `[min, max]` and centre of mass `com` of
    /// body `id`, creating its geometry entry if it has none, and returns
    /// whether the bounds changed. When they did, the body's octrees are
    /// dropped, to be rebuilt for the new bounds.
    pub fn set_body_stats(&mut self, id: LevelColliderID, min: BlockPos, max: BlockPos, com: VectorBits) -> (changed: bool)
        requires
            old(self).wf(),
        ensures
            final(self).wf(),
            final(self).same_but_geometries(*old(self)),
            final(self).body_geometries@.dom() == old(self).body_geometries@.dom().insert(id),
            final(self).body_geometries@.remove(id) == old(self).body_geometries@.remove(id),
            ({
                let known = old(self).body_geometries@.contains_key(id);
                let g0 = old(self).body_geometries@[id];
                let g1 = final(self).body_geometries@[id];
                &&& changed == (!known || g0.local_bounds_min != Some(min) || g0.local_bounds_max != Some(max))
                &&& g1.local_bounds_min == Some(min)
                &&& g1.local_bounds_max == Some(max)
                &&& g1.center_of_mass == Some(com)
                &&& changed ==> g1.octree is None && g1.section_octrees@ == Map::<i64, O>::empty()
                    && g1.octree_origin is None && g1.octree_log_size is None
                &&& !changed ==> g1.octree == g0.octree && g1.section_octrees == g0.section_octrees
                    && g1.octree_origin == g0.octree_origin && g1.octree_log_size == g0.octree_log_size
                &&& known ==> g1.chunk_map == g0.chunk_map && g1.geometry_version == g0.geometry_version
                    && g1.dirty_sections@ == g0.dirty_sections@
                &&& !known ==> g1.chunk_map is None && g1.geometry_version == 0
                    && g1.dirty_sections@ == Set::<i64>::empty()
            }),
    {
        let mut g = self.take_geometry(id);
        let changed = g.set_local_bounds(min, max, com);
        self.put_geometry(id, g);
        proof {
            assert(self.body_geometries@.remove(id) =~= old(self).body_geometries@.remove(id));
            assert(self.body_geometries@.dom() =~= old(self).body_geometries@.dom().insert(id));
        }
        changed
    }

    /// Stores section `(x, y, z)` of body `id`'s own blocks from its 4096
    /// block words, `callback_blocks` of which need a JVM callback, creating
    /// the body's geometry entry and chunk map if needed, and marks the
    /// section dirty.
    pub fn add_geometry_chunk(&mut self, id: LevelColliderID, x: i32, y: i32, z: i32, words: &Vec<i32>, callback_blocks: u16)
        requires
            old(self).wf(),
            words@.len() == SECTION_BLOCKS,
        ensures
            final(self).wf(),
            final(self).same_but_geometries(*old(self)),
            final(self).body_geometries@.dom() == old(self).body_geometries@.dom().insert(id),
            final(self).body_geometries@.remove(id) == old(self).body_geometries@.remove(id),
            ({
                let known = old(self).body_geometries@.contains_key(id);
                let g0 = old(self).body_geometries@[id];
                let g1 = final(self).body_geometries@[id];
                let key = section_key(x, y, z);
                let before = if known { sections_of(g0.chunk_map) } else { Map::empty() };
                &&& g1.chunk_map is Some
                &&& sections_of(g1.chunk_map).remove(key) == before.remove(key)
                &&& sections_of(g1.chunk_map).contains_key(key)
                &&& sections_of(g1.chunk_map)[key].blocks@ == decoded_blocks(words@)
                &&& sections_of(g1.chunk_map)[key].serial_callback_blocks == callback_blocks
                &&& g1.dirty_sections@ == (if known { g0.dirty_sections@ } else { Set::empty() }).insert(key)
                &&& g1.geometry_version == (if known { g0.geometry_version } else { 0u64 }).wrapping_add(1)
                &&& known ==> g1.local_bounds_min == g0.local_bounds_min && g1.local_bounds_max == g0.local_bounds_max
                    && g1.octree == g0.octree && g1.octree_origin == g0.octree_origin
            }),
    {
        let mut g = self.take_geometry(id);
        let (blocks, _solid) = crate::chunks::decode_words(words);
        let key = pack_section_pos(x, y, z);
        let mut map = match g.chunk_map.take() {
            Some(m) => m,
            None => HashMap::new(),
        };
        let ghost m0 = map@;
        map.insert(key, ChunkSection { blocks, serial_callback_blocks: callback_blocks });
        g.chunk_map = Some(map);
        g.mark_section_dirty(x, y, z);
        self.put_geometry(id, g);
        proof {
            assert(self.body_geometries@.remove(id) =~= old(self).body_geometries@.remove(id));
            assert(self.body_geometries@.dom() =~= old(self).body_geometries@.dom().insert(id));
            assert(sections_of(self.body_geometries@[id].chunk_map).remove(key) =~= m0.remove(key));
        }
    }

    /// Drops section `(x, y, z)` of body `id`'s own blocks, when the body
    /// has a geometry entry, and marks the section dirty. Returns the
    /// section dropped.
    pub fn remove_geometry_chunk(&mut self, id: LevelColliderID, x: i32, y: i32, z: i32) -> (removed: Option<ChunkSection>)
        requires
            old(self).wf(),
        ensures
            final(self).wf(),
            final(self).same_but_geometries(*old(self)),
            !old(self).body_geometries@.contains_key(id) ==> removed is None
                && final(self).body_geometries@ == old(self).body_geometries@,
            old(self).body_geometries@.contains_key(id) ==> {
                let g0 = old(self).body_geometries@[id];
                let g1 = final(self).body_geometries@[id];
                let key = section_key(x, y, z);
                &&& final(self).body_geometries@.dom() == old(self).body_geometries@.dom()
                &&& final(self).body_geometries@.remove(id) == old(self).body_geometries@.remove(id)
                &&& removed == (if sections_of(g0.chunk_map).contains_key(key) { Some(sections_of(g0.chunk_map)[key]) } else { None })
                &&& g1.chunk_map is Some == g0.chunk_map is Some
                &&& sections_of(g1.chunk_map) == sections_of(g0.chunk_map).remove(key)
                &&& g1.dirty_sections@ == g0.dirty_sections@.insert(key)
                &&& g1.geometry_version == g0.geometry_version.wrapping_add(1)
                &&& g1.local_bounds_min == g0.local_bounds_min && g1.local_bounds_max == g0.local_bounds_max
                &&& g1.octree == g0.octree && g1.octree_origin == g0.octree_origin
            },
    {
        if !self.body_geometries.contains_key(&id) {
            return None;
        }
        let mut g = self.take_geometry(id);
        let key = pack_section_pos(x, y, z);
        let removed = match g.chunk_map.take() {
            Some(mut m) => {
                let r = m.remove(&key);
                g.chunk_map = Some(m);
                r
            },
            None => None,
        };
        g.mark_section_dirty(x, y, z);
        self.put_geometry(id, g);
        proof {
            assert(self.body_geometries@.remove(id) =~= old(self).body_geometries@.remove(id));
            assert(self.body_geometries@.dom() =~= old(self).body_geometries@.dom());
            assert(sections_of(self.body_geometries@[id].chunk_map) =~= sections_of(old(self).body_geometries@[id].chunk_map).remove(key));
        }
        removed
    }

    /// Keeps the block geometry `info` that a region held for body `id`
    /// when the body leaves it: bounds, centre of mass, octrees and their
    /// cube, and change tracking replace those stored for the body (an
    /// entry is created if it had none), and its chunks replace the stored
    /// ones when it has any.
    pub fn keep_region_geometry<S>(&mut self, id: LevelColliderID, info: ActiveLevelColliderInfo<O, S>)
        requires
            old(self).wf(),
        ensures
            final(self).wf(),
            final(self).same_but_geometries(*old(self)),
            final(self).body_geometries@.dom() == old(self).body_geometries@.dom().insert(id),
            final(self).body_geometries@.remove(id) == old(self).body_geometries@.remove(id),
            ({
                let g = final(self).body_geometries@[id];
                &&& g.local_bounds_min == info.local_bounds_min
                &&& g.local_bounds_max == info.local_bounds_max
                &&& g.center_of_mass == info.center_of_mass
                &&& g.octree == info.octree
                &&& g.section_octrees == info.section_octrees
                &&& g.octree_origin == info.octree_origin
                &&& g.octree_log_size == info.octree_log_size
                &&& g.geometry_version == info.geometry_version
                &&& g.dirty_sections == info.dirty_sections
                &&& g.chunk_map == if info.chunk_map is Some {
                    info.chunk_map
                } else if old(self).body_geometries@.contains_key(id) {
                    old(self).body_geometries@[id].chunk_map
                } else {
                    None
                }
            }),
    {
        let mut g = self.take_geometry(id);
        g.local_bounds_min = info.local_bounds_min;
        g.local_bounds_max = info.local_bounds_max;
        g.center_of_mass = info.center_of_mass;
        g.octree = info.octree;
        g.section_octrees = info.section_octrees;
        g.octree_origin = info.octree_origin;
        g.octree_log_size = info.octree_log_size;
        g.geometry_version = info.geometry_version;
        g.dirty_sections = info.dirty_sections;
        if info.chunk_map.is_some() {
            g.chunk_map = info.chunk_map;
        }
        self.put_geometry(id, g);
        proof {
            assert(self.body_geometries@.remove(id) =~= old(self).body_geometries@.remove(id));
            assert(self.body_geometries@.dom() =~= old(self).body_geometries@.dom().insert(id));
        }
    }

    /// The blocks and callback-block count that an edit of block
    /// `(x, y, z)` of body `id`'s own geometry starts from: those of its
    /// stored section, or an empty section when none is stored; `None`
    /// when the body has no geometry entry.
    pub open spec fn geometry_edit_base(self, id: LevelColliderID, x: i32, y: i32, z: i32) -> Option<(Seq<(u16, u16)>, u16)> {
        if self.body_geometries@.contains_key(id) {
            match section_in(self.body_geometries@[id].chunk_map, block_section_key(x, y, z)) {
                Some(s) => Some((s.blocks@, s.serial_callback_blocks)),
                None => Some((empty_blocks(), 0u16)),
            }
        } else {
            None
        }
    }

    /// Sets block `(x, y, z)` of body `id`'s own geometry to the block word
    /// `block` and returns the block it replaced, creating the section
    /// (empty) and the chunk map when missing, and marks the section dirty.
    /// When the block's collider changes between needing a JVM callback
    /// and not, as `requires_callback` answers, the section's count of
    /// callback blocks follows, stopping at zero. Nothing changes, and
    /// `None` is returned, for a body with no geometry entry.
    pub fn change_geometry_block<F: Fn(u16) -> bool>(
        &mut self,
        id: LevelColliderID,
        x: i32,
        y: i32,
        z: i32,
        block: i32,
        requires_callback: F,
    ) -> (replaced: Option<(u16, u16)>)
        requires
            old(self).wf(),
            forall|c: u16| requires_callback.requires((c,)),
            old(self).geometry_edit_base(id, x, y, z) matches Some((blocks, serial)) ==> {
                &&& blocks.len() == SECTION_BLOCKS
                &&& forall|r1: bool, r2: bool| requires_callback.ensures((blocks[block_slot(x, y, z)].0,), r1)
                    && requires_callback.ensures((block_parts(block).0,), r2) && r2 && !r1 ==> serial < u16::MAX
            },
        ensures
            final(self).wf(),
            final(self).same_but_geometries(*old(self)),
            old(self).geometry_edit_base(id, x, y, z) is None ==> {
                &&& replaced is None
                &&& final(self).body_geometries@ == old(self).body_geometries@
            },
            old(self).geometry_edit_base(id, x, y, z) matches Some((blocks, serial)) ==> {
                let key = block_section_key(x, y, z);
                let slot = block_slot(x, y, z);
                let g0 = old(self).body_geometries@[id];
                let g1 = final(self).body_geometries@[id];
                &&& replaced == Some(blocks[slot])
                &&& final(self).body_geometries@.dom() == old(self).body_geometries@.dom()
                &&& final(self).body_geometries@.remove(id) == old(self).body_geometries@.remove(id)
                &&& g1.chunk_map is Some
                &&& sections_of(g1.chunk_map).remove(key) == sections_of(g0.chunk_map).remove(key)
                &&& sections_of(g1.chunk_map).contains_key(key)
                &&& sections_of(g1.chunk_map)[key].blocks@ == blocks.update(slot, block_parts(block))
                &&& exists|r1: bool, r2: bool| {
                    &&& requires_callback.ensures((blocks[slot].0,), r1)
                    &&& requires_callback.ensures((block_parts(block).0,), r2)
                    &&& sections_of(g1.chunk_map)[key].serial_callback_blocks as int == if r1 == r2 {
                        serial as int
                    } else if r2 {
                        serial + 1
                    } else if serial == 0 {
                        0
                    } else {
                        serial - 1
                    }
                }
                &&& g1.dirty_sections@ == g0.dirty_sections@.insert(key)
                &&& g1.geometry_version == g0.geometry_version.wrapping_add(1)
                &&& g1.local_bounds_min == g0.local_bounds_min && g1.local_bounds_max == g0.local_bounds_max
                &&& g1.center_of_mass == g0.center_of_mass
                &&& g1.octree == g0.octree && g1.section_octrees == g0.section_octrees
                &&& g1.octree_origin == g0.octree_origin && g1.octree_log_size == g0.octree_log_size
            },
    {
        if !self.body_geometries.contains_key(&id) {
            return None;
        }
        let ghost base = self.geometry_edit_base(id, x, y, z)->0;
        let cx = x >> 4u32;
        let cy = y >> 4u32;
        let cz = z >> 4u32;
        let key = pack_section_pos(cx, cy, cz);
        let slot = block_slot_exec(x, y, z);
        let mut g = self.take_geometry(id);
        let ghost g0 = g;
        let mut map = match g.chunk_map.take() {
            Some(m) => m,
            None => HashMap::new(),
        };
        let ghost m0 = map@;
        let mut section = match map.remove(&key) {
            Some(sec) => sec,
            None => empty_section(),
        };
        assert(section.blocks@ == base.0 && section.serial_callback_blocks == base.1);
        let old_block = section.blocks[slot];
        let new_block = decode_block(block);
        section.blocks.set(slot, new_block);
        let r1 = requires_callback(old_block.0);
        let r2 = requires_callback(new_block.0);
        if r1 != r2 {
            if r2 {
                section.serial_callback_blocks = section.serial_callback_blocks + 1;
            } else {
                section.serial_callback_blocks = section.serial_callback_blocks.saturating_sub(1);
            }
        }
        let ghost sec = section;
        map.insert(key, section);
        g.chunk_map = Some(map);
        g.mark_section_dirty(cx, cy, cz);
        self.put_geometry(id, g);
        proof {
            assert(sections_of(self.body_geometries@[id].chunk_map) =~= sections_of(g0.chunk_map).insert(key, sec));
            assert(sections_of(self.body_geometries@[id].chunk_map).remove(key) =~= sections_of(g0.chunk_map).remove(key));
            assert(sec.blocks@ =~= base.0.update(slot as int, block_parts(block)));
            assert(self.body_geometries@.remove(id) =~= old(self).body_geometries@.remove(id));
            assert(self.body_geometries@.dom() =~= old(self).body_geometries@.dom());
        }
        Some(old_block)
    }

    /// Records in body `id`'s stored geometry the octrees that a region
    /// built for it and their cube, and clears its dirty marks, when the
    /// body has a geometry entry; nothing changes otherwise.
    pub fn keep_octree(
        &mut self,
        id: LevelColliderID,
        octree: Option<O>,
        section_octrees: HashMap<i64, O>,
        origin: Option<BlockPos>,
        log_size: Option<u32>,
    )
        requires
            old(self).wf(),
        ensures
            final(self).wf(),
            final(self).same_but_geometries(*old(self)),
            !old(self).body_geometries@.contains_key(id) ==> final(self).body_geometries@ == old(self).body_geometries@,
            old(self).body_geometries@.contains_key(id) ==> {
                let g0 = old(self).body_geometries@[id];
                let g1 = final(self).body_geometries@[id];
                &&& final(self).body_geometries@.dom() == old(self).body_geometries@.dom()
                &&& final(self).body_geometries@.remove(id) == old(self).body_geometries@.remove(id)
                &&& g1 == (PersistentBodyGeometry {
                    octree,
                    section_octrees: g1.section_octrees,
                    octree_origin: origin,
                    octree_log_size: log_size,
                    dirty_sections: g1.dirty_sections,
                    ..g0
                })
                &&& g1.section_octrees@ == section_octrees@
                &&& g1.dirty_sections@ == Set::<i64>::empty()
            },
    {
        if !self.body_geometries.contains_key(&id) {
            return;
        }
        let mut g = self.take_geometry(id);
        g.octree = octree;
        g.section_octrees = section_octrees;
        g.octree_origin = origin;
        g.octree_log_size = log_size;
        g.dirty_sections = HashSet::new();
        self.put_geometry(id, g);
        proof {
            assert(self.body_geometries@.remove(id) =~= old(self).body_geometries@.remove(id));
            assert(self.body_geometries@.dom() =~= old(self).body_geometries@.dom());
        }
    }

    /// What an edit of block `(x, y, z)` of body `id`'s own geometry starts
    /// from: the block there and its section's count of callback blocks;
    /// `None` when the body has no geometry entry.
    pub fn geometry_edit_start(&self, id: LevelColliderID, x: i32, y: i32, z: i32) -> (r: Option<((u16, u16), u16)>)
        requires
            self.geometry_edit_base(id, x, y, z) matches Some((blocks, _)) ==> blocks.len() == SECTION_BLOCKS,
        ensures
            r == match self.geometry_edit_base(id, x, y, z) {
                Some((blocks, serial)) => Some((blocks[block_slot(x, y, z)], serial)),
                None => None::<((u16, u16), u16)>,
            },
    {
        let key = pack_section_pos(x >> 4u32, y >> 4u32, z >> 4u32);
        let slot = block_slot_exec(x, y, z);
        match self.body_geometries.get(&id) {
            Some(g) => {
                let found = match &g.chunk_map {
                    Some(m) => m.get(&key),
                    None => None,
                };
                match found {
                    Some(section) => Some((section.blocks[slot], section.serial_callback_blocks)),
                    None => Some(((0u16, 0u16), 0u16)),
                }
            },
            None => None,
        }
    }
}

/// The corner blocks of the unit box that a body without bounds is given.
pub open spec fn unit_min() -> BlockPos {
    BlockPos { x: -1i32, y: -1i32, z: -1i32 }
}

/// See `unit_min`.
pub open spec fn unit_max() -> BlockPos {
    BlockPos { x: 1i32, y: 1i32, z: 1i32 }
}

/// The bounds a region gives a body with stored geometry `g` (or none):
/// its recorded bounds, or the unit box where they are not set.
pub open spec fn region_bounds<O>(g: Option<PersistentBodyGeometry<O>>) -> (BlockPos, BlockPos) {
    match g {
        Some(g) => (
            match g.local_bounds_min { Some(m) => m, None => unit_min() },
            match g.local_bounds_max { Some(m) => m, None => unit_max() },
        ),
        None => (unit_min(), unit_max()),
    }
}

/// A region must plan a new octree for a body with stored geometry `g`:
/// it has none stored, or its stored octree is missing or stale.
pub open spec fn needs_new_octree<O>(g: Option<PersistentBodyGeometry<O>>) -> bool {
    match g {
        Some(g) => g.octree is None || g.dirty_sections@.len() != 0,
        None => true,
    }
}

impl<P, B, O: Copy> DimensionUniverse<P, B, O> {
    /// The stored geometry of body `id`, if any.
    pub open spec fn stored_geometry(self, id: LevelColliderID) -> Option<PersistentBodyGeometry<O>> {
        if self.body_geometries@.contains_key(id) { Some(self.body_geometries@[id]) } else { None }
    }

    /// Whether a region can take in body `id`'s geometry: a new octree, where
    /// one is needed, fits its bounds.
    pub fn region_geometry_fits(&self, id: LevelColliderID) -> (r: bool)
        ensures
            r == (needs_new_octree(self.stored_geometry(id)) ==> {
                let (min, max) = region_bounds(self.stored_geometry(id));
                first_octree_fits(min, max)
            }),
    {
        let unit_lo = BlockPos { x: -1, y: -1, z: -1 };
        let unit_hi = BlockPos { x: 1, y: 1, z: 1 };
        match self.body_geometries.get(&id) {
            Some(g) => {
                let min = match g.local_bounds_min { Some(m) => m, None => unit_lo };
                let max = match g.local_bounds_max { Some(m) => m, None => unit_hi };
                let stale = g.octree.is_none() || g.dirty_sections.len() > 0;
                !stale || octree_fits(min, max)
            },
            None => octree_fits(unit_lo, unit_hi),
        }
    }

    /// The block geometry that a region takes in for body `id`, with
    /// collider `collider` and other shapes `shapes`: the stored bounds
    /// (the unit box where none are stored), centre of mass (the origin
    /// where none is stored), chunks, version, octrees and their cube. When
    /// the stored octree is missing or stale, a new one is planned over the
    /// bounds, returned as the work to do, and the stored geometry keeps its
    /// cube with no dirty marks.
    pub fn region_geometry<S>(&mut self, id: LevelColliderID, collider: Option<ColliderHandle>, shapes: S)
        -> (r: (ActiveLevelColliderInfo<O, S>, Option<OctreeWork>))
        requires
            old(self).wf(),
            needs_new_octree(old(self).stored_geometry(id)) ==> {
                let (min, max) = region_bounds(old(self).stored_geometry(id));
                first_octree_fits(min, max)
            },
        ensures
            final(self).wf(),
            final(self).same_but_geometries(*old(self)),
            ({
                let g = old(self).stored_geometry(id);
                let (min, max) = region_bounds(g);
                let info = r.0;
                &&& info.collider == collider
                &&& info.shapes == shapes
                &&& info.local_bounds_min == Some(min)
                &&& info.local_bounds_max == Some(max)
                &&& info.center_of_mass == Some(match g {
                    Some(g) => match g.center_of_mass { Some(c) => c, None => VectorBits { x: 0, y: 0, z: 0 } },
                    None => VectorBits { x: 0, y: 0, z: 0 },
                })
                &&& info.chunk_map is Some
                &&& sections_of(info.chunk_map) == match g { Some(g) => sections_of(g.chunk_map), None => Map::empty() }
                &&& info.geometry_version == match g { Some(g) => g.geometry_version, None => 0u64 }
                &&& info.dirty_sections@ == Set::<i64>::empty()
                &&& needs_new_octree(g) ==> {
                    &&& r.1 matches Some(OctreeWork::Build { log_size }) && {
                        &&& is_first_octree_size(min, max, log_size)
                        &&& info.octree_origin == Some(min)
                        &&& info.octree_log_size == Some(log_size)
                    }
                    &&& info.octree is None
                    &&& info.section_octrees@ == Map::<i64, O>::empty()
                    &&& final(self).body_geometries@.dom() == old(self).body_geometries@.dom()
                    &&& final(self).body_geometries@.remove(id) == old(self).body_geometries@.remove(id)
                    &&& g matches Some(g0) ==> {
                        let g1 = final(self).body_geometries@[id];
                        &&& g1 == (PersistentBodyGeometry {
                            octree: None,
                            section_octrees: g1.section_octrees,
                            octree_origin: info.octree_origin,
                            octree_log_size: info.octree_log_size,
                            dirty_sections: g1.dirty_sections,
                            ..g0
                        })
                        &&& g1.section_octrees@ == Map::<i64, O>::empty()
                        &&& g1.dirty_sections@ == Set::<i64>::empty()
                    }
                }
                &&& !needs_new_octree(g) ==> {
                    &&& r.1 is None
                    &&& g matches Some(g0) && {
                        &&& info.octree == g0.octree
                        &&& info.section_octrees@ == g0.section_octrees@
                        &&& info.octree_origin == g0.octree_origin
                        &&& info.octree_log_size == g0.octree_log_size
                    }
                    &&& final(self).body_geometries@ == old(self).body_geometries@
                }
            }),
    {
        let unit_lo = BlockPos { x: -1, y: -1, z: -1 };
        let unit_hi = BlockPos { x: 1, y: 1, z: 1 };
        let mut info = ActiveLevelColliderInfo::new(collider, shapes);
        let found = match self.body_geometries.get(&id) {
            Some(g) => {
                info.local_bounds_min = Some(match g.local_bounds_min { Some(m) => m, None => unit_lo });
                info.local_bounds_max = Some(match g.local_bounds_max { Some(m) => m, None => unit_hi });
                info.center_of_mass = Some(match g.center_of_mass {
                    Some(c) => c,
                    None => VectorBits { x: 0, y: 0, z: 0 },
                });
                info.octree = g.octree;
                info.section_octrees = g.section_octrees.clone();
                info.octree_origin = g.octree_origin;
                info.octree_log_size = g.octree_log_size;
                info.geometry_version = g.geometry_version;
                info.chunk_map = Some(match &g.chunk_map {
                    Some(m) => m.clone(),
                    None => HashMap::new(),
                });
                let stale = g.octree.is_none() || g.dirty_sections.len() > 0;
                Some(stale)
            },
            None => {
                info.local_bounds_min = Some(unit_lo);
                info.local_bounds_max = Some(unit_hi);
                info.center_of_mass = Some(VectorBits { x: 0, y: 0, z: 0 });
                info.chunk_map = Some(HashMap::new());
                None
            },
        };
        match found {
            Some(false) => (info, None),
            Some(true) => {
                let min = info.local_bounds_min.unwrap();
                let max = info.local_bounds_max.unwrap();
                let work = info.rebuild_octree(min, max);
                self.keep_octree(id, None, HashMap::new(), info.octree_origin, info.octree_log_size);
                (info, Some(work))
            },
            None => {
                let work = info.rebuild_octree(unit_lo, unit_hi);
                (info, Some(work))
            },
        }
    }
}

} // verus!

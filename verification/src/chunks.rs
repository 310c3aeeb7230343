//! Loading, unloading and editing the sections of a region: its world
//! terrain and the own blocks of the sub-levels it simulates.
//!
//! Every loaded section counts its blocks that need a JVM callback, and
//! the region counts, per kind of section, the sections whose count is
//! not zero. Editing a sub-level's blocks marks its section dirty. The
//! octrees that accelerate collision are updated by the caller from the
//! sections these functions leave.

use vstd::prelude::*;
use std::collections::HashMap;
use crate::callbacks::{after_block_change, block_parts, count_after_replace, decode_block, SableSceneData, SectionOwner};
use crate::geometry::{block_index, ActiveLevelColliderInfo, ChunkSection, SECTION_BLOCKS};
use crate::section::{pack_section_pos, section_key};
use crate::universe::LevelColliderID;

verus! {

broadcast use vstd::std_specs::hash::group_hash_axioms;

/// The blocks that the words `words` stand for, each split into its
/// collider id and physics-state id.
pub open spec fn decoded_blocks(words: Seq<i32>) -> Seq<(u16, u16)> {
    Seq::new(words.len(), |i: int| block_parts(words[i]))
}

/// Some block has a collider.
pub open spec fn has_solid(blocks: Seq<(u16, u16)>) -> bool {
    exists|i: int| 0 <= i < blocks.len() && (#[trigger] blocks[i]).0 != 0
}

/// Every section of `m` holds a full set of blocks.
pub open spec fn sections_ok(m: Map<i64, ChunkSection>) -> bool {
    forall|k: i64| #[trigger] m.contains_key(k) ==> m[k].blocks@.len() == SECTION_BLOCKS
}

/// The section at `key` of an optional chunk map.
pub open spec fn section_in(map: Option<HashMap<i64, ChunkSection>>, key: i64) -> Option<ChunkSection> {
    match map {
        Some(m) => if m@.contains_key(key) { Some(m@[key]) } else { None },
        None => None,
    }
}

/// The sections of an optional chunk map.
pub open spec fn sections_of(map: Option<HashMap<i64, ChunkSection>>) -> Map<i64, ChunkSection> {
    match map {
        Some(m) => m@,
        None => Map::empty(),
    }
}

/// The callback-block count of an optional section.
pub open spec fn callback_blocks_of(section: Option<ChunkSection>) -> Option<u16> {
    match section {
        Some(s) => Some(s.serial_callback_blocks),
        None => None,
    }
}

/// The section coordinate of block coordinate `c`.
pub open spec fn chunk_coordinate(c: i32) -> i32 {
    c >> 4u32
}

/// The position of block coordinate `c` within its section.
pub open spec fn in_chunk(c: i32) -> int {
    (c & 15i32) as int
}

/// The key of the section that holds block `(x, y, z)`.
pub open spec fn block_section_key(x: i32, y: i32, z: i32) -> i64 {
    section_key(chunk_coordinate(x), chunk_coordinate(y), chunk_coordinate(z))
}

/// The index of block `(x, y, z)` within its section.
pub open spec fn block_slot(x: i32, y: i32, z: i32) -> int {
    block_index(in_chunk(x), in_chunk(y), in_chunk(z))
}

/// `after` is the geometry `before` with its chunk map holding `section`
/// at `key` (a map is created when there was none), and with section
/// `key` marked dirty when `dirty`.
pub open spec fn geometry_with_section<O, S>(
    before: ActiveLevelColliderInfo<O, S>,
    after: ActiveLevelColliderInfo<O, S>,
    key: i64,
    section: Option<ChunkSection>,
    dirty: bool,
) -> bool {
    &&& after.chunk_map is Some
    &&& sections_of(after.chunk_map) == match section {
        Some(s) => sections_of(before.chunk_map).insert(key, s),
        None => sections_of(before.chunk_map).remove(key),
    }
    &&& after.geometry_version == if dirty { before.geometry_version.wrapping_add(1) } else { before.geometry_version }
    &&& after.dirty_sections@ == if dirty { before.dirty_sections@.insert(key) } else { before.dirty_sections@ }
    &&& after.collider == before.collider
    &&& after.local_bounds_min == before.local_bounds_min
    &&& after.local_bounds_max == before.local_bounds_max
    &&& after.octree_origin == before.octree_origin
    &&& after.octree_log_size == before.octree_log_size
    &&& after.center_of_mass == before.center_of_mass
    &&& after.octree == before.octree
    &&& after.section_octrees == before.section_octrees
    &&& after.shapes == before.shapes
}

pub(crate) fn block_slot_exec(x: i32, y: i32, z: i32) -> (slot: usize)
    ensures
        slot == block_slot(x, y, z),
        slot < SECTION_BLOCKS,
{
    let bx = x & 15i32;
    let by = y & 15i32;
    let bz = z & 15i32;
    assert(0 <= (x & 15i32) < 16 && 0 <= (y & 15i32) < 16 && 0 <= (z & 15i32) < 16) by (bit_vector);
    ((by as usize * 16 + bz as usize) * 16 + bx as usize)
}

pub(crate) fn decode_words(words: &Vec<i32>) -> (r: (Vec<(u16, u16)>, bool))
    ensures
        r.0@ == decoded_blocks(words@),
        r.1 == has_solid(decoded_blocks(words@)),
        r.1 == exists|i: int| 0 <= i < words@.len() && (#[trigger] words@[i] >> 16u32) as u16 != 0,
        forall|i: int| 0 <= i < words@.len() ==> (#[trigger] r.0@[i]).0 == (words@[i] >> 16u32) as u16
            && r.0@[i].1 == (words@[i] & 0xFFFFi32) as u16,
{
    let mut blocks: Vec<(u16, u16)> = Vec::new();
    let mut solid = false;
    let mut i: usize = 0;
    while i < words.len()
        invariant
            0 <= i <= words@.len(),
            blocks@.len() == i,
            forall|j: int| 0 <= j < i ==> blocks@[j] == block_parts(words@[j]),
            solid == exists|j: int| 0 <= j < i && (#[trigger] blocks@[j]).0 != 0,
        decreases words@.len() - i,
    {
        let b = decode_block(words[i]);
        let ghost before = blocks@;
        blocks.push(b);
        proof {
            assert forall|j: int| 0 <= j < i implies blocks@[j] == before[j] by {}
            if solid {
                let j = choose|j: int| 0 <= j < i && (#[trigger] before[j]).0 != 0;
                assert(blocks@[j] == before[j]);
            }
        }
        solid = solid || b.0 != 0;
        proof {
            if b.0 != 0 {
                assert(blocks@[i as int].0 != 0);
            }
            if !solid {
                assert forall|j: int| 0 <= j < i + 1 implies (#[trigger] blocks@[j]).0 == 0 by {
                    if j < i {
                        assert(blocks@[j] == before[j]);
                    }
                }
            }
        }
        i = i + 1;
    }
    proof {
        let d = decoded_blocks(words@);
        assert(blocks@ =~= d);
        if solid {
            let j = choose|j: int| 0 <= j < words@.len() && (#[trigger] blocks@[j]).0 != 0;
            assert((words@[j] >> 16u32) as u16 != 0);
        } else {
            assert forall|j: int| 0 <= j < words@.len() implies !((#[trigger] words@[j] >> 16u32) as u16 != 0) by {
                assert(blocks@[j].0 == 0);
            }
        }
    }
    (blocks, solid)
}

/// A section of empty blocks with no callback block.
pub(crate) fn empty_section() -> (s: ChunkSection)
    ensures
        s.blocks@ == Seq::new(SECTION_BLOCKS as nat, |i: int| (0u16, 0u16)),
        s.serial_callback_blocks == 0,
{
    let mut blocks: Vec<(u16, u16)> = Vec::new();
    let mut i: usize = 0;
    while i < SECTION_BLOCKS
        invariant
            0 <= i <= SECTION_BLOCKS,
            blocks@ == Seq::new(i as nat, |j: int| (0u16, 0u16)),
        decreases SECTION_BLOCKS - i,
    {
        blocks.push((0u16, 0u16));
        i = i + 1;
        assert(blocks@ =~= Seq::new(i as nat, |j: int| (0u16, 0u16)));
    }
    ChunkSection { blocks, serial_callback_blocks: 0 }
}

/// The number of sections of `m` holding blocks whose collider needs a JVM
/// callback.
pub open spec fn callback_sections_in(m: Map<i64, ChunkSection>) -> nat {
    callback_keys(m).len()
}

/// The keys of the sections of `m` holding callback blocks.
pub open spec fn callback_keys(m: Map<i64, ChunkSection>) -> Set<i64> {
    m.dom().filter(|k: i64| m[k].serial_callback_blocks > 0)
}

/// Counts the sections of `map` holding callback blocks.
pub fn count_callback_sections(map: &HashMap<i64, ChunkSection>) -> (n: usize)
    ensures
        n == callback_sections_in(map@),
{
    let ghost m = map@;
    let ghost cb = callback_keys(m);
    let total = map.len();
    let mut n: usize = 0;
    let ghost mut seen: Set<i64> = Set::empty();
    assert(seen.intersect(cb) =~= Set::<i64>::empty());
    for k in it: map.keys()
        invariant
            m == map@,
            total == m.len(),
            it.seq().unref().to_set() == m.dom(),
            it.seq().no_duplicates(),
            it.seq().len() == m.dom().len(),
            seen == it.seq().take(it.index() as int).unref().to_set(),
            seen.finite(),
            seen.subset_of(m.dom()),
            seen.len() == it.index(),
            cb == callback_keys(m),
            n == seen.intersect(cb).len(),
            n <= it.index(),
            it.index() == it.seq().len() ==> seen == m.dom(),
    {
        let ghost idx = it.index() as int;
        let ghost x = *k;
        let ghost before = seen;
        proof {
            let sq = it.seq();
            assert(sq[idx] == k);
            assert(sq.take(idx + 1).unref() =~= sq.take(idx).unref().push(x));
            assert(!before.contains(x)) by {
                if before.contains(x) {
                    let j = choose|j: int| 0 <= j < sq.take(idx).unref().len() && sq.take(idx).unref()[j] == x;
                    assert(sq[j] == sq[idx]);
                }
            }
            assert(sq.unref().to_set().contains(x)) by {
                assert(sq.unref()[idx] == x);
            }
            sq.take(idx).unref().lemma_push_to_set_commute(x);
            assert(sq.take(idx + 1).unref().to_set() =~= before.insert(x));
        }
        let section = map.get(k).unwrap();
        if section.serial_callback_blocks > 0 {
            n = n + 1;
        }
        proof {
            assert(*section == m[x]);
            assert(cb.contains(x) == (section.serial_callback_blocks > 0));
            vstd::set_lib::lemma_len_intersect(before, cb);
            seen = before.insert(x);
            if cb.contains(x) {
                assert(seen.intersect(cb) =~= before.intersect(cb).insert(x));
            } else {
                assert(seen.intersect(cb) =~= before.intersect(cb));
            }
            if seen.len() == m.dom().len() {
                vstd::set_lib::lemma_subset_equality(seen, m.dom());
            }
        }
    }
    proof {
        assert(seen == m.dom());
        assert(m.dom().intersect(cb) =~= cb);
    }
    n
}

/// The blocks of an empty section.
pub open spec fn empty_blocks() -> Seq<(u16, u16)> {
    Seq::new(SECTION_BLOCKS as nat, |i: int| (0u16, 0u16))
}

/// A block change at callback count `count` and section count `serial`,
/// from a block with collider `old_id` to one with collider `new_id`,
/// cannot overflow or underflow a count for any answer of `requires_callback`.
pub open spec fn block_change_fits<F: Fn(u16) -> bool>(count: u32, serial: u16, old_id: u16, new_id: u16, requires_callback: F) -> bool {
    forall|r1: bool, r2: bool| requires_callback.ensures((old_id,), r1) && requires_callback.ensures((new_id,), r2) ==> {
        &&& r1 && !r2 ==> serial > 0
        &&& r2 && !r1 ==> serial < u16::MAX && (serial == 0 ==> count < u32::MAX)
    }
}

impl<O, S, C> SableSceneData<O, S, C> {
    /// Every loaded section holds a full set of blocks.
    pub open spec fn chunks_wf(self) -> bool {
        &&& sections_ok(self.main_level_chunks@)
        &&& forall|id: LevelColliderID| #[trigger] self.level_colliders@.contains_key(id)
            ==> sections_ok(sections_of(self.level_colliders@[id].chunk_map))
    }

    /// The section at `key` of kind `owner`: of the terrain, or of the own
    /// blocks of sub-level `object`.
    pub open spec fn owned_section(self, owner: SectionOwner, object: LevelColliderID, key: i64) -> Option<ChunkSection> {
        match owner {
            SectionOwner::Terrain => if self.main_level_chunks@.contains_key(key) {
                Some(self.main_level_chunks@[key])
            } else {
                None
            },
            SectionOwner::SubLevel => if self.level_colliders@.contains_key(object) {
                section_in(self.level_colliders@[object].chunk_map, key)
            } else {
                None
            },
        }
    }

    /// `self` is `before` with the section at `key` of kind `owner` set to
    /// `section` (or removed, `None`); a sub-level section is marked dirty
    /// when `dirty`. Everything else stays, the callback counts aside.
    pub open spec fn section_replaced(
        self,
        before: Self,
        owner: SectionOwner,
        object: LevelColliderID,
        key: i64,
        section: Option<ChunkSection>,
        dirty: bool,
    ) -> bool {
        &&& self.scene_handle == before.scene_handle
        &&& self.contents == before.contents
        &&& owner == SectionOwner::Terrain ==> {
            &&& self.main_level_chunks@ == match section {
                Some(s) => before.main_level_chunks@.insert(key, s),
                None => before.main_level_chunks@.remove(key),
            }
            &&& self.level_colliders@ == before.level_colliders@
            &&& self.sublevel_serial_callback_sections == before.sublevel_serial_callback_sections
        }
        &&& owner == SectionOwner::SubLevel ==> {
            &&& self.main_level_chunks@ == before.main_level_chunks@
            &&& self.level_colliders@.dom() == before.level_colliders@.dom()
            &&& self.level_colliders@.remove(object) == before.level_colliders@.remove(object)
            &&& geometry_with_section(before.level_colliders@[object], self.level_colliders@[object], key, section, dirty)
            &&& self.terrain_serial_callback_sections == before.terrain_serial_callback_sections
        }
    }

    fn take_section(&mut self, owner: SectionOwner, object: LevelColliderID, key: i64) -> (r: Option<ChunkSection>)
        requires
            owner == SectionOwner::SubLevel ==> old(self).level_colliders@.contains_key(object),
        ensures
            r == old(self).owned_section(owner, object, key),
            final(self).section_replaced(*old(self), owner, object, key, None, false),
            final(self).terrain_serial_callback_sections == old(self).terrain_serial_callback_sections,
            final(self).sublevel_serial_callback_sections == old(self).sublevel_serial_callback_sections,
    {
        match owner {
            SectionOwner::Terrain => self.main_level_chunks.remove(&key),
            SectionOwner::SubLevel => {
                let mut info = self.level_colliders.remove(&object).unwrap();
                let mut map = match info.chunk_map.take() {
                    Some(m) => m,
                    None => HashMap::new(),
                };
                let r = map.remove(&key);
                info.chunk_map = Some(map);
                self.level_colliders.insert(object, info);
                proof {
                    let i0 = old(self).level_colliders@[object];
                    assert(sections_of(self.level_colliders@[object].chunk_map) =~= sections_of(i0.chunk_map).remove(key));
                    assert(self.level_colliders@.remove(object) =~= old(self).level_colliders@.remove(object));
                }
                r
            },
        }
    }

    fn put_section(&mut self, owner: SectionOwner, object: LevelColliderID, key: i64, section: ChunkSection, dirty: (i32, i32, i32), mark: bool)
        requires
            owner == SectionOwner::SubLevel ==> old(self).level_colliders@.contains_key(object),
            mark ==> key == section_key(dirty.0, dirty.1, dirty.2),
        ensures
            final(self).section_replaced(*old(self), owner, object, key, Some(section), mark),
            final(self).terrain_serial_callback_sections == old(self).terrain_serial_callback_sections,
            final(self).sublevel_serial_callback_sections == old(self).sublevel_serial_callback_sections,
    {
        match owner {
            SectionOwner::Terrain => {
                self.main_level_chunks.insert(key, section);
            },
            SectionOwner::SubLevel => {
                let mut info = self.level_colliders.remove(&object).unwrap();
                let mut map = match info.chunk_map.take() {
                    Some(m) => m,
                    None => HashMap::new(),
                };
                map.insert(key, section);
                info.chunk_map = Some(map);
                if mark {
                    info.mark_section_dirty(dirty.0, dirty.1, dirty.2);
                }
                self.level_colliders.insert(object, info);
                proof {
                    let i0 = old(self).level_colliders@[object];
                    assert(sections_of(self.level_colliders@[object].chunk_map) =~= sections_of(i0.chunk_map).insert(key, section));
                    assert(self.level_colliders@.remove(object) =~= old(self).level_colliders@.remove(object));
                }
            },
        }
    }

    /// Loads section `(x, y, z)` of kind `owner` (for a sub-level, of body
    /// `object`) from its 4096 block words, `callback_blocks` of which need
    /// a JVM callback, replacing any section loaded there. The region's
    /// count of callback sections is adjusted for the section replaced and
    /// the one loaded; a sub-level section is marked dirty. Returns whether
    /// a block has a collider.
    pub fn add_chunk(
        &mut self,
        owner: SectionOwner,
        object: LevelColliderID,
        x: i32,
        y: i32,
        z: i32,
        words: &Vec<i32>,
        callback_blocks: u16,
    ) -> (solid: bool)
        requires
            old(self).chunks_wf(),
            words@.len() == SECTION_BLOCKS,
            owner == SectionOwner::SubLevel ==> old(self).level_colliders@.contains_key(object),
            count_after_replace(
                old(self).callback_sections(owner),
                callback_blocks_of(old(self).owned_section(owner, object, section_key(x, y, z))),
                Some(callback_blocks),
            ) <= u32::MAX,
        ensures
            final(self).chunks_wf(),
            solid == has_solid(decoded_blocks(words@)),
            solid == exists|i: int| 0 <= i < words@.len() && (#[trigger] words@[i] >> 16u32) as u16 != 0,
            ({
                let key = section_key(x, y, z);
                &&& final(self).owned_section(owner, object, key) matches Some(s) && {
                    &&& s.blocks@ == decoded_blocks(words@)
                    &&& s.serial_callback_blocks == callback_blocks
                    &&& final(self).section_replaced(*old(self), owner, object, key, Some(s), owner == SectionOwner::SubLevel)
                }
                &&& final(self).callback_sections(owner) == count_after_replace(
                    old(self).callback_sections(owner),
                    callback_blocks_of(old(self).owned_section(owner, object, key)),
                    Some(callback_blocks),
                )
            }),
    {
        let key = pack_section_pos(x, y, z);
        let (blocks, solid) = decode_words(words);
        let section = ChunkSection { blocks, serial_callback_blocks: callback_blocks };
        let ghost s = section;
        let previous = self.take_section(owner, object, key);
        let before_count = match previous {
            Some(p) => Some(p.serial_callback_blocks),
            None => None,
        };
        let ghost mid = *self;
        self.put_section(owner, object, key, section, (x, y, z), owner == SectionOwner::SubLevel);
        let ghost mid2 = *self;
        self.replace_section(owner, before_count, Some(callback_blocks));
        proof {
            assert(self.owned_section(owner, object, key) == Some(s));
            if owner == SectionOwner::Terrain {
                assert(self.main_level_chunks@ =~= old(self).main_level_chunks@.insert(key, s));
            } else {
                assert(self.level_colliders@ =~= mid2.level_colliders@);
                assert(sections_of(self.level_colliders@[object].chunk_map)
                    =~= sections_of(old(self).level_colliders@[object].chunk_map).insert(key, s));
                assert forall|id: LevelColliderID| #[trigger] self.level_colliders@.contains_key(id)
                    implies sections_ok(sections_of(self.level_colliders@[id].chunk_map)) by {
                    if id != object {
                        assert(self.level_colliders@[id] == old(self).level_colliders@.remove(object)[id]);
                    }
                }
                assert(self.level_colliders@.remove(object) =~= old(self).level_colliders@.remove(object));
            }
        }
        solid
    }

    /// Unloads section `(x, y, z)` of kind `owner` (for a sub-level, of
    /// body `object`) and returns it. The region's count of callback
    /// sections is adjusted; a sub-level section is marked dirty. Nothing
    /// changes when no such section is loaded.
    pub fn remove_chunk(&mut self, owner: SectionOwner, object: LevelColliderID, x: i32, y: i32, z: i32) -> (removed: Option<ChunkSection>)
        requires
            old(self).chunks_wf(),
        ensures
            final(self).chunks_wf(),
            removed == old(self).owned_section(owner, object, section_key(x, y, z)),
            removed is None ==> {
                &&& final(self).same_loaded(*old(self))
                &&& final(self).terrain_serial_callback_sections == old(self).terrain_serial_callback_sections
                &&& final(self).sublevel_serial_callback_sections == old(self).sublevel_serial_callback_sections
                &&& final(self).scene_handle == old(self).scene_handle
                &&& final(self).contents == old(self).contents
            },
            removed matches Some(r) ==> {
                &&& final(self).section_replaced(*old(self), owner, object, section_key(x, y, z), None, owner == SectionOwner::SubLevel)
                &&& final(self).callback_sections(owner) == count_after_replace(
                    old(self).callback_sections(owner),
                    Some(r.serial_callback_blocks),
                    None,
                )
            },
    {
        let key = pack_section_pos(x, y, z);
        let present = match owner {
            SectionOwner::Terrain => self.main_level_chunks.contains_key(&key),
            SectionOwner::SubLevel => match self.level_colliders.get(&object) {
                Some(info) => match &info.chunk_map {
                    Some(m) => m.contains_key(&key),
                    None => false,
                },
                None => false,
            },
        };
        if !present {
            return None;
        }
        let ghost s0 = *self;
        let removed = self.take_section(owner, object, key);
        let cb = match &removed {
            Some(r) => r.serial_callback_blocks,
            None => 0,
        };
        proof {
            assert(self.owned_section(owner, object, key) is None);
        }
        if owner == SectionOwner::SubLevel {
            let mut info = self.level_colliders.remove(&object).unwrap();
            info.mark_section_dirty(x, y, z);
            self.level_colliders.insert(object, info);
            proof {
                assert(self.level_colliders@.remove(object) =~= s0.level_colliders@.remove(object));
                assert(self.level_colliders@.dom() =~= s0.level_colliders@.dom());
            }
        }
        let ghost s1 = *self;
        self.replace_section(owner, Some(cb), None);
        proof {
            if owner == SectionOwner::Terrain {
                assert(self.main_level_chunks@ =~= s0.main_level_chunks@.remove(key));
            } else {
                assert forall|id: LevelColliderID| #[trigger] self.level_colliders@.contains_key(id)
                    implies sections_ok(sections_of(self.level_colliders@[id].chunk_map)) by {
                    if id != object {
                        assert(self.level_colliders@[id] == s0.level_colliders@.remove(object)[id]);
                    }
                }
            }
        }
        removed
    }

    /// The blocks that an edit of block `(x, y, z)` of kind `owner` starts
    /// from: those of the loaded section, or, for a sub-level section not
    /// loaded yet, an empty one; `None` when there is nothing to edit.
    pub open spec fn edit_base(self, owner: SectionOwner, object: LevelColliderID, x: i32, y: i32, z: i32) -> Option<(Seq<(u16, u16)>, u16)> {
        match self.owned_section(owner, object, block_section_key(x, y, z)) {
            Some(s) => Some((s.blocks@, s.serial_callback_blocks)),
            None => if owner == SectionOwner::SubLevel && self.level_colliders@.contains_key(object) {
                Some((empty_blocks(), 0u16))
            } else {
                None
            },
        }
    }

    /// Sets block `(x, y, z)` of kind `owner` (for a sub-level, of body
    /// `object`) to the block word `block` and returns the block it
    /// replaced. When the collider of the block changes between needing a
    /// JVM callback and not, as `requires_callback` answers, the section's
    /// and the region's callback counts follow. A sub-level section that is
    /// not loaded yet is created empty first, and the section is marked
    /// dirty. Nothing changes, and `None` is returned, for a terrain block
    /// whose section is not loaded or a sub-level that is not here.
    pub fn change_block<F: Fn(u16) -> bool>(
        &mut self,
        owner: SectionOwner,
        object: LevelColliderID,
        x: i32,
        y: i32,
        z: i32,
        block: i32,
        requires_callback: F,
    ) -> (replaced: Option<(u16, u16)>)
        requires
            old(self).chunks_wf(),
            forall|id: u16| requires_callback.requires((id,)),
            old(self).edit_base(owner, object, x, y, z) matches Some((blocks, serial)) ==> block_change_fits(
                old(self).callback_sections(owner),
                serial,
                blocks[block_slot(x, y, z)].0,
                block_parts(block).0,
                requires_callback,
            ),
        ensures
            final(self).chunks_wf(),
            old(self).edit_base(owner, object, x, y, z) is None ==> {
                &&& replaced is None
                &&& final(self).same_loaded(*old(self))
                &&& final(self).terrain_serial_callback_sections == old(self).terrain_serial_callback_sections
                &&& final(self).sublevel_serial_callback_sections == old(self).sublevel_serial_callback_sections
                &&& final(self).scene_handle == old(self).scene_handle
                &&& final(self).contents == old(self).contents
            },
            old(self).edit_base(owner, object, x, y, z) matches Some((blocks, serial)) ==> {
                let key = block_section_key(x, y, z);
                let slot = block_slot(x, y, z);
                &&& replaced == Some(blocks[slot])
                &&& final(self).owned_section(owner, object, key) matches Some(s) && {
                    &&& s.blocks@ == blocks.update(slot, block_parts(block))
                    &&& final(self).section_replaced(*old(self), owner, object, key, Some(s), owner == SectionOwner::SubLevel)
                    &&& exists|r1: bool, r2: bool| {
                        &&& requires_callback.ensures((blocks[slot].0,), r1)
                        &&& requires_callback.ensures((block_parts(block).0,), r2)
                        &&& (final(self).callback_sections(owner) as int, s.serial_callback_blocks as int)
                            == after_block_change(old(self).callback_sections(owner), serial, r1, r2)
                    }
                }
            },
    {
        let cx = x >> 4u32;
        let cy = y >> 4u32;
        let cz = z >> 4u32;
        let key = pack_section_pos(cx, cy, cz);
        let slot = block_slot_exec(x, y, z);
        let present = match owner {
            SectionOwner::Terrain => self.main_level_chunks.contains_key(&key),
            SectionOwner::SubLevel => self.level_colliders.contains_key(&object),
        };
        if !present {
            return None;
        }
        let ghost s0 = *self;
        let ghost base = s0.edit_base(owner, object, x, y, z)->0;
        let mut section = match self.take_section(owner, object, key) {
            Some(sec) => sec,
            None => empty_section(),
        };
        assert(section.blocks@ == base.0 && section.serial_callback_blocks == base.1);
        let old_block = section.blocks[slot];
        let new_block = decode_block(block);
        section.blocks.set(slot, new_block);
        let r1 = requires_callback(old_block.0);
        let r2 = requires_callback(new_block.0);
        self.block_callback_changed(owner, &mut section.serial_callback_blocks, r1, r2);
        let ghost sec = section;
        self.put_section(owner, object, key, section, (cx, cy, cz), owner == SectionOwner::SubLevel);
        proof {
            assert(self.owned_section(owner, object, key) == Some(sec));
            assert(sec.blocks@ == base.0.update(slot as int, block_parts(block)));
            if owner == SectionOwner::Terrain {
                assert(self.main_level_chunks@ =~= s0.main_level_chunks@.insert(key, sec));
            } else {
                assert(sections_of(self.level_colliders@[object].chunk_map)
                    =~= sections_of(s0.level_colliders@[object].chunk_map).insert(key, sec));
                assert(self.level_colliders@.remove(object) =~= s0.level_colliders@.remove(object));
            }
            assert(self.section_replaced(s0, owner, object, key, Some(sec), owner == SectionOwner::SubLevel));
            assert((self.callback_sections(owner) as int, sec.serial_callback_blocks as int)
                == after_block_change(s0.callback_sections(owner), base.1, r1, r2));
            if owner == SectionOwner::Terrain {
                assert(sections_ok(self.main_level_chunks@)) by {
                    assert(self.main_level_chunks@ =~= s0.main_level_chunks@.insert(key, sec));
                }
            } else {
                assert forall|id: LevelColliderID| #[trigger] self.level_colliders@.contains_key(id)
                    implies sections_ok(sections_of(self.level_colliders@[id].chunk_map)) by {
                    if id != object {
                        assert(self.level_colliders@[id] == s0.level_colliders@.remove(object)[id]);
                    }
                }
            }
        }
        Some(old_block)
    }

    /// `self` is `before` with the block geometry `info` of sub-level `id`
    /// taken in: the region's count of sub-level callback sections grows by
    /// the sections of `info` holding callback blocks.
    pub open spec fn level_collider_admitted(self, before: Self, id: LevelColliderID, info: ActiveLevelColliderInfo<O, S>) -> bool {
        &&& self.level_colliders@ == before.level_colliders@.insert(id, info)
        &&& self.sublevel_serial_callback_sections == before.sublevel_serial_callback_sections
            + callback_sections_in(sections_of(info.chunk_map))
        &&& self.terrain_serial_callback_sections == before.terrain_serial_callback_sections
        &&& self.main_level_chunks@ == before.main_level_chunks@
        &&& self.scene_handle == before.scene_handle
        &&& self.contents == before.contents
    }

    /// `self` is `before` with the block geometry of sub-level `id` handed
    /// out as `released`: the region's count of sub-level callback sections
    /// drops by the sections of it holding callback blocks, stopping at zero.
    pub open spec fn level_collider_released(self, before: Self, id: LevelColliderID, released: Option<ActiveLevelColliderInfo<O, S>>) -> bool {
        &&& released == (if before.level_colliders@.contains_key(id) {
            Some(before.level_colliders@[id])
        } else {
            None::<ActiveLevelColliderInfo<O, S>>
        })
        &&& self.level_colliders@ == before.level_colliders@.remove(id)
        &&& self.sublevel_serial_callback_sections == match released {
            Some(info) => {
                let c = callback_sections_in(sections_of(info.chunk_map));
                if before.sublevel_serial_callback_sections >= c {
                    (before.sublevel_serial_callback_sections - c) as u32
                } else {
                    0u32
                }
            },
            None => before.sublevel_serial_callback_sections,
        }
        &&& self.terrain_serial_callback_sections == before.terrain_serial_callback_sections
        &&& self.main_level_chunks@ == before.main_level_chunks@
        &&& self.scene_handle == before.scene_handle
        &&& self.contents == before.contents
    }

    /// Takes in the block geometry `info` of a sub-level `id` entering the
    /// region, counting its sections that hold callback blocks.
    pub fn admit_level_collider(&mut self, id: LevelColliderID, info: ActiveLevelColliderInfo<O, S>)
        requires
            old(self).sublevel_serial_callback_sections + callback_sections_in(sections_of(info.chunk_map)) <= u32::MAX,
        ensures
            final(self).level_collider_admitted(*old(self), id, info),
            old(self).chunks_wf() && sections_ok(sections_of(info.chunk_map)) ==> final(self).chunks_wf(),
    {
        let sections = match &info.chunk_map {
            Some(m) => count_callback_sections(m),
            None => 0,
        };
        proof {
            if info.chunk_map is None {
                assert(callback_keys(Map::<i64, ChunkSection>::empty()) =~= Set::<i64>::empty());
            }
        }
        self.add_sublevel_sections(sections as u32);
        self.level_colliders.insert(id, info);
        proof {
            assert forall|k: LevelColliderID| #[trigger] self.level_colliders@.contains_key(k)
                && old(self).chunks_wf() && sections_ok(sections_of(info.chunk_map))
                implies sections_ok(sections_of(self.level_colliders@[k].chunk_map)) by {
                if k != id {
                    assert(self.level_colliders@[k] == old(self).level_colliders@[k]);
                }
            }
        }
    }

    /// Hands out the block geometry of sub-level `id` leaving the region,
    /// if the region holds one, and stops counting its sections that hold
    /// callback blocks.
    pub fn release_level_collider(&mut self, id: LevelColliderID) -> (released: Option<ActiveLevelColliderInfo<O, S>>)
        ensures
            final(self).level_collider_released(*old(self), id, released),
            old(self).chunks_wf() ==> final(self).chunks_wf(),
    {
        let released = self.level_colliders.remove(&id);
        match &released {
            Some(info) => {
                let sections = match &info.chunk_map {
                    Some(m) => count_callback_sections(m),
                    None => 0,
                };
                proof {
                    if info.chunk_map is None {
                        assert(callback_keys(Map::<i64, ChunkSection>::empty()) =~= Set::<i64>::empty());
                    }
                }
                let current = self.sublevel_serial_callback_sections as usize;
                self.sublevel_serial_callback_sections = if current >= sections {
                    (current - sections) as u32
                } else {
                    0
                };
            },
            None => {},
        }
        proof {
            assert forall|k: LevelColliderID| #[trigger] self.level_colliders@.contains_key(k) && old(self).chunks_wf()
                implies sections_ok(sections_of(self.level_colliders@[k].chunk_map)) by {
                assert(self.level_colliders@[k] == old(self).level_colliders@[k]);
            }
        }
        released
    }

    /// What an edit of block `(x, y, z)` of kind `owner` (for a sub-level,
    /// of body `object`) starts from: the block there and its section's
    /// count of callback blocks; `None` when there is nothing to edit.
    pub fn edit_start(&self, owner: SectionOwner, object: LevelColliderID, x: i32, y: i32, z: i32) -> (r: Option<((u16, u16), u16)>)
        requires
            self.chunks_wf(),
        ensures
            r == match self.edit_base(owner, object, x, y, z) {
                Some((blocks, serial)) => Some((blocks[block_slot(x, y, z)], serial)),
                None => None::<((u16, u16), u16)>,
            },
    {
        let key = pack_section_pos(x >> 4u32, y >> 4u32, z >> 4u32);
        let slot = block_slot_exec(x, y, z);
        match owner {
            SectionOwner::Terrain => match self.main_level_chunks.get(&key) {
                Some(section) => Some((section.blocks[slot], section.serial_callback_blocks)),
                None => None,
            },
            SectionOwner::SubLevel => match self.level_colliders.get(&object) {
                Some(info) => {
                    let found = match &info.chunk_map {
                        Some(m) => m.get(&key),
                        None => None,
                    };
                    match found {
                        Some(section) => Some((section.blocks[slot], section.serial_callback_blocks)),
                        None => Some(((0u16, 0u16), 0u16)),
                    }
                },
                None => None,
            },
        }
    }
}

} // verus!

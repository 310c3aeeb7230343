//! Bookkeeping of the sections that hold blocks needing a JVM callback.
//!
//! A region can be stepped in parallel with others only while none of its
//! loaded sections holds such a block. Each loaded section counts its
//! callback blocks; the region counts, separately for world terrain and
//! for sub-levels, the sections whose count is not zero.

use vstd::prelude::*;
use std::collections::HashMap;
use crate::geometry::{ActiveLevelColliderInfo, ChunkSection};
use crate::universe::LevelColliderID;

verus! {

/// The two kinds of sections a region loads.
#[derive(Clone, Copy, Debug, PartialEq, Eq, Structural)]
pub enum SectionOwner {
    /// A section of the world's terrain.
    Terrain,
    /// A section of a sub-level's own blocks.
    SubLevel,
}

/// The per-region data next to the physics simulation: the region's
/// handle, its loaded terrain sections, the block geometry of the bodies
/// it simulates (with octrees `O` and other shapes `S`), the two
/// callback-section counts, and the rest of its contents `C` (joints,
/// ropes and rigid-body handles), which nothing here reads.
pub struct SableSceneData<O, S, C> {
    pub scene_handle: i64,
    pub main_level_chunks: HashMap<i64, ChunkSection>,
    pub level_colliders: HashMap<LevelColliderID, ActiveLevelColliderInfo<O, S>>,
    pub terrain_serial_callback_sections: u32,
    pub sublevel_serial_callback_sections: u32,
    pub contents: C,
}

/// A section count after one section leaves it, stopping at zero.
pub open spec fn count_without_one(count: u32) -> u32 {
    if count == 0 { 0 } else { (count - 1) as u32 }
}

/// A section count after a section whose callback count was `before` (or
/// which was absent, `None`) is replaced by one whose count is `after` (or
/// removed, `None`).
pub open spec fn count_after_replace(count: u32, before: Option<u16>, after: Option<u16>) -> int {
    let counted = match before {
        Some(b) => if b > 0 { count_without_one(count) } else { count },
        None => count,
    };
    match after {
        Some(b) => if b > 0 { counted + 1 } else { counted as int },
        None => counted as int,
    }
}

/// The section count and the section's own callback count after one of its
/// blocks changed from needing a callback (`old_requires`) to
/// `new_requires`.
pub open spec fn after_block_change(count: u32, blocks: u16, old_requires: bool, new_requires: bool) -> (int, int) {
    if old_requires == new_requires {
        (count as int, blocks as int)
    } else if new_requires {
        (if blocks == 0 { count + 1 } else { count as int }, blocks + 1)
    } else {
        (if blocks - 1 == 0 { count_without_one(count) as int } else { count as int }, blocks - 1)
    }
}

impl<O, S, C> SableSceneData<O, S, C> {
    /// The loaded sections and body geometries of `self` and `other` agree.
    pub open spec fn same_loaded(self, other: Self) -> bool {
        &&& self.main_level_chunks@ == other.main_level_chunks@
        &&& self.level_colliders@ == other.level_colliders@
    }

    /// A region with no loaded section.
    pub fn new(scene_handle: i64, contents: C) -> (d: Self)
        ensures
            d.scene_handle == scene_handle,
            d.terrain_serial_callback_sections == 0,
            d.sublevel_serial_callback_sections == 0,
            d.contents == contents,
            d.main_level_chunks@ == Map::<i64, ChunkSection>::empty(),
            d.level_colliders@ == Map::<LevelColliderID, ActiveLevelColliderInfo<O, S>>::empty(),
    {
        SableSceneData {
            scene_handle,
            main_level_chunks: HashMap::new(),
            level_colliders: HashMap::new(),
            terrain_serial_callback_sections: 0,
            sublevel_serial_callback_sections: 0,
            contents,
        }
    }

    /// The count of sections of kind `owner` holding callback blocks.
    pub open spec fn callback_sections(self, owner: SectionOwner) -> u32 {
        match owner {
            SectionOwner::Terrain => self.terrain_serial_callback_sections,
            SectionOwner::SubLevel => self.sublevel_serial_callback_sections,
        }
    }

    /// The region can step in parallel: no loaded section of either kind
    /// holds a callback block.
    pub fn can_parallel_step(&self) -> (r: bool)
        ensures
            r == (self.terrain_serial_callback_sections == 0 && self.sublevel_serial_callback_sections == 0),
    {
        self.terrain_serial_callback_sections == 0 && self.sublevel_serial_callback_sections == 0
    }

    fn set_callback_sections(&mut self, owner: SectionOwner, count: u32)
        ensures
            final(self).callback_sections(owner) == count,
            owner == SectionOwner::Terrain ==> final(self).sublevel_serial_callback_sections == old(self).sublevel_serial_callback_sections,
            owner == SectionOwner::SubLevel ==> final(self).terrain_serial_callback_sections == old(self).terrain_serial_callback_sections,
            final(self).scene_handle == old(self).scene_handle,
            final(self).contents == old(self).contents,
            final(self).same_loaded(*old(self)),
    {
        match owner {
            SectionOwner::Terrain => self.terrain_serial_callback_sections = count,
            SectionOwner::SubLevel => self.sublevel_serial_callback_sections = count,
        }
    }

    fn get_callback_sections(&self, owner: SectionOwner) -> (count: u32)
        ensures
            count == self.callback_sections(owner),
    {
        match owner {
            SectionOwner::Terrain => self.terrain_serial_callback_sections,
            SectionOwner::SubLevel => self.sublevel_serial_callback_sections,
        }
    }

    /// Accounts for a section of kind `owner` being loaded, replaced or
    /// unloaded: the section that was there held `before` callback blocks
    /// (`None` when there was none), the one loaded holds `after` (`None`
    /// when the section is unloaded).
    pub fn replace_section(&mut self, owner: SectionOwner, before: Option<u16>, after: Option<u16>)
        requires
            count_after_replace(old(self).callback_sections(owner), before, after) <= u32::MAX,
        ensures
            final(self).callback_sections(owner) == count_after_replace(old(self).callback_sections(owner), before, after),
            owner == SectionOwner::Terrain ==> final(self).sublevel_serial_callback_sections == old(self).sublevel_serial_callback_sections,
            owner == SectionOwner::SubLevel ==> final(self).terrain_serial_callback_sections == old(self).terrain_serial_callback_sections,
            final(self).scene_handle == old(self).scene_handle,
            final(self).contents == old(self).contents,
            final(self).same_loaded(*old(self)),
    {
        let mut count = self.get_callback_sections(owner);
        match before {
            Some(b) => {
                if b > 0 {
                    count = count.saturating_sub(1);
                }
            },
            None => {},
        }
        match after {
            Some(b) => {
                if b > 0 {
                    count = count + 1;
                }
            },
            None => {},
        }
        self.set_callback_sections(owner, count);
    }

    /// Accounts for one block of a loaded section of kind `owner` changing
    /// from needing a callback (`old_requires`) to `new_requires`;
    /// `section_blocks` is the section's own count of callback blocks.
    pub fn block_callback_changed(
        &mut self,
        owner: SectionOwner,
        section_blocks: &mut u16,
        old_requires: bool,
        new_requires: bool,
    )
        requires
            old_requires && !new_requires ==> *old(section_blocks) > 0,
            new_requires && !old_requires ==> *old(section_blocks) < u16::MAX,
            new_requires && !old_requires && *old(section_blocks) == 0 ==> old(self).callback_sections(owner) < u32::MAX,
        ensures
            (final(self).callback_sections(owner) as int, *final(section_blocks) as int)
                == after_block_change(old(self).callback_sections(owner), *old(section_blocks), old_requires, new_requires),
            owner == SectionOwner::Terrain ==> final(self).sublevel_serial_callback_sections == old(self).sublevel_serial_callback_sections,
            owner == SectionOwner::SubLevel ==> final(self).terrain_serial_callback_sections == old(self).terrain_serial_callback_sections,
            final(self).scene_handle == old(self).scene_handle,
            final(self).contents == old(self).contents,
            final(self).same_loaded(*old(self)),
    {
        if old_requires == new_requires {
            return;
        }
        let count = self.get_callback_sections(owner);
        if new_requires {
            if *section_blocks == 0 {
                self.set_callback_sections(owner, count + 1);
            }
            *section_blocks = *section_blocks + 1;
        } else {
            *section_blocks = *section_blocks - 1;
            if *section_blocks == 0 {
                self.set_callback_sections(owner, count.saturating_sub(1));
            }
        }
    }

    /// Accounts for a sub-level section of a body that a universe update
    /// replaced while the body is resident here: the count moves by the
    /// difference between the new section holding callback blocks
    /// (`now_has`) and the old one holding them (`had`), stopping at zero.
    pub fn exchange_sublevel_section(&mut self, had: bool, now_has: bool)
        requires
            now_has && !had ==> old(self).sublevel_serial_callback_sections < u32::MAX,
        ensures
            final(self).sublevel_serial_callback_sections == if had == now_has {
                old(self).sublevel_serial_callback_sections
            } else if now_has {
                (old(self).sublevel_serial_callback_sections + 1) as u32
            } else {
                count_without_one(old(self).sublevel_serial_callback_sections)
            },
            final(self).terrain_serial_callback_sections == old(self).terrain_serial_callback_sections,
            final(self).scene_handle == old(self).scene_handle,
            final(self).contents == old(self).contents,
            final(self).same_loaded(*old(self)),
    {
        if had && !now_has {
            self.sublevel_serial_callback_sections = self.sublevel_serial_callback_sections.saturating_sub(1);
        } else if now_has && !had {
            self.sublevel_serial_callback_sections = self.sublevel_serial_callback_sections + 1;
        }
    }

    /// Adds `sections` sub-level sections holding callback blocks, when a
    /// sub-level with its own blocks enters the region.
    pub fn add_sublevel_sections(&mut self, sections: u32)
        requires
            old(self).sublevel_serial_callback_sections + sections <= u32::MAX,
        ensures
            final(self).sublevel_serial_callback_sections == old(self).sublevel_serial_callback_sections + sections,
            final(self).terrain_serial_callback_sections == old(self).terrain_serial_callback_sections,
            final(self).scene_handle == old(self).scene_handle,
            final(self).contents == old(self).contents,
            final(self).same_loaded(*old(self)),
    {
        self.sublevel_serial_callback_sections = self.sublevel_serial_callback_sections + sections;
    }

    /// Moves the sub-level sections counted by `source` into this region,
    /// when its sub-levels are merged in; the sum stops at `u32::MAX`.
    pub fn absorb_sublevel_sections(&mut self, source: &mut Self)
        ensures
            final(self).sublevel_serial_callback_sections == if old(self).sublevel_serial_callback_sections
                + old(source).sublevel_serial_callback_sections > u32::MAX {
                u32::MAX as int
            } else {
                old(self).sublevel_serial_callback_sections + old(source).sublevel_serial_callback_sections
            },
            final(source).sublevel_serial_callback_sections == 0,
            final(self).terrain_serial_callback_sections == old(self).terrain_serial_callback_sections,
            final(source).terrain_serial_callback_sections == old(source).terrain_serial_callback_sections,
            final(self).scene_handle == old(self).scene_handle,
            final(self).contents == old(self).contents,
            final(self).same_loaded(*old(self)),
            final(source).scene_handle == old(source).scene_handle,
            final(source).contents == old(source).contents,
            final(source).same_loaded(*old(source)),
    {
        self.sublevel_serial_callback_sections =
            self.sublevel_serial_callback_sections.saturating_add(source.sublevel_serial_callback_sections);
        source.sublevel_serial_callback_sections = 0;
    }

    /// Forgets every terrain section, when the region's origin moves and
    /// its terrain is reloaded.
    pub fn clear_terrain_sections(&mut self)
        ensures
            final(self).terrain_serial_callback_sections == 0,
            final(self).sublevel_serial_callback_sections == old(self).sublevel_serial_callback_sections,
            final(self).scene_handle == old(self).scene_handle,
            final(self).contents == old(self).contents,
            final(self).same_loaded(*old(self)),
    {
        self.terrain_serial_callback_sections = 0;
    }
}

/// A block that starts needing a callback and then stops leaves both the
/// section's and the region's counts as they were.
pub proof fn lemma_callback_block_round_trip(count: u32, blocks: u16)
    requires
        blocks < u16::MAX,
        blocks == 0 ==> count < u32::MAX,
    ensures
        ({
            let (c1, b1) = after_block_change(count, blocks, false, true);
            after_block_change(c1 as u32, b1 as u16, true, false) == (count as int, blocks as int)
        }),
{
}

/// Loading a section and unloading it again leaves the count as it was.
pub proof fn lemma_section_load_round_trip(count: u32, blocks: u16)
    requires
        count < u32::MAX,
    ensures
        count_after_replace(count_after_replace(count, None, Some(blocks)) as u32, Some(blocks), None) == count,
{
}

/// The collider id and the physics-state id packed in a block word: the
/// high and the low 16 bits.
pub open spec fn block_parts(block: i32) -> (u16, u16) {
    ((block >> 16u32) as u16, (block & 0xFFFFi32) as u16)
}

/// Splits a block word into its collider id (high 16 bits) and its
/// physics-state id (low 16 bits).
pub fn decode_block(block: i32) -> (parts: (u16, u16))
    ensures
        parts == block_parts(block),
{
    ((block >> 16u32) as u16, (block & 0xFFFFi32) as u16)
}

} // verus!

//! The loaded world-terrain sections of a universe, and the test that
//! keeps a ballistic body from flying into them unsimulated.
//!
//! Terrain is tracked per section inside the terrain domain only. A swept
//! box is given in block coordinates: its minimum corner rounded down and
//! its maximum corner rounded up. Boxes that span more than 4096 sections
//! are reported as touching terrain without looking.

use vstd::prelude::*;
use crate::section::{in_terrain_domain, is_inside_terrain_domain, pack_section_pos, section_key};
use crate::universe::DimensionUniverse;

verus! {

broadcast use vstd::std_specs::hash::group_hash_axioms;

/// Most sections a swept box may span before it is reported as touching
/// terrain without looking.
pub const MAX_SWEPT_TERRAIN_SECTIONS: i128 = 4096;

/// Most blocks a box may hold before it is reported as overlapping
/// terrain without looking.
pub const MAX_TERRAIN_OVERLAP_BLOCKS: i128 = 4096;

/// The section coordinate of block coordinate `c`: `c` divided by 16,
/// rounded down.
pub open spec fn section_of(c: i32) -> i32 {
    c >> 4u32
}

/// `section_of` is division by 16 rounded down: block `c` lies in the
/// 16 blocks that start at `16 * section_of(c)`.
pub proof fn lemma_section_of_rounds_down(c: i32)
    ensures
        16 * section_of(c) <= c < 16 * section_of(c) + 16,
{
    assert((((c >> 4u32) as i64) * 16 <= c as i64) && ((c as i64) < ((c >> 4u32) as i64) * 16 + 16)) by (bit_vector);
}

/// Number of sections in the box spanned by block coordinates
/// `[min, max]` on each axis, as a signed product of the three spans.
pub open spec fn swept_section_count(
    min_x: i32, min_y: i32, min_z: i32,
    max_x: i32, max_y: i32, max_z: i32,
) -> int {
    (section_of(max_x) - section_of(min_x) + 1) * (section_of(max_y) - section_of(min_y) + 1)
        * (section_of(max_z) - section_of(min_z) + 1)
}

fn section_of_exec(c: i32) -> (s: i32)
    ensures
        s == section_of(c),
        -0x800_0000 <= s < 0x800_0000,
{
    let s = c >> 4u32;
    assert(-0x800_0000 <= (c >> 4u32) < 0x800_0000) by (bit_vector);
    s
}

/// Number of blocks in the box `[min, max]`, counting an empty axis as
/// zero.
pub open spec fn block_count(
    min_x: i32, min_y: i32, min_z: i32,
    max_x: i32, max_y: i32, max_z: i32,
) -> int {
    let dx = if max_x >= min_x { max_x - min_x + 1 } else { 0 };
    let dy = if max_y >= min_y { max_y - min_y + 1 } else { 0 };
    let dz = if max_z >= min_z { max_z - min_z + 1 } else { 0 };
    dx * dy * dz
}

fn axis_len(lo: i32, hi: i32) -> (n: i128)
    ensures
        n == if hi >= lo { hi - lo + 1 } else { 0 },
        0 <= n <= 0x1_0000_0000,
{
    if hi >= lo { hi as i128 - lo as i128 + 1 } else { 0 }
}

/// Whether loaded terrain may overlap the box of blocks `[min, max]`:
/// always when the box holds more than `MAX_TERRAIN_OVERLAP_BLOCKS`
/// blocks; otherwise exactly
/// when `solid` reports one of its blocks as solid terrain.
pub fn terrain_overlaps_bounds<F: Fn(i32, i32, i32) -> bool>(
    min_x: i32, min_y: i32, min_z: i32,
    max_x: i32, max_y: i32, max_z: i32,
    solid: F,
) -> (hit: bool)
    requires
        forall|x: i32, y: i32, z: i32| solid.requires((x, y, z)),
    ensures
        hit ==> block_count(min_x, min_y, min_z, max_x, max_y, max_z) > MAX_TERRAIN_OVERLAP_BLOCKS || exists|x: i32, y: i32, z: i32|
            min_x <= x <= max_x && min_y <= y <= max_y && min_z <= z <= max_z && #[trigger] solid.ensures((x, y, z), true),
        !hit ==> block_count(min_x, min_y, min_z, max_x, max_y, max_z) <= MAX_TERRAIN_OVERLAP_BLOCKS && forall|x: i32, y: i32, z: i32|
            min_x <= x <= max_x && min_y <= y <= max_y && min_z <= z <= max_z ==> #[trigger] solid.ensures((x, y, z), false),
{
    let dx = axis_len(min_x, max_x);
    let dy = axis_len(min_y, max_y);
    let dz = axis_len(min_z, max_z);
    assert(0 <= dx * dy <= 0x1_0000_0000_0000_0000) by (nonlinear_arith)
        requires
            0 <= dx <= 0x1_0000_0000,
            0 <= dy <= 0x1_0000_0000,
    ;
    assert(0 <= (dx * dy) * dz <= 0x1_0000_0000_0000_0000_0000_0000) by (nonlinear_arith)
        requires
            0 <= dx * dy <= 0x1_0000_0000_0000_0000,
            0 <= dz <= 0x1_0000_0000,
    ;
    let count: i128 = dx * dy * dz;
    if count > MAX_TERRAIN_OVERLAP_BLOCKS {
        return true;
    }
    if max_x < min_x || max_y < min_y || max_z < min_z {
        return false;
    }
    assert(max_x - min_x < 4096 && max_y - min_y < 4096 && max_z - min_z < 4096) by (nonlinear_arith)
        requires
            dx * dy * dz <= 4096,
            1 <= dx,
            1 <= dy,
            1 <= dz,
            dx == max_x - min_x + 1,
            dy == max_y - min_y + 1,
            dz == max_z - min_z + 1,
    ;
    let mut x: i64 = min_x as i64;
    while x <= max_x as i64
        invariant
            min_x <= x <= max_x + 1,
            max_x - min_x < 4096, max_y - min_y < 4096, max_z - min_z < 4096,
            min_y <= max_y, min_z <= max_z,
            block_count(min_x, min_y, min_z, max_x, max_y, max_z) <= 4096,
            forall|x: i32, y: i32, z: i32| solid.requires((x, y, z)),
            forall|a: i32, b: i32, c: i32| min_x <= a < x && min_y <= b <= max_y && min_z <= c <= max_z
                ==> #[trigger] solid.ensures((a, b, c), false),
        decreases max_x + 1 - x,
    {
        let xi = x as i32;
        let mut y: i64 = min_y as i64;
        while y <= max_y as i64
            invariant
                min_x <= xi <= max_x,
                xi == x,
                min_y <= y <= max_y + 1,
                max_x - min_x < 4096, max_y - min_y < 4096, max_z - min_z < 4096,
                min_z <= max_z,
                block_count(min_x, min_y, min_z, max_x, max_y, max_z) <= 4096,
                forall|x: i32, y: i32, z: i32| solid.requires((x, y, z)),
                forall|a: i32, b: i32, c: i32| min_x <= a < x && min_y <= b <= max_y && min_z <= c <= max_z
                    ==> #[trigger] solid.ensures((a, b, c), false),
                forall|b: i32, c: i32| min_y <= b < y && min_z <= c <= max_z ==> #[trigger] solid.ensures((xi, b, c), false),
            decreases max_y + 1 - y,
        {
            let yi = y as i32;
            let mut z: i64 = min_z as i64;
            while z <= max_z as i64
                invariant
                    min_x <= xi <= max_x,
                    min_y <= yi <= max_y,
                    yi == y,
                    min_z <= z <= max_z + 1,
                    max_x - min_x < 4096, max_y - min_y < 4096, max_z - min_z < 4096,
                    block_count(min_x, min_y, min_z, max_x, max_y, max_z) <= 4096,
                    forall|x: i32, y: i32, z: i32| solid.requires((x, y, z)),
                    forall|b: i32, c: i32| min_y <= b < y && min_z <= c <= max_z ==> #[trigger] solid.ensures((xi, b, c), false),
                    forall|c: i32| min_z <= c < z ==> #[trigger] solid.ensures((xi, yi, c), false),
                decreases max_z + 1 - z,
            {
                if solid(xi, yi, z as i32) {
                    return true;
                }
                z = z + 1;
            }
            y = y + 1;
        }
        x = x + 1;
    }
    false
}

impl<P, B, O> DimensionUniverse<P, B, O> {
    /// Section `(x, y, z)` is inside the terrain domain and holds terrain.
    pub open spec fn terrain_hit(self, x: i32, y: i32, z: i32) -> bool {
        in_terrain_domain(x, y, z) && self.terrain_sections@.contains(section_key(x, y, z))
    }

    /// Some section of the box `[x0, x1] x [y0, y1] x [z0, z1]` holds terrain.
    pub open spec fn terrain_in_box(self, x0: int, x1: int, y0: int, y1: int, z0: int, z1: int) -> bool {
        exists|x: i32, y: i32, z: i32|
            x0 <= x <= x1 && y0 <= y <= y1 && z0 <= z <= z1 && #[trigger] self.terrain_hit(x, y, z)
    }

    /// Records that the terrain section `(x, y, z)` is loaded. Sections
    /// outside the terrain domain are ignored.
    pub fn add_world_terrain_chunk(&mut self, x: i32, y: i32, z: i32)
        requires
            old(self).wf(),
        ensures
            final(self).wf(),
            final(self).terrain_sections@ == if in_terrain_domain(x, y, z) {
                old(self).terrain_sections@.insert(section_key(x, y, z))
            } else {
                old(self).terrain_sections@
            },
            final(self).same_scheduling(*old(self)),
            final(self).pose_dirty_bodies@ == old(self).pose_dirty_bodies@,
            final(self).pending_command_bodies@ == old(self).pending_command_bodies@,
            final(self).materialization_requests@ == old(self).materialization_requests@,
            final(self).pending_materializations@ == old(self).pending_materializations@,
            final(self).eviction_events@ == old(self).eviction_events@,
            final(self).pending_evictions@ == old(self).pending_evictions@,
    {
        if !is_inside_terrain_domain(x, y, z) {
            return;
        }
        self.terrain_sections.insert(pack_section_pos(x, y, z));
    }

    /// Records that the terrain section `(x, y, z)` is unloaded. Sections
    /// outside the terrain domain are ignored.
    pub fn remove_world_terrain_chunk(&mut self, x: i32, y: i32, z: i32)
        requires
            old(self).wf(),
        ensures
            final(self).wf(),
            final(self).terrain_sections@ == if in_terrain_domain(x, y, z) {
                old(self).terrain_sections@.remove(section_key(x, y, z))
            } else {
                old(self).terrain_sections@
            },
            final(self).same_scheduling(*old(self)),
            final(self).pose_dirty_bodies@ == old(self).pose_dirty_bodies@,
            final(self).pending_command_bodies@ == old(self).pending_command_bodies@,
            final(self).materialization_requests@ == old(self).materialization_requests@,
            final(self).pending_materializations@ == old(self).pending_materializations@,
            final(self).eviction_events@ == old(self).eviction_events@,
            final(self).pending_evictions@ == old(self).pending_evictions@,
    {
        if !is_inside_terrain_domain(x, y, z) {
            return;
        }
        self.terrain_sections.remove(&pack_section_pos(x, y, z));
    }

    /// Whether the swept box with block corners `(min_x, min_y, min_z)`
    /// and `(max_x, max_y, max_z)` may touch loaded terrain: never when no
    /// terrain is loaded; always when the box spans more than
    /// `MAX_SWEPT_TERRAIN_SECTIONS` sections; otherwise exactly when one of
    /// its sections inside the terrain domain is loaded.
    pub fn swept_intersects_terrain(
        &self,
        min_x: i32, min_y: i32, min_z: i32,
        max_x: i32, max_y: i32, max_z: i32,
    ) -> (hit: bool)
        ensures
            hit == (!self.terrain_sections@.is_empty() && (
                swept_section_count(min_x, min_y, min_z, max_x, max_y, max_z) > MAX_SWEPT_TERRAIN_SECTIONS
                || self.terrain_in_box(
                    section_of(min_x) as int, section_of(max_x) as int,
                    section_of(min_y) as int, section_of(max_y) as int,
                    section_of(min_z) as int, section_of(max_z) as int,
                ))),
    {
        if self.terrain_sections.is_empty() {
            return false;
        }
        let x0 = section_of_exec(min_x);
        let y0 = section_of_exec(min_y);
        let z0 = section_of_exec(min_z);
        let x1 = section_of_exec(max_x);
        let y1 = section_of_exec(max_y);
        let z1 = section_of_exec(max_z);
        let dx: i128 = x1 as i128 - x0 as i128 + 1;
        let dy: i128 = y1 as i128 - y0 as i128 + 1;
        let dz: i128 = z1 as i128 - z0 as i128 + 1;
        assert(-0x1000_0000_0000_0000 <= dx * dy <= 0x1000_0000_0000_0000) by (nonlinear_arith)
            requires
                -0x1000_0000 <= dx <= 0x1000_0000,
                -0x1000_0000 <= dy <= 0x1000_0000,
        ;
        assert(-0x1_0000_0000_0000_0000_0000_0000 <= (dx * dy) * dz <= 0x1_0000_0000_0000_0000_0000_0000)
            by (nonlinear_arith)
            requires
                -0x1000_0000_0000_0000 <= dx * dy <= 0x1000_0000_0000_0000,
                -0x1000_0000 <= dz <= 0x1000_0000,
        ;
        let count: i128 = dx * dy * dz;
        if count > MAX_SWEPT_TERRAIN_SECTIONS {
            return true;
        }
        let mut x: i32 = x0;
        while x <= x1
            invariant
                x0 <= x,
                x <= x1 + 1 || x == x0,
                !self.terrain_sections@.is_empty(),
                x0 == section_of(min_x), y0 == section_of(min_y), z0 == section_of(min_z),
                x1 == section_of(max_x), y1 == section_of(max_y), z1 == section_of(max_z),
                x1 < 0x800_0000, y1 < 0x800_0000, z1 < 0x800_0000,
                forall|a: i32, b: i32, c: i32| x0 <= a < x && y0 <= b <= y1 && z0 <= c <= z1
                    ==> !#[trigger] self.terrain_hit(a, b, c),
            ensures
                forall|a: i32, b: i32, c: i32| x0 <= a <= x1 && y0 <= b <= y1 && z0 <= c <= z1
                    ==> !#[trigger] self.terrain_hit(a, b, c),
            decreases x1 + 1 - x,
        {
            let mut y: i32 = y0;
            while y <= y1
                invariant
                    x0 <= x <= x1,
                    y0 <= y,
                    y <= y1 + 1 || y == y0,
                    !self.terrain_sections@.is_empty(),
                    x0 == section_of(min_x), y0 == section_of(min_y), z0 == section_of(min_z),
                    x1 == section_of(max_x), y1 == section_of(max_y), z1 == section_of(max_z),
                    x1 < 0x800_0000, y1 < 0x800_0000, z1 < 0x800_0000,
                    forall|a: i32, b: i32, c: i32| x0 <= a < x && y0 <= b <= y1 && z0 <= c <= z1
                        ==> !#[trigger] self.terrain_hit(a, b, c),
                    forall|b: i32, c: i32| y0 <= b < y && z0 <= c <= z1 ==> !#[trigger] self.terrain_hit(x, b, c),
                ensures
                    forall|b: i32, c: i32| y0 <= b <= y1 && z0 <= c <= z1 ==> !#[trigger] self.terrain_hit(x, b, c),
                decreases y1 + 1 - y,
            {
                let mut z: i32 = z0;
                while z <= z1
                    invariant
                        x0 <= x <= x1,
                        y0 <= y <= y1,
                        z0 <= z,
                        z <= z1 + 1 || z == z0,
                        !self.terrain_sections@.is_empty(),
                        x0 == section_of(min_x), y0 == section_of(min_y), z0 == section_of(min_z),
                        x1 == section_of(max_x), y1 == section_of(max_y), z1 == section_of(max_z),
                        x1 < 0x800_0000, y1 < 0x800_0000, z1 < 0x800_0000,
                        forall|b: i32, c: i32| y0 <= b < y && z0 <= c <= z1 ==> !#[trigger] self.terrain_hit(x, b, c),
                        forall|c: i32| z0 <= c < z ==> !#[trigger] self.terrain_hit(x, y, c),
                    ensures
                        forall|c: i32| z0 <= c <= z1 ==> !#[trigger] self.terrain_hit(x, y, c),
                    decreases z1 + 1 - z,
                {
                    if is_inside_terrain_domain(x, y, z) && self.terrain_sections.contains(&pack_section_pos(x, y, z)) {
                        assert(self.terrain_hit(x, y, z));
                        return true;
                    }
                    z = z + 1;
                }
                y = y + 1;
            }
            x = x + 1;
        }
        false
    }
}

} // verus!

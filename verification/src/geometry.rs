//! Block geometry of a body: its local block bounds, the sections whose
//! blocks changed since its collision shapes were last rebuilt, and the
//! growth of the octree that covers its bounds.
//!
//! The octree of a body is a cube whose side is a power of two, anchored
//! at its origin. When the bounds outgrow it, the cube is doubled towards
//! the side the bounds left, one step at a time, so that the blocks
//! already in it keep their coordinates.

use vstd::prelude::*;
use std::collections::{HashMap, HashSet};
use rapier3d::geometry::ColliderHandle;
use vstd::arithmetic::power2::{lemma2_to64, lemma_pow2_unfold, pow2};
use crate::command::VectorBits;
use crate::section::{pack_section_pos, section_key};

verus! {

broadcast use vstd::std_specs::hash::group_hash_axioms;

/// Declares `rapier3d::geometry::ColliderHandle`, the handle of a
/// collider in a region's collider set, so that a body's geometry can
/// carry it. Nothing is assumed of what it holds.
#[verifier::external_type_specification]
#[verifier::external_body]
pub struct ExColliderHandle(ColliderHandle);

/// A block position.
#[derive(Clone, Copy, Debug, PartialEq, Eq, Structural)]
pub struct BlockPos {
    pub x: i32,
    pub y: i32,
    pub z: i32,
}

/// A block lies in the box `[min, max]`, bounds included.
pub open spec fn in_block_box(min: BlockPos, max: BlockPos, x: i32, y: i32, z: i32) -> bool {
    min.x <= x <= max.x && min.y <= y <= max.y && min.z <= z <= max.z
}

/// Blocks in a section.
pub const SECTION_BLOCKS: usize = 4096;

/// A loaded section of 16x16x16 blocks. Each block is a collider id and
/// a physics-state id; block `(x, y, z)` of the section, each coordinate
/// in `0..16`, is at index `(y * 16 + z) * 16 + x`.
/// `serial_callback_blocks` counts the blocks whose collider needs a JVM
/// callback.
#[derive(Clone, Debug)]
pub struct ChunkSection {
    pub blocks: Vec<(u16, u16)>,
    pub serial_callback_blocks: u16,
}

/// The index of block `(x, y, z)` of a section.
pub open spec fn block_index(x: int, y: int, z: int) -> int {
    (y * 16 + z) * 16 + x
}

/// The block geometry of a body that a region simulates: its collider,
/// its local bounds, the cube of its octree (origin and size), its centre
/// of mass, its own chunks (when it has any), the change tracking of its
/// sections, its octrees `O` (the whole body and one per section), and
/// its other shapes `S` (mount and velocities), which nothing here reads.
pub struct ActiveLevelColliderInfo<O, S> {
    pub collider: Option<ColliderHandle>,
    pub local_bounds_min: Option<BlockPos>,
    pub local_bounds_max: Option<BlockPos>,
    pub octree_origin: Option<BlockPos>,
    pub octree_log_size: Option<u32>,
    pub center_of_mass: Option<VectorBits>,
    pub chunk_map: Option<HashMap<i64, ChunkSection>>,
    pub geometry_version: u64,
    pub dirty_sections: HashSet<i64>,
    pub octree: Option<O>,
    pub section_octrees: HashMap<i64, O>,
    pub shapes: S,
}

/// The block geometry kept for a body whether or not a region simulates
/// it.
pub struct PersistentBodyGeometry<O> {
    pub local_bounds_min: Option<BlockPos>,
    pub local_bounds_max: Option<BlockPos>,
    pub octree_origin: Option<BlockPos>,
    pub octree_log_size: Option<u32>,
    pub center_of_mass: Option<VectorBits>,
    pub chunk_map: Option<HashMap<i64, ChunkSection>>,
    pub geometry_version: u64,
    pub dirty_sections: HashSet<i64>,
    pub octree: Option<O>,
    pub section_octrees: HashMap<i64, O>,
}

/// What the caller does to the octree of a body after its bounds were
/// set: build a new one of size `log_size` from the body's blocks, or
/// grow the existing one by wrapping it once per octant, in order.
pub enum OctreeWork {
    Build { log_size: u32 },
    Grow { octants: Vec<i32> },
}

impl<O, S> ActiveLevelColliderInfo<O, S> {
    /// The geometry of a body with collider `collider`: no bounds, no
    /// octree, no chunks of its own, no dirty section, at version zero.
    pub fn new(collider: Option<ColliderHandle>, shapes: S) -> (info: Self)
        ensures
            info.collider == collider,
            info.local_bounds_min is None,
            info.local_bounds_max is None,
            info.octree_origin is None,
            info.octree_log_size is None,
            info.center_of_mass is None,
            info.chunk_map is None,
            info.geometry_version == 0,
            info.dirty_sections@ == Set::<i64>::empty(),
            info.octree is None,
            info.section_octrees@ == Map::<i64, O>::empty(),
            info.shapes == shapes,
    {
        ActiveLevelColliderInfo {
            collider,
            local_bounds_min: None,
            local_bounds_max: None,
            octree_origin: None,
            octree_log_size: None,
            center_of_mass: None,
            chunk_map: None,
            geometry_version: 0,
            dirty_sections: HashSet::new(),
            octree: None,
            section_octrees: HashMap::new(),
            shapes,
        }
    }

    /// The body holds chunks of its own.
    pub fn has_own_chunks(&self) -> (r: bool)
        ensures
            r == self.chunk_map is Some,
    {
        self.chunk_map.is_some()
    }

    /// Records that the blocks of section `(x, y, z)` changed: the version
    /// moves on by one, wrapping, and the section is marked dirty.
    pub fn mark_section_dirty(&mut self, x: i32, y: i32, z: i32)
        ensures
            final(self).geometry_version == old(self).geometry_version.wrapping_add(1),
            final(self).dirty_sections@ == old(self).dirty_sections@.insert(section_key(x, y, z)),
            final(self).collider == old(self).collider,
            final(self).local_bounds_min == old(self).local_bounds_min,
            final(self).local_bounds_max == old(self).local_bounds_max,
            final(self).octree_origin == old(self).octree_origin,
            final(self).octree_log_size == old(self).octree_log_size,
            final(self).center_of_mass == old(self).center_of_mass,
            final(self).chunk_map == old(self).chunk_map,
            final(self).octree == old(self).octree,
            final(self).section_octrees == old(self).section_octrees,
            final(self).shapes == old(self).shapes,
    {
        self.geometry_version = self.geometry_version.wrapping_add(1);
        self.dirty_sections.insert(pack_section_pos(x, y, z));
    }

    /// Whether block `(x, y, z)` lies within the local bounds; never when
    /// the bounds are not set.
    pub fn contains(&self, x: i32, y: i32, z: i32) -> (r: bool)
        ensures
            r == (self.local_bounds_min matches Some(min) && self.local_bounds_max matches Some(max)
                && in_block_box(min, max, x, y, z)),
    {
        match (self.local_bounds_min, self.local_bounds_max) {
            (Some(min), Some(max)) => min.x <= x && x <= max.x && min.y <= y && y <= max.y && min.z <= z
                && z <= max.z,
            _ => false,
        }
    }
}

impl<O> PersistentBodyGeometry<O> {
    /// The geometry of a body with no bounds, centre of mass, octree or
    /// chunks yet, no dirty section, at version zero.
    pub fn new() -> (geom: Self)
        ensures
            geom.local_bounds_min is None,
            geom.local_bounds_max is None,
            geom.octree_origin is None,
            geom.octree_log_size is None,
            geom.center_of_mass is None,
            geom.chunk_map is None,
            geom.geometry_version == 0,
            geom.dirty_sections@ == Set::<i64>::empty(),
            geom.octree is None,
            geom.section_octrees@ == Map::<i64, O>::empty(),
    {
        PersistentBodyGeometry {
            local_bounds_min: None,
            local_bounds_max: None,
            octree_origin: None,
            octree_log_size: None,
            center_of_mass: None,
            chunk_map: None,
            geometry_version: 0,
            dirty_sections: HashSet::new(),
            octree: None,
            section_octrees: HashMap::new(),
        }
    }

    /// Records that the blocks of section `(x, y, z)` changed: the version
    /// moves on by one, wrapping, and the section is marked dirty.
    pub fn mark_section_dirty(&mut self, x: i32, y: i32, z: i32)
        ensures
            final(self).geometry_version == old(self).geometry_version.wrapping_add(1),
            final(self).dirty_sections@ == old(self).dirty_sections@.insert(section_key(x, y, z)),
            final(self).local_bounds_min == old(self).local_bounds_min,
            final(self).local_bounds_max == old(self).local_bounds_max,
            final(self).octree_origin == old(self).octree_origin,
            final(self).octree_log_size == old(self).octree_log_size,
            final(self).center_of_mass == old(self).center_of_mass,
            final(self).chunk_map == old(self).chunk_map,
            final(self).octree == old(self).octree,
            final(self).section_octrees == old(self).section_octrees,
    {
        self.geometry_version = self.geometry_version.wrapping_add(1);
        self.dirty_sections.insert(pack_section_pos(x, y, z));
    }

    /// Records new local bounds `[min, max]` and centre of mass `com`, and
    /// returns whether the bounds differ from the recorded ones. When they
    /// do, the octrees built for the old bounds are dropped, with their
    /// cube.
    pub fn set_local_bounds(&mut self, min: BlockPos, max: BlockPos, com: VectorBits) -> (changed: bool)
        ensures
            changed == (old(self).local_bounds_min != Some(min) || old(self).local_bounds_max != Some(max)),
            final(self).local_bounds_min == Some(min),
            final(self).local_bounds_max == Some(max),
            final(self).center_of_mass == Some(com),
            changed ==> {
                &&& final(self).octree is None
                &&& final(self).section_octrees@ == Map::<i64, O>::empty()
                &&& final(self).octree_origin is None
                &&& final(self).octree_log_size is None
            },
            !changed ==> {
                &&& final(self).octree == old(self).octree
                &&& final(self).section_octrees == old(self).section_octrees
                &&& final(self).octree_origin == old(self).octree_origin
                &&& final(self).octree_log_size == old(self).octree_log_size
            },
            final(self).chunk_map == old(self).chunk_map,
            final(self).geometry_version == old(self).geometry_version,
            final(self).dirty_sections@ == old(self).dirty_sections@,
    {
        let same_min = match self.local_bounds_min {
            Some(m) => m.x == min.x && m.y == min.y && m.z == min.z,
            None => false,
        };
        let same_max = match self.local_bounds_max {
            Some(m) => m.x == max.x && m.y == max.y && m.z == max.z,
            None => false,
        };
        let changed = !(same_min && same_max);
        self.center_of_mass = Some(com);
        self.local_bounds_min = Some(min);
        self.local_bounds_max = Some(max);
        if changed {
            self.octree = None;
            self.section_octrees = HashMap::new();
            self.octree_origin = None;
            self.octree_log_size = None;
        }
        changed
    }
}

/// The longest side of the box `[min, max]`, less one.
pub open spec fn longest_span(min: BlockPos, max: BlockPos) -> int {
    let dx = max.x - min.x;
    let dy = max.y - min.y;
    let dz = max.z - min.z;
    if dx >= dy && dx >= dz { dx } else if dy >= dz { dy } else { dz }
}

/// The size of the first octree built over the box `[min, max]`: the
/// smallest power of two that holds its longest side.
pub fn initial_octree_log_size(min: BlockPos, max: BlockPos) -> (log_size: u32)
    requires
        0 <= longest_span(min, max) < 0x7fff_ffff,
        i32::MIN <= max.x - min.x <= i32::MAX,
        i32::MIN <= max.y - min.y <= i32::MAX,
        i32::MIN <= max.z - min.z <= i32::MAX,
    ensures
        log_size <= 31,
        pow2(log_size as nat) >= longest_span(min, max) + 1,
        log_size == 0 || pow2((log_size - 1) as nat) < longest_span(min, max) + 1,
{
    let dx = max.x - min.x;
    let dy = max.y - min.y;
    let dz = max.z - min.z;
    let longest = if dx >= dy && dx >= dz { dx } else if dy >= dz { dy } else { dz };
    let n: u64 = longest as u64 + 1;
    let mut side: u64 = 1;
    let mut log_size: u32 = 0;
    proof {
        lemma2_to64();
    }
    while side < n
        invariant
            1 <= n <= 0x8000_0000,
            n == longest_span(min, max) + 1,
            log_size <= 31,
            side == pow2(log_size as nat),
            side <= 0x8000_0000,
            log_size == 0 || pow2((log_size - 1) as nat) < n,
        decreases 32 - log_size,
    {
        proof {
            lemma_pow2_unfold((log_size + 1) as nat);
            lemma2_to64();
            if log_size >= 31 {
                assert(pow2(31) == 0x8000_0000);
                assert(side >= 0x8000_0000) by {
                    vstd::arithmetic::power2::lemma_pow2_strictly_increases(31, log_size as nat);
                }
            }
        }
        side = side * 2;
        log_size = log_size + 1;
    }
    log_size
}

/// Side of an octree of size `log_size`.
pub open spec fn octree_side(log_size: u32) -> int {
    (1i64 << log_size) as int
}

/// The octree anchored at `origin` with size `log_size` covers the box
/// `[min, max]`.
pub open spec fn octree_covers(origin: BlockPos, log_size: u32, min: BlockPos, max: BlockPos) -> bool {
    let side = octree_side(log_size);
    &&& min.x >= origin.x && min.y >= origin.y && min.z >= origin.z
    &&& max.x < origin.x + side && max.y < origin.y + side && max.z < origin.z + side
}

/// The octant that the old cube takes in the doubled one: bit 0, 1 and 2
/// are set when the cube grows towards negative x, y and z.
pub open spec fn growth_octant(origin: BlockPos, min: BlockPos) -> i32 {
    ((if min.x < origin.x { 1int } else { 0int }) + (if min.y < origin.y { 2int } else { 0int })
        + (if min.z < origin.z { 4int } else { 0int })) as i32
}

/// A coordinate of the doubled cube's origin: moved back by the old side
/// (as an `i32`) along an axis where the bounds left the cube.
pub open spec fn grown_coordinate(o: i32, m: i32, log_size: u32) -> int {
    if m < o { o - ((1i64 << log_size) as i32) } else { o as int }
}

/// Doubling the cube does not take its origin out of the `i32` range.
pub open spec fn growth_fits(origin: BlockPos, log_size: u32, min: BlockPos) -> bool {
    &&& i32::MIN <= grown_coordinate(origin.x, min.x, log_size) <= i32::MAX
    &&& i32::MIN <= grown_coordinate(origin.y, min.y, log_size) <= i32::MAX
    &&& i32::MIN <= grown_coordinate(origin.z, min.z, log_size) <= i32::MAX
}

fn grow_coordinate(o: i32, m: i32, log_size: u32, side: i64) -> (r: i32)
    requires
        log_size < 63,
        side == 1i64 << log_size,
        i32::MIN <= grown_coordinate(o, m, log_size) <= i32::MAX,
    ensures
        r == grown_coordinate(o, m, log_size),
{
    if m < o { o - (side as i32) } else { o }
}

/// One growth step of the octree anchored at `origin` with size
/// `log_size` towards the box `[min, max]`: `None` when it already covers
/// the box; otherwise the octant the old cube takes in the doubled one,
/// and the doubled cube's origin.
pub fn octree_growth_step(origin: BlockPos, log_size: u32, min: BlockPos, max: BlockPos) -> (step: Option<(i32, BlockPos)>)
    requires
        log_size < 63,
        !octree_covers(origin, log_size, min, max) ==> growth_fits(origin, log_size, min),
    ensures
        octree_covers(origin, log_size, min, max) ==> step is None,
        step matches Some((octant, _)) ==> {
            &&& 0 <= octant < 8
            &&& ((octant & 1i32) != 0) == (min.x < origin.x)
            &&& ((octant & 2i32) != 0) == (min.y < origin.y)
            &&& ((octant & 4i32) != 0) == (min.z < origin.z)
        },
        !octree_covers(origin, log_size, min, max) ==> step == Some((
            growth_octant(origin, min),
            BlockPos {
                x: grown_coordinate(origin.x, min.x, log_size) as i32,
                y: grown_coordinate(origin.y, min.y, log_size) as i32,
                z: grown_coordinate(origin.z, min.z, log_size) as i32,
            },
        )),
{
    let side: i64 = 1i64 << log_size;
    assert(0 < (1i64 << log_size) <= 0x4000_0000_0000_0000i64) by (bit_vector)
        requires
            log_size < 63,
    ;
    let covered = min.x as i64 >= origin.x as i64 && min.y as i64 >= origin.y as i64 && min.z as i64
        >= origin.z as i64 && (max.x as i64) < origin.x as i64 + side && (max.y as i64) < origin.y as i64
        + side && (max.z as i64) < origin.z as i64 + side;
    if covered {
        return None;
    }
    let mut octant: i32 = 0;
    if min.x < origin.x {
        octant = octant + 1;
    }
    if min.y < origin.y {
        octant = octant + 2;
    }
    if min.z < origin.z {
        octant = octant + 4;
    }
    proof {
        lemma_octant_bits(min.x < origin.x, min.y < origin.y, min.z < origin.z);
    }
    let grown = BlockPos {
        x: grow_coordinate(origin.x, min.x, log_size, side),
        y: grow_coordinate(origin.y, min.y, log_size, side),
        z: grow_coordinate(origin.z, min.z, log_size, side),
    };
    Some((octant, grown))
}

/// The octant number built from three axis flags has bit 0, 1 and 2 set
/// exactly when the x, y and z flag is set.
pub proof fn lemma_octant_bits(bx: bool, by: bool, bz: bool)
    ensures
        ({
            let o = ((if bx { 1int } else { 0int }) + (if by { 2int } else { 0int }) + (if bz { 4int } else { 0int })) as i32;
            &&& 0 <= o < 8
            &&& ((o & 1i32) != 0) == bx
            &&& ((o & 2i32) != 0) == by
            &&& ((o & 4i32) != 0) == bz
        }),
{
    let o = ((if bx { 1int } else { 0int }) + (if by { 2int } else { 0int }) + (if bz { 4int } else { 0int })) as i32;
    assert(((o & 1i32) != 0) == bx && ((o & 2i32) != 0) == by && ((o & 4i32) != 0) == bz) by (bit_vector)
        requires
            o == ((if bx { 1i32 } else { 0i32 }) + (if by { 2i32 } else { 0i32 }) + (if bz { 4i32 } else { 0i32 })),
    ;
}

/// When the bounds leave the cube, the old cube becomes the octant of the
/// doubled one whose bit 0, 1 and 2 are set exactly where the bounds leave
/// it towards negative x, y and z.
pub proof fn lemma_growth_octant_follows_axes(origin: BlockPos, min: BlockPos)
    ensures
        0 <= growth_octant(origin, min) < 8,
        ((growth_octant(origin, min) & 1i32) != 0) == (min.x < origin.x),
        ((growth_octant(origin, min) & 2i32) != 0) == (min.y < origin.y),
        ((growth_octant(origin, min) & 4i32) != 0) == (min.z < origin.z),
{
    lemma_octant_bits(min.x < origin.x, min.y < origin.y, min.z < origin.z);
}

/// A growth step of an octree smaller than `2^31` keeps the old cube
/// inside the doubled one and moves the origin back by one old side
/// exactly along the axes where the bounds left the cube.
pub proof fn lemma_growth_keeps_old_cube(origin: BlockPos, log_size: u32, min: BlockPos, max: BlockPos)
    requires
        log_size < 31,
        !octree_covers(origin, log_size, min, max),
        growth_fits(origin, log_size, min),
    ensures
        ({
            let side = octree_side(log_size);
            let side2 = octree_side((log_size + 1) as u32);
            let gx = grown_coordinate(origin.x, min.x, log_size);
            let gy = grown_coordinate(origin.y, min.y, log_size);
            let gz = grown_coordinate(origin.z, min.z, log_size);
            &&& side2 == 2 * side
            &&& gx <= origin.x && origin.x + side <= gx + side2
            &&& gy <= origin.y && origin.y + side <= gy + side2
            &&& gz <= origin.z && origin.z + side <= gz + side2
            &&& gx == if min.x < origin.x { origin.x - side } else { origin.x as int }
            &&& gy == if min.y < origin.y { origin.y - side } else { origin.y as int }
            &&& gz == if min.z < origin.z { origin.z - side } else { origin.z as int }
        }),
{
    assert(((1i64 << log_size) as i32) as i64 == (1i64 << log_size) && 0 < (1i64 << log_size)
        && (1i64 << ((log_size + 1) as u32)) == 2 * (1i64 << log_size)) by (bit_vector)
        requires
            log_size < 31,
    ;
}

/// The origin of the cube after one growth step towards `min`.
pub open spec fn grown_origin(origin: BlockPos, log_size: u32, min: BlockPos) -> BlockPos {
    BlockPos {
        x: grown_coordinate(origin.x, min.x, log_size) as i32,
        y: grown_coordinate(origin.y, min.y, log_size) as i32,
        z: grown_coordinate(origin.z, min.z, log_size) as i32,
    }
}

/// Growing the cube anchored at `origin` with size `log_size` until it
/// covers `[min, max]` stays within the `i32` range and ends before the
/// side reaches `2^30`.
pub open spec fn growth_ok(origin: BlockPos, log_size: u32, min: BlockPos, max: BlockPos) -> bool
    decreases 31 - log_size,
{
    if octree_covers(origin, log_size, min, max) {
        true
    } else if log_size >= 30 {
        false
    } else {
        growth_fits(origin, log_size, min) && growth_ok(
            grown_origin(origin, log_size, min),
            (log_size + 1) as u32,
            min,
            max,
        )
    }
}

/// The cube that growth ends with: its origin and size.
pub open spec fn grown_cube(origin: BlockPos, log_size: u32, min: BlockPos, max: BlockPos) -> (BlockPos, u32)
    decreases 31 - log_size,
{
    if octree_covers(origin, log_size, min, max) || log_size >= 30 {
        (origin, log_size)
    } else {
        grown_cube(grown_origin(origin, log_size, min), (log_size + 1) as u32, min, max)
    }
}

/// The octants of the growth steps, in order.
pub open spec fn growth_octants(origin: BlockPos, log_size: u32, min: BlockPos, max: BlockPos) -> Seq<i32>
    decreases 31 - log_size,
{
    if octree_covers(origin, log_size, min, max) || log_size >= 30 {
        Seq::empty()
    } else {
        seq![growth_octant(origin, min)] + growth_octants(
            grown_origin(origin, log_size, min),
            (log_size + 1) as u32,
            min,
            max,
        )
    }
}

/// The cube `(big, big_log)` contains the cube `(small, small_log)`.
pub open spec fn cube_contains(big: BlockPos, big_log: u32, small: BlockPos, small_log: u32) -> bool {
    let b = octree_side(big_log);
    let s = octree_side(small_log);
    &&& big.x <= small.x && small.x + s <= big.x + b
    &&& big.y <= small.y && small.y + s <= big.y + b
    &&& big.z <= small.z && small.z + s <= big.z + b
}

/// The size of the first octree over `[min, max]` is `log_size`: the
/// smallest power of two that holds the box's longest side.
pub open spec fn is_first_octree_size(min: BlockPos, max: BlockPos, log_size: u32) -> bool {
    &&& log_size <= 31
    &&& pow2(log_size as nat) >= longest_span(min, max) + 1
    &&& (log_size == 0 || pow2((log_size - 1) as nat) < longest_span(min, max) + 1)
}

/// The bounds a first octree can be built over.
pub open spec fn first_octree_fits(min: BlockPos, max: BlockPos) -> bool {
    &&& 0 <= longest_span(min, max) < 0x7fff_ffff
    &&& i32::MIN <= max.x - min.x <= i32::MAX
    &&& i32::MIN <= max.y - min.y <= i32::MAX
    &&& i32::MIN <= max.z - min.z <= i32::MAX
}

/// Grows the cube `(origin, log_size)` until it covers `[min, max]`,
/// returning the octants of the steps and the final cube.
fn grow_until_covered(origin: BlockPos, log_size: u32, min: BlockPos, max: BlockPos) -> (r: (Vec<i32>, BlockPos, u32))
    requires
        log_size <= 30,
        growth_ok(origin, log_size, min, max),
    ensures
        r.0@ == growth_octants(origin, log_size, min, max),
        (r.1, r.2) == grown_cube(origin, log_size, min, max),
        octree_covers(r.1, r.2, min, max),
        cube_contains(r.1, r.2, origin, log_size),
{
    let mut octants: Vec<i32> = Vec::new();
    let mut o = origin;
    let mut l = log_size;
    loop
        invariant
            l <= 30,
            log_size <= l,
            growth_ok(o, l, min, max),
            grown_cube(o, l, min, max) == grown_cube(origin, log_size, min, max),
            octants@ + growth_octants(o, l, min, max) == growth_octants(origin, log_size, min, max),
            cube_contains(o, l, origin, log_size),
        ensures
            octree_covers(o, l, min, max),
            (o, l) == grown_cube(origin, log_size, min, max),
            octants@ == growth_octants(origin, log_size, min, max),
            cube_contains(o, l, origin, log_size),
        decreases 31 - l,
    {
        match octree_growth_step(o, l, min, max) {
            None => {
                assert(octants@ + Seq::<i32>::empty() =~= octants@);
                break;
            },
            Some((octant, next)) => {
                proof {
                    lemma_growth_keeps_old_cube(o, l, min, max);
                    assert(next == grown_origin(o, l, min));
                    assert((octants@.push(octant)) + growth_octants(next, (l + 1) as u32, min, max)
                        =~= octants@ + growth_octants(o, l, min, max));
                    assert(octree_side((l + 1) as u32) == 2 * octree_side(l));
                }
                octants.push(octant);
                o = next;
                l = l + 1;
            },
        }
    }
    (octants, o, l)
}

/// Whether growth of the cube `(origin, log_size)` towards `[min, max]`
/// stays within its limits.
fn growth_ok_exec(origin: BlockPos, log_size: u32, min: BlockPos, max: BlockPos) -> (r: bool)
    requires
        log_size <= 30,
    ensures
        r == growth_ok(origin, log_size, min, max),
{
    let mut o = origin;
    let mut l = log_size;
    loop
        invariant
            l <= 30,
            growth_ok(o, l, min, max) == growth_ok(origin, log_size, min, max),
        decreases 31 - l,
    {
        let side: i64 = 1i64 << l;
        assert(0 < (1i64 << l) <= 0x4000_0000i64 && ((1i64 << l) as i32) as i64 == (1i64 << l)) by (bit_vector)
            requires
                l <= 30,
        ;
        let covered = min.x as i64 >= o.x as i64 && min.y as i64 >= o.y as i64 && min.z as i64 >= o.z as i64
            && (max.x as i64) < o.x as i64 + side && (max.y as i64) < o.y as i64 + side
            && (max.z as i64) < o.z as i64 + side;
        if covered {
            return true;
        }
        if l >= 30 {
            return false;
        }
        let fits = (min.x >= o.x || o.x as i64 - side >= i32::MIN as i64)
            && (min.y >= o.y || o.y as i64 - side >= i32::MIN as i64)
            && (min.z >= o.z || o.z as i64 - side >= i32::MIN as i64);
        if !fits {
            return false;
        }
        o = BlockPos {
            x: grow_coordinate(o.x, min.x, l, side),
            y: grow_coordinate(o.y, min.y, l, side),
            z: grow_coordinate(o.z, min.z, l, side),
        };
        l = l + 1;
    }
}

/// Whether a first octree can be built over `[min, max]`.
pub fn octree_fits(min: BlockPos, max: BlockPos) -> (r: bool)
    ensures
        r == first_octree_fits(min, max),
{
    let dx = max.x as i64 - min.x as i64;
    let dy = max.y as i64 - min.y as i64;
    let dz = max.z as i64 - min.z as i64;
    let in_range = i32::MIN as i64 <= dx && dx <= i32::MAX as i64 && i32::MIN as i64 <= dy
        && dy <= i32::MAX as i64 && i32::MIN as i64 <= dz && dz <= i32::MAX as i64;
    let longest = if dx >= dy && dx >= dz { dx } else if dy >= dz { dy } else { dz };
    in_range && 0 <= longest && longest < 0x7fff_ffff
}

impl<O, S> ActiveLevelColliderInfo<O, S> {
    /// Whether the bounds `[min, max]` can be set: a first octree over them
    /// has a side below `2^31` and fits the `i32` range, or the existing
    /// cube reaches them by growth that stays in range and below `2^30`.
    pub fn local_bounds_fit(&self, min: BlockPos, max: BlockPos) -> (r: bool)
        ensures
            r == ({
                &&& self.octree is None ==> first_octree_fits(min, max)
                &&& self.octree is Some ==> {
                    &&& self.octree_origin is Some
                    &&& self.octree_log_size matches Some(l) && l <= 30
                    &&& growth_ok(self.octree_origin->0, self.octree_log_size->0, min, max)
                }
            }),
    {
        if self.octree.is_none() {
            octree_fits(min, max)
        } else {
            match (self.octree_origin, self.octree_log_size) {
                (Some(origin), Some(l)) => l <= 30 && growth_ok_exec(origin, l, min, max),
                _ => false,
            }
        }
    }

    /// Sets the local bounds to `[min, max]` and says what to do to the
    /// octree: with no octree yet, one is to be built, anchored at `min`
    /// and just large enough for the box's longest side; otherwise the
    /// existing cube is doubled, towards the side the bounds left, until
    /// it covers them, keeping the old cube inside.
    pub fn set_local_bounds(&mut self, min: BlockPos, max: BlockPos) -> (work: OctreeWork)
        requires
            old(self).octree is None ==> first_octree_fits(min, max),
            old(self).octree is Some ==> {
                &&& old(self).octree_origin is Some
                &&& old(self).octree_log_size matches Some(l) && l <= 30
                &&& growth_ok(old(self).octree_origin->0, old(self).octree_log_size->0, min, max)
            },
        ensures
            final(self).local_bounds_min == Some(min),
            final(self).local_bounds_max == Some(max),
            old(self).octree is None ==> (work matches OctreeWork::Build { log_size } && {
                &&& is_first_octree_size(min, max, log_size)
                &&& final(self).octree_origin == Some(min)
                &&& final(self).octree_log_size == Some(log_size)
            }),
            old(self).octree is Some ==> (work matches OctreeWork::Grow { octants } && {
                let o0 = old(self).octree_origin->0;
                let l0 = old(self).octree_log_size->0;
                let (o1, l1) = grown_cube(o0, l0, min, max);
                &&& octants@ == growth_octants(o0, l0, min, max)
                &&& final(self).octree_origin == Some(o1)
                &&& final(self).octree_log_size == Some(l1)
                &&& octree_covers(o1, l1, min, max)
                &&& cube_contains(o1, l1, o0, l0)
            }),
            final(self).collider == old(self).collider,
            final(self).center_of_mass == old(self).center_of_mass,
            final(self).chunk_map == old(self).chunk_map,
            final(self).geometry_version == old(self).geometry_version,
            final(self).dirty_sections@ == old(self).dirty_sections@,
            final(self).octree == old(self).octree,
            final(self).section_octrees == old(self).section_octrees,
            final(self).shapes == old(self).shapes,
    {
        let work = if self.octree.is_none() {
            let log_size = initial_octree_log_size(min, max);
            self.octree_origin = Some(min);
            self.octree_log_size = Some(log_size);
            OctreeWork::Build { log_size }
        } else {
            let origin = self.octree_origin.unwrap();
            let log_size = self.octree_log_size.unwrap();
            let (octants, o, l) = grow_until_covered(origin, log_size, min, max);
            self.octree_origin = Some(o);
            self.octree_log_size = Some(l);
            OctreeWork::Grow { octants }
        };
        self.local_bounds_min = Some(min);
        self.local_bounds_max = Some(max);
        work
    }

    /// Drops the octrees, their cube and the dirty marks, sets the local
    /// bounds to `[min, max]`, and says to build a first octree over them,
    /// anchored at `min`.
    pub fn rebuild_octree(&mut self, min: BlockPos, max: BlockPos) -> (work: OctreeWork)
        requires
            first_octree_fits(min, max),
        ensures
            work matches OctreeWork::Build { log_size } && {
                &&& is_first_octree_size(min, max, log_size)
                &&& final(self).octree_origin == Some(min)
                &&& final(self).octree_log_size == Some(log_size)
            },
            final(self).local_bounds_min == Some(min),
            final(self).local_bounds_max == Some(max),
            final(self).octree is None,
            final(self).section_octrees@ == Map::<i64, O>::empty(),
            final(self).dirty_sections@ == Set::<i64>::empty(),
            final(self).collider == old(self).collider,
            final(self).center_of_mass == old(self).center_of_mass,
            final(self).chunk_map == old(self).chunk_map,
            final(self).geometry_version == old(self).geometry_version,
            final(self).shapes == old(self).shapes,
    {
        self.octree = None;
        self.section_octrees = HashMap::new();
        self.octree_origin = None;
        self.octree_log_size = None;
        self.dirty_sections = HashSet::new();
        self.set_local_bounds(min, max)
    }
}

} // verus!

//! Properties of the universe that span several operations.

use vstd::prelude::*;
use crate::callbacks::{block_parts, count_after_replace, SableSceneData, SectionOwner};
use crate::chunks::{block_section_key, block_slot, decoded_blocks, has_solid};
use crate::lifecycle::{DueAction, ACTIVE_RECHECK_INTERVAL};
use crate::command::{
    commands_from, field_i32, field_u64, header_outcome, PhysicsCommand, VectorBits,
    COMMAND_HEADER_SIZE,
};
use crate::geometry::{ActiveLevelColliderInfo, ChunkSection};
use crate::spatial::{in_range, range_volume, CellRange, MacroCell, WorldSpatialIndex, MAX_GRID_CELLS_PER_BODY};
use crate::section::{in_terrain_domain, section_key};
use crate::universe::{
    entry_is_live, next_generation, other_than, sched_le, DimensionUniverse, LevelColliderID,
    ResidentPhysicsBody, ScheduledBody, SimulationTier,
};

verus! {

/// After body `id` is rescheduled at `tick`, an entry of the body is live
/// exactly when it carries `tick` and the body's new generation: the entry
/// just queued is live and every other entry of the body is stale.
pub proof fn lemma_rescheduling_supersedes_earlier_entries<P, B, O>(
    before: DimensionUniverse<P, B, O>,
    after: DimensionUniverse<P, B, O>,
    id: LevelColliderID,
    tick: u64,
)
    requires
        before.universe_bodies@.contains_key(id),
        after.body_rescheduled(before, id, tick),
    ensures
        ({
            let fresh = ScheduledBody {
                tick,
                id,
                generation: next_generation(before.universe_bodies@[id].schedule_generation),
            };
            &&& after.scheduled().to_multiset().count(fresh) > 0
            &&& forall|e: ScheduledBody| e.id == id ==> (#[trigger] entry_is_live(after.universe_bodies@, e) <==> e == fresh)
        }),
{
    broadcast use vstd::multiset::group_multiset_axioms;
}

/// Two bodies popped one after the other come in scheduler order: the
/// second one's entry is not earlier than the first one's.
pub proof fn lemma_due_bodies_pop_in_tick_order<P, B, O>(
    u0: DimensionUniverse<P, B, O>,
    u1: DimensionUniverse<P, B, O>,
    u2: DimensionUniverse<P, B, O>,
    a: LevelColliderID,
    b: LevelColliderID,
)
    requires
        u0.wf(),
        u1.popped_due(u0, Some(a)),
        u2.popped_due(u1, Some(b)),
    ensures
        ({
            let first = u0.scheduled()[u1.scheduled().len() as int];
            let second = u1.scheduled()[u2.scheduled().len() as int];
            &&& first.id == a
            &&& second.id == b
            &&& sched_le(first, second)
            &&& first.tick <= second.tick
        }),
{
    let n1 = u1.scheduled().len() as int;
    let n2 = u2.scheduled().len() as int;
    assert(u1.scheduled()[n2] == u0.scheduled()[n2]);
    assert(sched_le(u0.scheduled()[n1], u0.scheduled()[n2]));
}

/// Asking twice for a body to be materialized, before the requests are
/// drained, queues a single request.
pub proof fn lemma_materialization_request_is_idempotent<P, B, O>(
    u0: DimensionUniverse<P, B, O>,
    u1: DimensionUniverse<P, B, O>,
    u2: DimensionUniverse<P, B, O>,
    id: LevelColliderID,
)
    requires
        u1.materialization_requested(u0, id),
        u2.materialization_requested(u1, id),
    ensures
        u2.materialization_requests@ == u1.materialization_requests@,
        u2.pending_materializations@ == u1.pending_materializations@,
{
    assert(u2.pending_materializations@ =~= u1.pending_materializations@);
}

/// Recording the eviction of a body twice, before the events are drained,
/// queues a single event.
pub proof fn lemma_eviction_is_recorded_once<P, B, O>(
    u0: DimensionUniverse<P, B, O>,
    u1: DimensionUniverse<P, B, O>,
    u2: DimensionUniverse<P, B, O>,
    id: LevelColliderID,
)
    requires
        u1.eviction_recorded(u0, id),
        u2.eviction_recorded(u1, id),
    ensures
        u2.eviction_events@ == u1.eviction_events@,
        u2.pending_evictions@ == u1.pending_evictions@,
{
    assert(u2.pending_evictions@ =~= u1.pending_evictions@);
}

/// A resident body that is evicted with an event and materialized again
/// before the events are drained ends resident in its new region, with no
/// eviction event or mark left, and with its pose marked dirty.
pub proof fn lemma_rematerialization_withdraws_eviction<P, B, O>(
    u0: DimensionUniverse<P, B, O>,
    u1: DimensionUniverse<P, B, O>,
    u2: DimensionUniverse<P, B, O>,
    id: LevelColliderID,
    translation: VectorBits,
    physics: P,
    resident: ResidentPhysicsBody,
    changed: bool,
)
    requires
        u0.universe_bodies@.contains_key(id),
        u0.universe_bodies@[id].resident is Some,
        u1.evicted(u0, id, translation, physics, true),
        u2.made_resident(u1, id, resident, changed),
    ensures
        changed,
        u2.universe_bodies@[id].resident == Some(resident),
        !u2.eviction_events@.contains(id),
        !u2.pending_evictions@.contains(id),
        u2.pose_dirty_bodies@.contains(id),
{
    let s = u1.eviction_events@;
    if u2.eviction_events@.contains(id) {
        let k = choose|k: int| 0 <= k < u2.eviction_events@.len() && u2.eviction_events@[k] == id;
        s.lemma_filter_pred(other_than(id), k);
    }
}

/// A removed body leaves no trace that an operation could pick up: no
/// record, no live scheduler entry, no cell, bounds or large-body entry,
/// no candidacy in any query, no pending mark and no stored geometry.
pub proof fn lemma_removed_body_leaves_no_trace<P, B, O>(
    before: DimensionUniverse<P, B, O>,
    after: DimensionUniverse<P, B, O>,
    id: LevelColliderID,
)
    requires
        after.body_removed(before, id),
    ensures
        !after.universe_bodies@.contains_key(id),
        forall|e: ScheduledBody| e.id == id ==> !#[trigger] entry_is_live(after.universe_bodies@, e),
        forall|c: MacroCell| !(#[trigger] after.spatial_index.occupants(c)).contains(id),
        !after.spatial_index.bounds@.contains_key(id),
        !after.spatial_index.large_bodies@.contains(id),
        forall|range: CellRange, except: usize| !#[trigger] after.spatial_index.is_candidate(range, except, id),
        !after.pose_dirty_bodies@.contains(id),
        !after.pending_command_bodies@.contains(id),
        !after.pending_materializations@.contains(id),
        !after.pending_evictions@.contains(id),
        !after.body_geometries@.contains_key(id),
{
}

/// A resident body evicted with an event has its id among the queued
/// eviction events, whether or not an eviction of it was already pending.
pub proof fn lemma_evicted_body_is_announced<P, B, O>(
    before: DimensionUniverse<P, B, O>,
    after: DimensionUniverse<P, B, O>,
    id: LevelColliderID,
    translation: VectorBits,
    physics: P,
)
    requires
        before.wf(),
        before.universe_bodies@.contains_key(id),
        before.universe_bodies@[id].resident is Some,
        after.evicted(before, id, translation, physics, true),
    ensures
        after.eviction_events@.contains(id),
        after.pending_evictions@.contains(id),
{
    if !before.pending_evictions@.contains(id) {
        assert(after.eviction_events@.last() == id);
        assert(after.eviction_events@[after.eviction_events@.len() - 1] == id);
    }
}

/// A body registered over `range` is a candidate of every query whose
/// range shares a cell with it, and of every query when it is large.
pub proof fn lemma_registered_body_is_a_candidate<B>(
    before: WorldSpatialIndex<B>,
    after: WorldSpatialIndex<B>,
    id: usize,
    range: CellRange,
    bounds: B,
    query: CellRange,
    except: usize,
    shared: MacroCell,
)
    requires
        after.is_update_of(before, id, range, bounds),
        id != except,
        range_volume(range) > MAX_GRID_CELLS_PER_BODY || (in_range(shared, range) && in_range(shared, query)),
    ensures
        after.is_candidate(query, except, id),
        after.bounds@[id] == bounds,
{
    if range_volume(range) <= MAX_GRID_CELLS_PER_BODY {
        assert(after.occupants(shared).contains(id));
    }
}

/// After body `id` is registered over `range` with `bounds`, its earlier
/// registration is forgotten: it is a candidate of a query exactly when it
/// is large or `range` shares a cell with the query's range, its bounds
/// are `bounds`, and every other body's candidacy and bounds are as they
/// were.
pub proof fn lemma_update_replaces_registration<B>(
    before: WorldSpatialIndex<B>,
    after: WorldSpatialIndex<B>,
    id: usize,
    range: CellRange,
    bounds: B,
    query: CellRange,
    except: usize,
)
    requires
        after.is_update_of(before, id, range, bounds),
        id != except,
    ensures
        after.is_candidate(query, except, id) <==> (range_volume(range) > MAX_GRID_CELLS_PER_BODY
            || exists|c: MacroCell| in_range(c, range) && #[trigger] in_range(c, query)),
        after.bounds@[id] == bounds,
        forall|x: usize| x != id ==> (#[trigger] after.is_candidate(query, except, x) <==> before.is_candidate(query, except, x)),
        forall|x: usize| x != id ==> (#[trigger] after.bounds@.contains_key(x) <==> before.bounds@.contains_key(x))
            && (after.bounds@.contains_key(x) ==> after.bounds@[x] == before.bounds@[x]),
{
    if range_volume(range) <= MAX_GRID_CELLS_PER_BODY {
        if after.is_candidate(query, except, id) {
            let c = choose|c: MacroCell| in_range(c, query) && #[trigger] after.occupants(c).contains(id);
            assert(in_range(c, range));
        }
        if exists|c: MacroCell| in_range(c, range) && #[trigger] in_range(c, query) {
            let c = choose|c: MacroCell| in_range(c, range) && #[trigger] in_range(c, query);
            assert(after.occupants(c).contains(id));
        }
    } else {
        assert(after.large_bodies@.contains(id));
    }
    assert forall|x: usize| x != id implies (#[trigger] after.is_candidate(query, except, x) <==> before.is_candidate(query, except, x)) by {
        if after.is_candidate(query, except, x) && !after.large_bodies@.contains(x) {
            let c = choose|c: MacroCell| in_range(c, query) && #[trigger] after.occupants(c).contains(x);
            assert(before.occupants(c).contains(x));
        }
        if before.is_candidate(query, except, x) && !before.large_bodies@.contains(x) {
            let c = choose|c: MacroCell| in_range(c, query) && #[trigger] before.occupants(c).contains(x);
            assert(after.occupants(c).contains(x));
        }
    }
}

/// Registering a body twice over the same range with the same bounds
/// leaves the index as the first registration left it.
pub proof fn lemma_update_is_idempotent<B>(
    s0: WorldSpatialIndex<B>,
    s1: WorldSpatialIndex<B>,
    s2: WorldSpatialIndex<B>,
    id: usize,
    range: CellRange,
    bounds: B,
)
    requires
        s1.is_update_of(s0, id, range, bounds),
        s2.is_update_of(s1, id, range, bounds),
    ensures
        s2.bounds@ == s1.bounds@,
        s2.large_bodies@ == s1.large_bodies@,
        forall|c: MacroCell| #[trigger] s2.occupants(c) == s1.occupants(c),
        forall|q: CellRange, except: usize, x: usize|
            #[trigger] s2.is_candidate(q, except, x) == s1.is_candidate(q, except, x),
{
    assert(s2.bounds@ =~= s1.bounds@);
    assert(s2.large_bodies@ =~= s1.large_bodies@);
    assert forall|c: MacroCell| #[trigger] s2.occupants(c) == s1.occupants(c) by {
        assert(s2.occupants(c) =~= s1.occupants(c));
    }
    assert forall|q: CellRange, except: usize, x: usize|
        #[trigger] s2.is_candidate(q, except, x) == s1.is_candidate(q, except, x) by {
        if s2.is_candidate(q, except, x) && !s2.large_bodies@.contains(x) {
            let c = choose|c: MacroCell| in_range(c, q) && #[trigger] s2.occupants(c).contains(x);
            assert(s1.occupants(c).contains(x));
        }
        if s1.is_candidate(q, except, x) && !s1.large_bodies@.contains(x) {
            let c = choose|c: MacroCell| in_range(c, q) && #[trigger] s1.occupants(c).contains(x);
            assert(s2.occupants(c).contains(x));
        }
    }
}

/// A loaded terrain section inside the domain is seen by the terrain
/// test, and an unloaded one is not.
pub proof fn lemma_terrain_load_and_unload<P, B, O>(
    before: DimensionUniverse<P, B, O>,
    loaded: DimensionUniverse<P, B, O>,
    unloaded: DimensionUniverse<P, B, O>,
    x: i32,
    y: i32,
    z: i32,
)
    requires
        in_terrain_domain(x, y, z),
        loaded.terrain_sections@ == before.terrain_sections@.insert(section_key(x, y, z)),
        unloaded.terrain_sections@ == loaded.terrain_sections@.remove(section_key(x, y, z)),
    ensures
        loaded.terrain_hit(x, y, z),
        !unloaded.terrain_hit(x, y, z),
{
}

/// A body's persistent geometry outlives its residency: evicting it and
/// materializing it again leaves every stored geometry as it was.
pub proof fn lemma_geometry_survives_residency<P, B, O>(
    u0: DimensionUniverse<P, B, O>,
    u1: DimensionUniverse<P, B, O>,
    u2: DimensionUniverse<P, B, O>,
    id: LevelColliderID,
    translation: VectorBits,
    physics: P,
    emit_event: bool,
    resident: ResidentPhysicsBody,
    changed: bool,
)
    requires
        u1.evicted(u0, id, translation, physics, emit_event),
        u2.made_resident(u1, id, resident, changed),
    ensures
        u2.body_geometries@ == u0.body_geometries@,
{
}

/// Loading a section where none was and unloading it again gives back the
/// sections of that kind and the region's count of callback sections as
/// they were.
pub proof fn lemma_chunk_load_then_unload<O, S, C>(
    s0: SableSceneData<O, S, C>,
    s1: SableSceneData<O, S, C>,
    s2: SableSceneData<O, S, C>,
    owner: SectionOwner,
    object: LevelColliderID,
    key: i64,
    section: ChunkSection,
    dirty_on_load: bool,
    dirty_on_unload: bool,
)
    requires
        owner == SectionOwner::SubLevel ==> s0.level_colliders@.contains_key(object),
        s0.owned_section(owner, object, key) is None,
        s1.section_replaced(s0, owner, object, key, Some(section), dirty_on_load),
        s1.callback_sections(owner) == count_after_replace(
            s0.callback_sections(owner), None, Some(section.serial_callback_blocks)),
        s2.section_replaced(s1, owner, object, key, None, dirty_on_unload),
        s2.callback_sections(owner) == count_after_replace(
            s1.callback_sections(owner), Some(section.serial_callback_blocks), None),
    ensures
        forall|k: i64| #[trigger] s2.owned_section(owner, object, k) == s0.owned_section(owner, object, k),
        s2.callback_sections(owner) == s0.callback_sections(owner),
{
    match owner {
        SectionOwner::Terrain => {
            assert(s2.main_level_chunks@ =~= s0.main_level_chunks@);
        },
        SectionOwner::SubLevel => {
            let m0 = crate::chunks::sections_of(s0.level_colliders@[object].chunk_map);
            assert(!m0.contains_key(key));
            assert(crate::chunks::sections_of(s2.level_colliders@[object].chunk_map) =~= m0);
        },
    }
}

/// Geometry changes incrementally: a change to one section of a
/// sub-level's own blocks (a load, an unload or a block edit) leaves every
/// other section as it was, marks that section alone as newly dirty, and
/// moves the body's geometry version on by one.
pub proof fn lemma_sub_level_change_is_incremental<O, S, C>(
    before: SableSceneData<O, S, C>,
    after: SableSceneData<O, S, C>,
    object: LevelColliderID,
    key: i64,
    section: Option<ChunkSection>,
)
    requires
        before.level_colliders@.contains_key(object),
        after.section_replaced(before, SectionOwner::SubLevel, object, key, section, true),
    ensures
        forall|k: i64| k != key ==> #[trigger] after.owned_section(SectionOwner::SubLevel, object, k)
            == before.owned_section(SectionOwner::SubLevel, object, k),
        after.owned_section(SectionOwner::SubLevel, object, key) == section,
        after.level_colliders@[object].dirty_sections@ == before.level_colliders@[object].dirty_sections@.insert(key),
        after.level_colliders@[object].geometry_version
            == before.level_colliders@[object].geometry_version.wrapping_add(1),
        forall|other: LevelColliderID| other != object && #[trigger] before.level_colliders@.contains_key(other)
            ==> after.level_colliders@.contains_key(other)
            && after.level_colliders@[other] == before.level_colliders@[other],
{
    let m0 = crate::chunks::sections_of(before.level_colliders@[object].chunk_map);
    let m1 = crate::chunks::sections_of(after.level_colliders@[object].chunk_map);
    assert forall|other: LevelColliderID| other != object && #[trigger] before.level_colliders@.contains_key(other)
        implies after.level_colliders@.contains_key(other)
        && after.level_colliders@[other] == before.level_colliders@[other] by {
        assert(after.level_colliders@.remove(object)[other] == before.level_colliders@.remove(object)[other]);
    }
    assert forall|k: i64| k != key implies #[trigger] after.owned_section(SectionOwner::SubLevel, object, k)
        == before.owned_section(SectionOwner::SubLevel, object, k) by {
        assert(m1.contains_key(k) == m0.contains_key(k));
    }
}

/// A block edit is read back: after block `(x, y, z)` was set to `block`
/// in its section, the next edit of that block starts from, and hands
/// back, the block that `block` stands for.
pub proof fn lemma_block_edit_is_read_back<O, S, C>(
    after: SableSceneData<O, S, C>,
    owner: SectionOwner,
    object: LevelColliderID,
    x: i32,
    y: i32,
    z: i32,
    blocks: Seq<(u16, u16)>,
    block: i32,
    section: ChunkSection,
)
    requires
        0 <= block_slot(x, y, z) < blocks.len(),
        after.owned_section(owner, object, block_section_key(x, y, z)) == Some(section),
        section.blocks@ == blocks.update(block_slot(x, y, z), block_parts(block)),
    ensures
        after.edit_base(owner, object, x, y, z) matches Some((b, _)) && b[block_slot(x, y, z)] == block_parts(block),
{
}

/// A sub-level that enters a region and leaves it again hands back the
/// block geometry it brought, and leaves the region's callback-section
/// counts, and so whether the region can step in parallel, as they were.
pub proof fn lemma_level_collider_round_trip<O, S, C>(
    s0: SableSceneData<O, S, C>,
    s1: SableSceneData<O, S, C>,
    s2: SableSceneData<O, S, C>,
    id: LevelColliderID,
    info: ActiveLevelColliderInfo<O, S>,
    released: Option<ActiveLevelColliderInfo<O, S>>,
)
    requires
        s1.level_collider_admitted(s0, id, info),
        s2.level_collider_released(s1, id, released),
    ensures
        released == Some(info),
        s2.level_colliders@ == s0.level_colliders@.remove(id),
        s2.sublevel_serial_callback_sections == s0.sublevel_serial_callback_sections,
        s2.terrain_serial_callback_sections == s0.terrain_serial_callback_sections,
        s2.main_level_chunks@ == s0.main_level_chunks@,
{
    assert(s2.level_colliders@ =~= s0.level_colliders@.remove(id));
}

/// The three 8-byte words stored from byte `at` on.
pub open spec fn words_at(data: Seq<u8>, at: int) -> VectorBits {
    VectorBits {
        x: field_u64(data, at) as u64,
        y: field_u64(data, at + 8) as u64,
        z: field_u64(data, at + 16) as u64,
    }
}

/// The byte layout of a command: after its opcode byte at `at` come the
/// body id (4 bytes); for opcodes 1 to 3, a first triple of 8-byte words
/// (the point of an impulse, or the linear part) right after the id, a
/// second triple (the impulse, or the angular part) right after the first,
/// and the wake byte; decoding goes on right after the payload. Every
/// command decoded from a buffer is the one these bytes spell.
pub proof fn lemma_decoded_command_layout(data: Seq<u8>, at: nat, remaining: nat)
    requires
        remaining >= 1,
        at < data.len(),
        1 <= data[at as int] <= 4,
        data.len() >= at + 1 + (if data[at as int] == 4 { 4int } else { 53int }),
    ensures
        ({
            let decoded = commands_from(data, at, remaining);
            let opcode = data[at as int];
            let p = at + 1int;
            let id = field_i32(data, p) as i32;
            let first = words_at(data, p + 4);
            let second = words_at(data, p + 28);
            let wake_up = data[p + 52] != 0;
            let next = commands_from(data, (if opcode == 4 { p + 4 } else { p + 53 }) as nat, (remaining - 1) as nat);
            &&& decoded.0.len() == next.0.len() + 1
            &&& opcode == 1 ==> decoded.0[0] == (PhysicsCommand::ApplyImpulse { id, point: first, impulse: second, wake_up })
            &&& opcode == 2 ==> decoded.0[0]
                == (PhysicsCommand::ApplyLinearAndAngularImpulse { id, linear: first, angular: second, wake_up })
            &&& opcode == 3 ==> decoded.0[0]
                == (PhysicsCommand::AddLinearAndAngularVelocity { id, linear: first, angular: second, wake_up })
            &&& opcode == 4 ==> decoded.0[0] == (PhysicsCommand::WakeUp { id })
            &&& decoded.0.drop_first() == next.0
            &&& decoded.1 == next.1
            &&& decoded.2 == next.2
        }),
{
    let decoded = commands_from(data, at, remaining);
    let opcode = data[at as int];
    let p = at + 1int;
    let next = commands_from(data, (if opcode == 4 { p + 4 } else { p + 53 }) as nat, (remaining - 1) as nat);
    assert(decoded.0.drop_first() =~= next.0);
}

/// The first command of a buffer that passes the header check and declares
/// at least one command is spelled by the bytes right after the header.
pub proof fn lemma_first_command_of_buffer(data: Seq<u8>)
    requires
        header_outcome(data) matches Ok(count) && count >= 1,
        data.len() > COMMAND_HEADER_SIZE,
        1 <= data[COMMAND_HEADER_SIZE as int] <= 4,
        data.len() >= COMMAND_HEADER_SIZE + 1 + (if data[COMMAND_HEADER_SIZE as int] == 4 { 4int } else { 53int }),
    ensures
        ({
            let count = header_outcome(data)->Ok_0;
            let decoded = commands_from(data, COMMAND_HEADER_SIZE as nat, count as nat);
            let opcode = data[COMMAND_HEADER_SIZE as int];
            let p = COMMAND_HEADER_SIZE + 1int;
            let id = field_i32(data, p) as i32;
            let first = words_at(data, p + 4);
            let second = words_at(data, p + 28);
            let wake_up = data[p + 52] != 0;
            &&& decoded.0.len() >= 1
            &&& opcode == 2 ==> decoded.0[0]
                == (PhysicsCommand::ApplyLinearAndAngularImpulse { id, linear: first, angular: second, wake_up })
            &&& opcode == 1 ==> decoded.0[0] == (PhysicsCommand::ApplyImpulse { id, point: first, impulse: second, wake_up })
            &&& opcode == 3 ==> decoded.0[0]
                == (PhysicsCommand::AddLinearAndAngularVelocity { id, linear: first, angular: second, wake_up })
            &&& opcode == 4 ==> decoded.0[0] == (PhysicsCommand::WakeUp { id })
        }),
{
    let count = header_outcome(data)->Ok_0;
    lemma_decoded_command_layout(data, COMMAND_HEADER_SIZE as nat, count as nat);
}

/// A section is solid exactly when one of its block words carries a
/// non-zero collider id in its high 16 bits; the physics-state half of a
/// word plays no part.
pub proof fn lemma_solid_means_a_collider(words: Seq<i32>)
    ensures
        has_solid(decoded_blocks(words))
            == exists|i: int| 0 <= i < words.len() && (#[trigger] words[i] >> 16u32) as u16 != 0,
{
    let d = decoded_blocks(words);
    if has_solid(d) {
        let i = choose|i: int| 0 <= i < d.len() && (#[trigger] d[i]).0 != 0;
        assert((words[i] >> 16u32) as u16 != 0);
    }
    if exists|i: int| 0 <= i < words.len() && (#[trigger] words[i] >> 16u32) as u16 != 0 {
        let i = choose|i: int| 0 <= i < words.len() && (#[trigger] words[i] >> 16u32) as u16 != 0;
        assert(d[i].0 != 0);
    }
}

/// A due body is handled by its tier: a dormant body rests, a ballistic
/// one flies, and an active or a critical one alike is rechecked: asked to
/// be materialized when no region simulates it, and revisited
/// `ACTIVE_RECHECK_INTERVAL` ticks later.
pub proof fn lemma_due_action_follows_tier<P, B, O>(
    mid: DimensionUniverse<P, B, O>,
    after: DimensionUniverse<P, B, O>,
    id: LevelColliderID,
    action: DueAction,
)
    requires
        mid.universe_bodies@.contains_key(id),
        mid.current_tick + ACTIVE_RECHECK_INTERVAL <= u64::MAX,
        after.due_action_taken(mid, id, action),
    ensures
        ({
            let tier = mid.universe_bodies@[id].simulation_tier;
            &&& (action == DueAction::Rest) == (tier == SimulationTier::Dormant)
            &&& (action == DueAction::Fly) == (tier == SimulationTier::Ballistic)
            &&& (action == DueAction::Rechecked) == (tier == SimulationTier::Active || tier == SimulationTier::Critical)
            &&& action == DueAction::Rechecked ==> {
                &&& after.universe_bodies@[id].next_update_tick == mid.current_tick + ACTIVE_RECHECK_INTERVAL
                &&& mid.universe_bodies@[id].resident is None ==> after.pending_materializations@.contains(id)
            }
            &&& action != DueAction::Rechecked ==> after == mid
        }),
{
}

} // verus!

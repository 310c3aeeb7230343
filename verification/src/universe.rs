//! The persistent body registry of one dimension and its tiered scheduler.
//!
//! Every body of the dimension has a record here, whether or not a physics
//! region currently simulates it. Bodies are revisited at scheduled ticks:
//! the scheduler keeps `(tick, id, generation)` entries and an entry counts
//! only while it matches the body's current `next_update_tick` and
//! `schedule_generation`; rescheduling a body leaves its older entries
//! stale, and they are dropped when they reach the front of the queue.

use vstd::prelude::*;
use std::collections::HashMap;
use std::collections::HashSet;
use crate::command::VectorBits;
use crate::geometry::PersistentBodyGeometry;
use crate::spatial::{CellRange, WorldSpatialIndex};

verus! {

broadcast use vstd::std_specs::hash::group_hash_axioms;

/// Identifier of a body.
pub type LevelColliderID = usize;

/// How a body is currently simulated.
#[derive(Clone, Copy, Debug, PartialEq, Eq, Structural)]
pub enum SimulationTier {
    /// Stationary and isolated: only events wake it.
    Dormant,
    /// Moving but isolated: advanced analytically at scheduled ticks.
    Ballistic,
    /// Near possible interactions: simulated by a physics region.
    Active,
    /// Fast or constrained: simulated with continuous collision detection.
    Critical,
}

/// One entry of the scheduler: revisit body `id` at `tick`, valid while the
/// body's generation is still `generation`.
#[derive(Clone, Copy, Debug, PartialEq, Eq, PartialOrd, Ord, Structural)]
pub struct ScheduledBody {
    pub tick: u64,
    pub id: LevelColliderID,
    pub generation: u64,
}

/// Order of scheduler entries: by tick, then id, then generation.
pub open spec fn sched_le(a: ScheduledBody, b: ScheduledBody) -> bool {
    ||| a.tick < b.tick
    ||| (a.tick == b.tick && a.id < b.id)
    ||| (a.tick == b.tick && a.id == b.id && a.generation <= b.generation)
}

/// A queue stored with its smallest entry last.
pub open spec fn sorted_descending(q: Seq<ScheduledBody>) -> bool {
    forall|i: int, j: int| 0 <= i < j < q.len() ==> sched_le(#[trigger] q[j], #[trigger] q[i])
}

fn sched_le_exec(a: &ScheduledBody, b: &ScheduledBody) -> (r: bool)
    ensures
        r == sched_le(*a, *b),
{
    a.tick < b.tick || (a.tick == b.tick && a.id < b.id) || (a.tick == b.tick && a.id == b.id
        && a.generation <= b.generation)
}

/// The generation that follows `g`, wrapping at the end of the range.
pub open spec fn next_generation(g: u64) -> u64 {
    if g == u64::MAX { 0 } else { (g + 1) as u64 }
}

/// The rigid body that simulates a body, and the region that owns it.
#[derive(Clone, Copy, Debug, PartialEq, Eq, Structural)]
pub struct ResidentPhysicsBody {
    /// Index part of the region's rigid-body handle.
    pub rigid_body_index: u32,
    /// Generation part of the region's rigid-body handle.
    pub rigid_body_generation: u32,
    /// Handle of the region that simulates the body.
    pub scene_handle: i64,
}

/// A request queued for a body, with `f64` values kept as bit patterns.
#[derive(Clone, Copy, Debug)]
pub enum UniverseCommand {
    ApplyForce { point: VectorBits, force: VectorBits, wake_up: bool },
    ApplyForceAndTorque { force: VectorBits, torque: VectorBits, wake_up: bool },
    AddLinearAngularVelocities { linear: VectorBits, angular: VectorBits, wake_up: bool },
    SetKinematicContraptionTransform { center_of_mass: [u64; 3], pose: [u64; 7], velocities: [u64; 6] },
    WakeUp,
}

/// The record of one body. `translation` holds the bit patterns of the
/// body's `f64` world position; `physics` holds the rest of its dynamic
/// state, which the registry carries without reading.
pub struct UniverseBody<P> {
    pub id: LevelColliderID,
    pub translation: VectorBits,
    pub physics: P,
    pub simulation_tier: SimulationTier,
    pub last_update_tick: u64,
    pub next_update_tick: u64,
    pub schedule_generation: u64,
    pub resident: Option<ResidentPhysicsBody>,
    /// Stable minimum body id for the fixed-joint assembly containing this body.
    pub assembly_root: LevelColliderID,
    pub assembly_size: u32,
    pub command_queue: Vec<UniverseCommand>,
}

/// A request that a region take over the simulation of a body, with the
/// body's position at the time of the request.
#[derive(Clone, Copy, Debug, PartialEq, Eq, Structural)]
pub struct MaterializationRequest {
    pub id: LevelColliderID,
    pub position: VectorBits,
}

/// The registry of one dimension. `P` is the dynamic state carried with
/// each body and `B` the exact bounds kept by the spatial index.
pub struct DimensionUniverse<P, B, O> {
    pub universe_bodies: HashMap<LevelColliderID, UniverseBody<P>>,
    pub spatial_index: WorldSpatialIndex<B>,
    /// The scheduler queue, kept sorted with its smallest entry last.
    pub scheduled_bodies: Vec<ScheduledBody>,
    pub pose_dirty_bodies: HashSet<LevelColliderID>,
    pub pending_command_bodies: HashSet<LevelColliderID>,
    pub materialization_requests: Vec<MaterializationRequest>,
    pub pending_materializations: HashSet<LevelColliderID>,
    pub eviction_events: Vec<LevelColliderID>,
    pub pending_evictions: HashSet<LevelColliderID>,
    pub terrain_sections: HashSet<i64>,
    /// The block geometry of each body, kept whether or not a region
    /// simulates it; `O` is the octree type.
    pub body_geometries: HashMap<LevelColliderID, PersistentBodyGeometry<O>>,
    pub current_tick: u64,
}

/// The ids other than `id`.
pub open spec fn other_than(id: LevelColliderID) -> spec_fn(LevelColliderID) -> bool {
    |e: LevelColliderID| e != id
}

/// Whether entry `e` still stands for the body's current schedule.
pub open spec fn entry_is_live<P>(bodies: Map<LevelColliderID, UniverseBody<P>>, e: ScheduledBody) -> bool {
    &&& bodies.contains_key(e.id)
    &&& bodies[e.id].schedule_generation == e.generation
    &&& bodies[e.id].next_update_tick == e.tick
}

impl<P, B, O> DimensionUniverse<P, B, O> {
    /// The scheduler queue, smallest entry last.
    pub open spec fn scheduled(self) -> Seq<ScheduledBody> {
        self.scheduled_bodies@
    }

    /// The registry's internal invariant.
    pub open spec fn wf(self) -> bool {
        &&& sorted_descending(self.scheduled())
        &&& self.spatial_index.wf()
        &&& forall|id: LevelColliderID| #[trigger] self.pending_evictions@.contains(id)
            ==> self.eviction_events@.contains(id)
    }

    /// An empty registry at tick zero.
    pub fn new() -> (u: Self)
        ensures
            u.wf(),
            u.universe_bodies@ == Map::<LevelColliderID, UniverseBody<P>>::empty(),
            u.spatial_index.bounds@ == Map::<LevelColliderID, B>::empty(),
            u.spatial_index.large_bodies@ == Set::<LevelColliderID>::empty(),
            forall|c: crate::spatial::MacroCell| #[trigger] u.spatial_index.occupants(c) == Set::<LevelColliderID>::empty(),
            u.scheduled() == Seq::<ScheduledBody>::empty(),
            u.pose_dirty_bodies@ == Set::<LevelColliderID>::empty(),
            u.pending_command_bodies@ == Set::<LevelColliderID>::empty(),
            u.materialization_requests@ == Seq::<MaterializationRequest>::empty(),
            u.pending_materializations@ == Set::<LevelColliderID>::empty(),
            u.eviction_events@ == Seq::<LevelColliderID>::empty(),
            u.pending_evictions@ == Set::<LevelColliderID>::empty(),
            u.terrain_sections@ == Set::<i64>::empty(),
            u.body_geometries@ == Map::<LevelColliderID, PersistentBodyGeometry<O>>::empty(),
            u.current_tick == 0,
    {
        DimensionUniverse {
            universe_bodies: HashMap::new(),
            spatial_index: WorldSpatialIndex::new(),
            scheduled_bodies: Vec::new(),
            pose_dirty_bodies: HashSet::new(),
            pending_command_bodies: HashSet::new(),
            materialization_requests: Vec::new(),
            pending_materializations: HashSet::new(),
            eviction_events: Vec::new(),
            pending_evictions: HashSet::new(),
            terrain_sections: HashSet::new(),
            body_geometries: HashMap::new(),
            current_tick: 0,
        }
    }

    /// Number of entries in the scheduler queue, stale ones included.
    pub fn scheduled_len(&self) -> (n: usize)
        ensures
            n == self.scheduled().len(),
    {
        self.scheduled_bodies.len()
    }

    /// The tables other than the body records and the scheduler queue agree.
    pub open spec fn same_side_tables(self, other: Self) -> bool {
        &&& self.pose_dirty_bodies@ == other.pose_dirty_bodies@
        &&& self.pending_command_bodies@ == other.pending_command_bodies@
        &&& self.materialization_requests@ == other.materialization_requests@
        &&& self.pending_materializations@ == other.pending_materializations@
        &&& self.eviction_events@ == other.eviction_events@
        &&& self.pending_evictions@ == other.pending_evictions@
        &&& self.terrain_sections@ == other.terrain_sections@
        &&& self.body_geometries@ == other.body_geometries@
        &&& self.current_tick == other.current_tick
        &&& self.spatial_index == other.spatial_index
    }

    /// The change-tracking tables, the terrain sections and the current tick
    /// agree.
    pub open spec fn same_tracking(self, other: Self) -> bool {
        &&& self.pose_dirty_bodies@ == other.pose_dirty_bodies@
        &&& self.pending_command_bodies@ == other.pending_command_bodies@
        &&& self.materialization_requests@ == other.materialization_requests@
        &&& self.pending_materializations@ == other.pending_materializations@
        &&& self.eviction_events@ == other.eviction_events@
        &&& self.pending_evictions@ == other.pending_evictions@
        &&& self.terrain_sections@ == other.terrain_sections@
        &&& self.body_geometries@ == other.body_geometries@
        &&& self.current_tick == other.current_tick
    }

    /// Every entry dropped from the back of the queue, between `from` and
    /// the old end, was stale and not later than the current tick.
    pub open spec fn dropped_stale(self, q: Seq<ScheduledBody>, from: int) -> bool {
        forall|i: int| from <= i < q.len() ==> !entry_is_live(self.universe_bodies@, #[trigger] q[i])
            && q[i].tick <= self.current_tick
    }

    /// Every entry dropped from the back of the queue was stale.
    pub open spec fn dropped_dead(self, q: Seq<ScheduledBody>, from: int) -> bool {
        forall|i: int| from <= i < q.len() ==> !entry_is_live(self.universe_bodies@, #[trigger] q[i])
    }

    /// `self` is `before` with body `id` rescheduled at `tick`: the body
    /// moves on to its next generation and records `tick`, and one entry
    /// with both joins the queue.
    pub open spec fn body_rescheduled(self, before: Self, id: LevelColliderID, tick: u64) -> bool {
        let b = before.universe_bodies@[id];
        let g = next_generation(b.schedule_generation);
        &&& self.universe_bodies@ == before.universe_bodies@.insert(
            id,
            UniverseBody { schedule_generation: g, next_update_tick: tick, ..b },
        )
        &&& self.scheduled().to_multiset() == before.scheduled().to_multiset().insert(
            ScheduledBody { tick, id, generation: g },
        )
        &&& self.scheduled().len() == before.scheduled().len() + 1
    }

    /// Schedules body `id` to be revisited at `tick`. The body's earlier
    /// entries become stale. Does nothing for an unknown body.
    pub fn schedule_body(&mut self, id: LevelColliderID, tick: u64)
        requires
            old(self).wf(),
        ensures
            final(self).wf(),
            final(self).same_side_tables(*old(self)),
            !old(self).universe_bodies@.contains_key(id) ==> {
                &&& final(self).universe_bodies@ == old(self).universe_bodies@
                &&& final(self).scheduled() == old(self).scheduled()
            },
            old(self).universe_bodies@.contains_key(id) ==> final(self).body_rescheduled(*old(self), id, tick),
    {
        let mut body = match self.universe_bodies.remove(&id) {
            Some(b) => b,
            None => return,
        };
        body.schedule_generation = body.schedule_generation.wrapping_add(1);
        body.next_update_tick = tick;
        let generation = body.schedule_generation;
        self.universe_bodies.insert(id, body);
        proof {
            assert(self.universe_bodies@ =~= old(self).universe_bodies@.insert(
                id,
                UniverseBody { schedule_generation: generation, next_update_tick: tick, ..old(self).universe_bodies@[id] },
            ));
        }
        self.queue_insert(ScheduledBody { tick, id, generation });
    }

    fn is_live(&self, e: &ScheduledBody) -> (r: bool)
        ensures
            r == entry_is_live(self.universe_bodies@, *e),
    {
        match self.universe_bodies.get(&e.id) {
            Some(body) => body.schedule_generation == e.generation && body.next_update_tick == e.tick,
            None => false,
        }
    }

    /// `self` is `before` after popping `r`: entries were dropped from the
    /// front of the queue only. When `r` is a body, its entry was the last
    /// one dropped, it was live and due, and every entry dropped before it
    /// was stale. When `r` is `None`, every dropped entry was stale and
    /// every entry left is later than the current tick.
    pub open spec fn popped_due(self, before: Self, r: Option<LevelColliderID>) -> bool {
        &&& self.universe_bodies@ == before.universe_bodies@
        &&& self.same_side_tables(before)
        &&& self.scheduled().len() <= before.scheduled().len()
        &&& self.scheduled() == before.scheduled().subrange(0, self.scheduled().len() as int)
        &&& match r {
            Some(id) => {
                let n = self.scheduled().len() as int;
                let e = before.scheduled()[n];
                &&& n < before.scheduled().len()
                &&& e.id == id
                &&& e.tick <= before.current_tick
                &&& entry_is_live(before.universe_bodies@, e)
                &&& before.dropped_stale(before.scheduled(), n + 1)
            },
            None => {
                &&& before.dropped_stale(before.scheduled(), self.scheduled().len() as int)
                &&& forall|i: int| 0 <= i < self.scheduled().len()
                    ==> (#[trigger] self.scheduled()[i]).tick > before.current_tick
            },
        }
    }

    /// Pops the next body whose schedule is due at the current tick,
    /// dropping the stale entries met on the way. Returns `None` when no
    /// body is due.
    pub fn pop_due_body(&mut self) -> (r: Option<LevelColliderID>)
        requires
            old(self).wf(),
        ensures
            final(self).wf(),
            final(self).popped_due(*old(self), r),
    {
        let ghost q0 = self.scheduled_bodies@;
        loop
            invariant
                sorted_descending(q0),
                self.spatial_index.wf(),
                forall|x: LevelColliderID| #[trigger] self.pending_evictions@.contains(x)
                    ==> self.eviction_events@.contains(x),
                self.universe_bodies@ == old(self).universe_bodies@,
                self.same_side_tables(*old(self)),
                q0 == old(self).scheduled(),
                self.scheduled_bodies@.len() <= q0.len(),
                self.scheduled_bodies@ == q0.subrange(0, self.scheduled_bodies@.len() as int),
                old(self).dropped_stale(q0, self.scheduled_bodies@.len() as int),
            decreases self.scheduled_bodies@.len(),
        {
            let n = self.scheduled_bodies.len();
            if n == 0 {
                return None;
            }
            let scheduled = self.scheduled_bodies[n - 1];
            if scheduled.tick > self.current_tick {
                proof {
                    assert forall|i: int| 0 <= i < self.scheduled_bodies@.len()
                        implies (#[trigger] self.scheduled_bodies@[i]).tick > old(self).current_tick by {
                        assert(sched_le(q0[n - 1], q0[i]));
                    }
                }
                return None;
            }
            self.scheduled_bodies.pop();
            if self.is_live(&scheduled) {
                proof {
                    let m = self.scheduled().len() as int;
                    assert(old(self).scheduled()[m] == scheduled);
                    assert(old(self).dropped_stale(old(self).scheduled(), m + 1));
                    assert(self.scheduled() == old(self).scheduled().subrange(0, m));
                }
                return Some(scheduled.id);
            }
        }
    }

    /// Drops stale entries from the front of the queue and returns the
    /// first live entry, if any.
    fn drop_stale_front(&mut self) -> (r: Option<ScheduledBody>)
        requires
            old(self).wf(),
        ensures
            final(self).wf(),
            final(self).universe_bodies@ == old(self).universe_bodies@,
            final(self).same_side_tables(*old(self)),
            final(self).scheduled().len() <= old(self).scheduled().len(),
            final(self).scheduled() == old(self).scheduled().subrange(0, final(self).scheduled().len() as int),
            old(self).dropped_dead(old(self).scheduled(), final(self).scheduled().len() as int),
            match r {
                Some(e) => {
                    &&& final(self).scheduled().len() > 0
                    &&& e == final(self).scheduled().last()
                    &&& entry_is_live(old(self).universe_bodies@, e)
                },
                None => final(self).scheduled().len() == 0,
            },
    {
        let ghost q0 = self.scheduled_bodies@;
        loop
            invariant
                sorted_descending(q0),
                self.spatial_index.wf(),
                forall|x: LevelColliderID| #[trigger] self.pending_evictions@.contains(x)
                    ==> self.eviction_events@.contains(x),
                self.universe_bodies@ == old(self).universe_bodies@,
                self.same_side_tables(*old(self)),
                q0 == old(self).scheduled(),
                self.scheduled_bodies@.len() <= q0.len(),
                self.scheduled_bodies@ == q0.subrange(0, self.scheduled_bodies@.len() as int),
                old(self).dropped_dead(q0, self.scheduled_bodies@.len() as int),
            decreases self.scheduled_bodies@.len(),
        {
            let n = self.scheduled_bodies.len();
            if n == 0 {
                return None;
            }
            let scheduled = self.scheduled_bodies[n - 1];
            if self.is_live(&scheduled) {
                return Some(scheduled);
            }
            self.scheduled_bodies.pop();
        }
    }

    /// The tick of the next live scheduled visit, dropping stale entries at
    /// the front of the queue.
    pub fn next_due_tick(&mut self) -> (r: Option<u64>)
        requires
            old(self).wf(),
        ensures
            final(self).wf(),
            final(self).universe_bodies@ == old(self).universe_bodies@,
            final(self).same_side_tables(*old(self)),
            final(self).scheduled().len() <= old(self).scheduled().len(),
            final(self).scheduled() == old(self).scheduled().subrange(0, final(self).scheduled().len() as int),
            old(self).dropped_dead(old(self).scheduled(), final(self).scheduled().len() as int),
            match r {
                Some(t) => {
                    &&& final(self).scheduled().len() > 0
                    &&& t == final(self).scheduled().last().tick
                    &&& entry_is_live(old(self).universe_bodies@, final(self).scheduled().last())
                },
                None => final(self).scheduled().len() == 0,
            },
    {
        match self.drop_stale_front() {
            Some(e) => Some(e.tick),
            None => None,
        }
    }

    /// Ticks from the current tick until the next live scheduled visit
    /// (zero if it is already due), dropping stale entries at the front of
    /// the queue.
    pub fn ticks_until_next_scheduled_body(&mut self) -> (r: Option<u64>)
        requires
            old(self).wf(),
        ensures
            final(self).wf(),
            final(self).universe_bodies@ == old(self).universe_bodies@,
            final(self).same_side_tables(*old(self)),
            final(self).scheduled().len() <= old(self).scheduled().len(),
            final(self).scheduled() == old(self).scheduled().subrange(0, final(self).scheduled().len() as int),
            old(self).dropped_dead(old(self).scheduled(), final(self).scheduled().len() as int),
            match r {
                Some(t) => {
                    let e = final(self).scheduled().last();
                    &&& final(self).scheduled().len() > 0
                    &&& entry_is_live(old(self).universe_bodies@, e)
                    &&& t == (if e.tick >= old(self).current_tick { e.tick - old(self).current_tick } else { 0 })
                },
                None => final(self).scheduled().len() == 0,
            },
    {
        match self.drop_stale_front() {
            Some(e) => Some(e.tick.saturating_sub(self.current_tick)),
            None => None,
        }
    }

    /// Body records, scheduler queue and current tick agree.
    pub open spec fn same_scheduling(self, other: Self) -> bool {
        &&& self.universe_bodies@ == other.universe_bodies@
        &&& self.scheduled() == other.scheduled()
        &&& self.current_tick == other.current_tick
        &&& self.spatial_index == other.spatial_index
        &&& self.body_geometries@ == other.body_geometries@
    }

    /// `self` is `before` after body `id` asked to be materialized: the
    /// body is marked pending, and a request with its position is queued
    /// unless one was already pending or the body has no record.
    pub open spec fn materialization_requested(self, before: Self, id: LevelColliderID) -> bool {
        &&& self.same_scheduling(before)
        &&& self.pending_materializations@ == before.pending_materializations@.insert(id)
        &&& self.materialization_requests@ == if !before.pending_materializations@.contains(id)
            && before.universe_bodies@.contains_key(id) {
            before.materialization_requests@.push(
                MaterializationRequest { id, position: before.universe_bodies@[id].translation },
            )
        } else {
            before.materialization_requests@
        }
        &&& self.pose_dirty_bodies@ == before.pose_dirty_bodies@
        &&& self.pending_command_bodies@ == before.pending_command_bodies@
        &&& self.eviction_events@ == before.eviction_events@
        &&& self.pending_evictions@ == before.pending_evictions@
        &&& self.terrain_sections@ == before.terrain_sections@
        &&& self.body_geometries@ == before.body_geometries@
    }

    /// Asks for body `id` to be materialized in a region, once until the
    /// requests are drained; the request records the body's position.
    pub fn request_materialization(&mut self, id: LevelColliderID)
        requires
            old(self).wf(),
        ensures
            final(self).wf(),
            final(self).materialization_requested(*old(self), id),
    {
        if self.pending_materializations.insert(id) {
            match self.universe_bodies.get(&id) {
                Some(body) => {
                    let position = body.translation;
                    self.materialization_requests.push(MaterializationRequest { id, position });
                },
                None => {},
            }
        }
    }

    /// `self` is `before` after the eviction of body `id` was recorded:
    /// the body is marked pending, and its event is queued unless one was
    /// already pending.
    pub open spec fn eviction_recorded(self, before: Self, id: LevelColliderID) -> bool {
        &&& self.same_scheduling(before)
        &&& self.pending_evictions@ == before.pending_evictions@.insert(id)
        &&& self.eviction_events@ == if !before.pending_evictions@.contains(id) {
            before.eviction_events@.push(id)
        } else {
            before.eviction_events@
        }
        &&& self.pose_dirty_bodies@ == before.pose_dirty_bodies@
        &&& self.pending_command_bodies@ == before.pending_command_bodies@
        &&& self.materialization_requests@ == before.materialization_requests@
        &&& self.pending_materializations@ == before.pending_materializations@
        &&& self.terrain_sections@ == before.terrain_sections@
        &&& self.body_geometries@ == before.body_geometries@
    }

    /// Records that body `id` left its region, once until the events are
    /// drained.
    pub fn record_eviction(&mut self, id: LevelColliderID)
        requires
            old(self).wf(),
        ensures
            final(self).wf(),
            final(self).eviction_recorded(*old(self), id),
    {
        if self.pending_evictions.insert(id) {
            self.eviction_events.push(id);
        }
        proof {
            assert forall|x: LevelColliderID| #[trigger] self.pending_evictions@.contains(x)
                implies self.eviction_events@.contains(x) by {
                if x == id {
                    if !old(self).pending_evictions@.contains(id) {
                        assert(self.eviction_events@.last() == id);
                    }
                } else {
                    let k = choose|k: int| 0 <= k < old(self).eviction_events@.len() && old(self).eviction_events@[k] == x;
                    assert(self.eviction_events@[k] == x);
                }
            }
        }
    }

    /// Takes all queued materialization requests, in the order they were
    /// made, and forgets which bodies had one pending.
    pub fn drain_materialization_requests(&mut self) -> (requests: Vec<MaterializationRequest>)
        requires
            old(self).wf(),
        ensures
            final(self).wf(),
            requests@ == old(self).materialization_requests@,
            final(self).materialization_requests@ == Seq::<MaterializationRequest>::empty(),
            final(self).pending_materializations@ == Set::<LevelColliderID>::empty(),
            final(self).same_scheduling(*old(self)),
            final(self).pose_dirty_bodies@ == old(self).pose_dirty_bodies@,
            final(self).pending_command_bodies@ == old(self).pending_command_bodies@,
            final(self).eviction_events@ == old(self).eviction_events@,
            final(self).pending_evictions@ == old(self).pending_evictions@,
            final(self).terrain_sections@ == old(self).terrain_sections@,
            final(self).body_geometries@ == old(self).body_geometries@,
    {
        let mut requests: Vec<MaterializationRequest> = Vec::new();
        std::mem::swap(&mut requests, &mut self.materialization_requests);
        self.pending_materializations.clear();
        requests
    }

    /// Takes all recorded eviction events, in the order they were recorded,
    /// and forgets which bodies had one pending.
    pub fn drain_eviction_events(&mut self) -> (events: Vec<LevelColliderID>)
        requires
            old(self).wf(),
        ensures
            final(self).wf(),
            events@ == old(self).eviction_events@,
            final(self).eviction_events@ == Seq::<LevelColliderID>::empty(),
            final(self).pending_evictions@ == Set::<LevelColliderID>::empty(),
            final(self).same_scheduling(*old(self)),
            final(self).pose_dirty_bodies@ == old(self).pose_dirty_bodies@,
            final(self).pending_command_bodies@ == old(self).pending_command_bodies@,
            final(self).materialization_requests@ == old(self).materialization_requests@,
            final(self).pending_materializations@ == old(self).pending_materializations@,
            final(self).terrain_sections@ == old(self).terrain_sections@,
            final(self).body_geometries@ == old(self).body_geometries@,
    {
        let mut events: Vec<LevelColliderID> = Vec::new();
        std::mem::swap(&mut events, &mut self.eviction_events);
        self.pending_evictions.clear();
        events
    }

    /// `self` is `before` after body `id` became simulated by `resident`
    /// (`changed`) or was found already resident (not `changed`, nothing
    /// moves): the body records its region, and its eviction event and
    /// mark, if not drained yet, are withdrawn.
    pub open spec fn made_resident(self, before: Self, id: LevelColliderID, resident: ResidentPhysicsBody, changed: bool) -> bool {
        &&& changed == (before.universe_bodies@[id].resident is None)
        &&& !changed ==> self == before
        &&& changed ==> {
            &&& self.universe_bodies@ == before.universe_bodies@.insert(
                id,
                UniverseBody { resident: Some(resident), ..before.universe_bodies@[id] },
            )
            &&& self.eviction_events@ == before.eviction_events@.filter(other_than(id))
            &&& self.pending_evictions@ == before.pending_evictions@.remove(id)
            &&& self.scheduled() == before.scheduled()
            &&& self.current_tick == before.current_tick
            &&& self.spatial_index == before.spatial_index
            &&& self.pose_dirty_bodies@ == before.pose_dirty_bodies@
            &&& self.pending_command_bodies@ == before.pending_command_bodies@
            &&& self.materialization_requests@ == before.materialization_requests@
            &&& self.pending_materializations@ == before.pending_materializations@
            &&& self.terrain_sections@ == before.terrain_sections@
            &&& self.body_geometries@ == before.body_geometries@
        }
    }

    /// Records that body `id` is now simulated by `resident`, and withdraws
    /// any eviction event of the body that was not drained yet. Returns
    /// `false`, changing nothing, when the body is already resident.
    pub fn mark_resident(&mut self, id: LevelColliderID, resident: ResidentPhysicsBody) -> (changed: bool)
        requires
            old(self).wf(),
            old(self).universe_bodies@.contains_key(id),
        ensures
            final(self).wf(),
            final(self).made_resident(*old(self), id, resident, changed),
    {
        let already = match self.universe_bodies.get(&id) {
            Some(body) => body.resident.is_some(),
            None => true,
        };
        if already {
            return false;
        }
        let mut body = self.universe_bodies.remove(&id).unwrap();
        body.resident = Some(resident);
        self.universe_bodies.insert(id, body);
        proof {
            assert(self.universe_bodies@ =~= old(self).universe_bodies@.insert(
                id,
                UniverseBody { resident: Some(resident), ..old(self).universe_bodies@[id] },
            ));
        }
        let ghost pred = other_than(id);
        let mut kept: Vec<LevelColliderID> = Vec::new();
        let n = self.eviction_events.len();
        let mut i: usize = 0;
        while i < n
            invariant
                n == self.eviction_events@.len(),
                self.eviction_events@ == old(self).eviction_events@,
                0 <= i <= n,
                pred == other_than(id),
                kept@ == self.eviction_events@.take(i as int).filter(pred),
            decreases n - i,
        {
            let e = self.eviction_events[i];
            proof {
                let s = self.eviction_events@;
                assert(s.take(i + 1) =~= s.take(i as int).push(e));
                s.take(i as int).lemma_filter_push(e, pred);
            }
            if e != id {
                kept.push(e);
            }
            assert(pred(e) == (e != id));
            i = i + 1;
        }
        proof {
            assert(self.eviction_events@.take(n as int) =~= self.eviction_events@);
        }
        self.eviction_events = kept;
        self.pending_evictions.remove(&id);
        proof {
            assert forall|x: LevelColliderID| #[trigger] self.pending_evictions@.contains(x)
                implies self.eviction_events@.contains(x) by {
                old(self).eviction_events@.lemma_filter_contains_rev(pred, x);
            }
        }
        true
    }

    /// `self` is `before` after body `id` left its region with position
    /// `translation` and dynamic state `physics`: the body is no longer
    /// resident, its pose is marked dirty, and, when `emit_event`, its
    /// eviction is recorded. Nothing moves when the body was not resident.
    pub open spec fn evicted(self, before: Self, id: LevelColliderID, translation: VectorBits, physics: P, emit_event: bool) -> bool {
        &&& before.universe_bodies@[id].resident is None ==> self == before
        &&& before.universe_bodies@[id].resident is Some ==> {
            &&& self.universe_bodies@ == before.universe_bodies@.insert(
                id,
                UniverseBody { resident: None, translation, physics, ..before.universe_bodies@[id] },
            )
            &&& self.pose_dirty_bodies@ == before.pose_dirty_bodies@.insert(id)
            &&& self.pending_evictions@ == if emit_event {
                before.pending_evictions@.insert(id)
            } else {
                before.pending_evictions@
            }
            &&& self.eviction_events@ == if emit_event && !before.pending_evictions@.contains(id) {
                before.eviction_events@.push(id)
            } else {
                before.eviction_events@
            }
            &&& self.scheduled() == before.scheduled()
            &&& self.current_tick == before.current_tick
            &&& self.spatial_index == before.spatial_index
            &&& self.pending_command_bodies@ == before.pending_command_bodies@
            &&& self.materialization_requests@ == before.materialization_requests@
            &&& self.pending_materializations@ == before.pending_materializations@
            &&& self.terrain_sections@ == before.terrain_sections@
            &&& self.body_geometries@ == before.body_geometries@
        }
    }

    /// Records that body `id` left its region with its position snapshot
    /// `translation` and dynamic state `physics`: the body is no longer
    /// resident, its pose is marked dirty, and, when `emit_event`, its
    /// eviction is recorded. Does nothing for a body that is not resident.
    pub fn mark_evicted(&mut self, id: LevelColliderID, translation: VectorBits, physics: P, emit_event: bool)
        requires
            old(self).wf(),
            old(self).universe_bodies@.contains_key(id),
        ensures
            final(self).wf(),
            final(self).evicted(*old(self), id, translation, physics, emit_event),
    {
        let resident = match self.universe_bodies.get(&id) {
            Some(body) => body.resident.is_some(),
            None => false,
        };
        if !resident {
            return;
        }
        let mut body = self.universe_bodies.remove(&id).unwrap();
        body.resident = None;
        body.translation = translation;
        body.physics = physics;
        self.universe_bodies.insert(id, body);
        proof {
            assert(self.universe_bodies@ =~= old(self).universe_bodies@.insert(
                id,
                UniverseBody { resident: None, translation, physics, ..old(self).universe_bodies@[id] },
            ));
        }
        self.pose_dirty_bodies.insert(id);
        if emit_event {
            self.record_eviction(id);
        }
    }

    /// Appends `command` to the queue of body `id`, and when `notify` also
    /// marks the body as having commands to flush. Does nothing for an
    /// unknown body.
    pub fn queue_command(&mut self, id: LevelColliderID, command: UniverseCommand, notify: bool)
        requires
            old(self).wf(),
        ensures
            final(self).wf(),
            !old(self).universe_bodies@.contains_key(id) ==> *final(self) == *old(self),
            old(self).universe_bodies@.contains_key(id) ==> {
                let b = old(self).universe_bodies@[id];
                &&& final(self).universe_bodies@ == old(self).universe_bodies@.insert(
                    id,
                    UniverseBody { command_queue: final(self).universe_bodies@[id].command_queue, ..b },
                )
                &&& final(self).universe_bodies@[id].command_queue@ == b.command_queue@.push(command)
                &&& final(self).pending_command_bodies@ == if notify {
                    old(self).pending_command_bodies@.insert(id)
                } else {
                    old(self).pending_command_bodies@
                }
                &&& final(self).scheduled() == old(self).scheduled()
                &&& final(self).current_tick == old(self).current_tick
                &&& final(self).spatial_index == old(self).spatial_index
                &&& final(self).pose_dirty_bodies@ == old(self).pose_dirty_bodies@
                &&& final(self).materialization_requests@ == old(self).materialization_requests@
                &&& final(self).pending_materializations@ == old(self).pending_materializations@
                &&& final(self).eviction_events@ == old(self).eviction_events@
                &&& final(self).pending_evictions@ == old(self).pending_evictions@
                &&& final(self).terrain_sections@ == old(self).terrain_sections@
                &&& final(self).body_geometries@ == old(self).body_geometries@
            },
    {
        if !self.universe_bodies.contains_key(&id) {
            return;
        }
        let mut body = self.universe_bodies.remove(&id).unwrap();
        body.command_queue.push(command);
        self.universe_bodies.insert(id, body);
        if notify {
            self.pending_command_bodies.insert(id);
        }
    }

    fn queue_insert(&mut self, e: ScheduledBody)
        requires
            sorted_descending(old(self).scheduled()),
        ensures
            sorted_descending(final(self).scheduled()),
            final(self).scheduled().to_multiset() == old(self).scheduled().to_multiset().insert(e),
            final(self).scheduled().len() == old(self).scheduled().len() + 1,
            final(self).universe_bodies == old(self).universe_bodies,
            final(self).pose_dirty_bodies == old(self).pose_dirty_bodies,
            final(self).pending_command_bodies == old(self).pending_command_bodies,
            final(self).materialization_requests == old(self).materialization_requests,
            final(self).pending_materializations == old(self).pending_materializations,
            final(self).eviction_events == old(self).eviction_events,
            final(self).pending_evictions == old(self).pending_evictions,
            final(self).terrain_sections == old(self).terrain_sections,
            final(self).body_geometries == old(self).body_geometries,
            final(self).current_tick == old(self).current_tick,
            final(self).spatial_index == old(self).spatial_index,
    {
        let mut lo: usize = 0;
        let mut hi: usize = self.scheduled_bodies.len();
        while lo < hi
            invariant
                0 <= lo <= hi <= self.scheduled_bodies@.len(),
                sorted_descending(self.scheduled_bodies@),
                forall|i: int| 0 <= i < lo ==> sched_le(e, #[trigger] self.scheduled_bodies@[i]),
                forall|i: int| hi <= i < self.scheduled_bodies@.len() ==> !sched_le(e, #[trigger] self.scheduled_bodies@[i]),
            decreases hi - lo,
        {
            let mid = lo + (hi - lo) / 2;
            if sched_le_exec(&e, &self.scheduled_bodies[mid]) {
                lo = mid + 1;
            } else {
                hi = mid;
            }
        }
        let ghost before = self.scheduled_bodies@;
        self.scheduled_bodies.insert(lo, e);
        proof {
            let after = self.scheduled_bodies@;
            assert(after =~= before.insert(lo as int, e));
            assert forall|i: int, j: int| 0 <= i < j < after.len() implies sched_le(#[trigger] after[j], #[trigger] after[i]) by {
                if j < lo {
                } else if i < lo && j == lo {
                } else if i < lo {
                    assert(after[j] == before[j - 1]);
                } else if i == lo {
                    assert(after[j] == before[j - 1]);
                } else {
                    assert(after[j] == before[j - 1]);
                    assert(after[i] == before[i - 1]);
                }
            }
            broadcast use vstd::seq_lib::group_to_multiset_ensures;
            assert(after.to_multiset() =~= before.to_multiset().insert(e));
        }
    }
}

} // verus!

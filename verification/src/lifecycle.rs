//! Lifecycle of universe bodies: registration, removal, the per-tier
//! decisions of a universe tick, and the bookkeeping around regions.

use vstd::prelude::*;
use crate::command::VectorBits;
use crate::spatial::CellRange;
use crate::universe::{
    entry_is_live, DimensionUniverse, LevelColliderID, ScheduledBody, SimulationTier, UniverseBody,
    next_generation,
};

verus! {

broadcast use vstd::std_specs::hash::group_hash_axioms;

/// Ticks between two checks of an active body.
pub const ACTIVE_RECHECK_INTERVAL: u64 = 20;

/// Ticks between two checks of a critical body.
pub const CRITICAL_RECHECK_INTERVAL: u64 = 5;

/// Longest interval between two analytic steps of a ballistic body.
pub const BALLISTIC_MAX_INTERVAL: u64 = 20;

/// Tick at which a freshly created sub-level is first revisited.
pub const SUB_LEVEL_FIRST_CHECK_TICK: u64 = 20;

/// Whether queue `q` holds the entry `(tick, id, generation)`.
pub open spec fn final_scheduled_has(q: Seq<ScheduledBody>, tick: u64, id: LevelColliderID, generation: u64) -> bool {
    q.contains(ScheduledBody { tick, id, generation })
}

/// What a tick does with a body that is due.
#[derive(Clone, Copy, Debug, PartialEq, Eq, Structural)]
pub enum DueAction {
    /// A dormant body: nothing.
    Rest,
    /// A ballistic body: the caller advances it analytically, or wakes it
    /// when its swept bounds meet something.
    Fly,
    /// An active or critical body: checked again, and asked to be
    /// materialized when no region simulates it.
    Rechecked,
}

/// What becomes of a resident body when its region looks for bodies to
/// hand back to the universe.
#[derive(Clone, Copy, Debug, PartialEq, Eq, Structural)]
pub enum EvictionDecision {
    /// It stays in its region.
    Keep,
    /// It leaves its region and rests.
    Dormant,
    /// It leaves its region and flies ballistically.
    Ballistic,
}

/// The eviction decision for a resident body: a body held by a joint or
/// mount stays; so does one whose bounds (swept ahead when it moves) meet
/// other bodies (`neighbours`) or terrain (`terrain_hit`); otherwise a
/// body at rest becomes dormant and a moving one ballistic.
pub fn eviction_decision(
    constrained: bool,
    at_rest: bool,
    neighbours: &Vec<LevelColliderID>,
    terrain_hit: bool,
) -> (d: EvictionDecision)
    ensures
        d == if constrained || neighbours@.len() > 0 || terrain_hit {
            EvictionDecision::Keep
        } else if at_rest {
            EvictionDecision::Dormant
        } else {
            EvictionDecision::Ballistic
        },
{
    if constrained || neighbours.len() > 0 || terrain_hit {
        EvictionDecision::Keep
    } else if at_rest {
        EvictionDecision::Dormant
    } else {
        EvictionDecision::Ballistic
    }
}

impl<P, B, O> DimensionUniverse<P, B, O> {
    /// Registers body `id` as a ballistic body at `translation`, replacing
    /// any earlier record of that id, indexes it over `range` with bounds
    /// `bounds`, and schedules it for the next tick.
    pub fn register_body(&mut self, id: LevelColliderID, translation: VectorBits, physics: P, range: CellRange, bounds: B)
        requires
            old(self).wf(),
            old(self).current_tick < u64::MAX,
        ensures
            final(self).wf(),
            ({
                let t = old(self).current_tick;
                &&& final(self).universe_bodies@ == old(self).universe_bodies@.insert(
                    id,
                    UniverseBody {
                        id,
                        translation,
                        physics,
                        simulation_tier: SimulationTier::Ballistic,
                        last_update_tick: t,
                        next_update_tick: (t + 1) as u64,
                        schedule_generation: 1,
                        resident: None,
                        assembly_root: id,
                        assembly_size: 1,
                        command_queue: final(self).universe_bodies@[id].command_queue,
                    },
                )
                &&& final(self).universe_bodies@[id].command_queue@ == Seq::<crate::universe::UniverseCommand>::empty()
                &&& final(self).scheduled().to_multiset() == old(self).scheduled().to_multiset().insert(
                    ScheduledBody { tick: (t + 1) as u64, id, generation: 1 },
                )
            }),
            final(self).spatial_index.is_update_of(old(self).spatial_index, id, range, bounds),
            final(self).same_tracking(*old(self)),
    {
        let t = self.current_tick;
        let body = UniverseBody {
            id,
            translation,
            physics,
            simulation_tier: SimulationTier::Ballistic,
            last_update_tick: t,
            next_update_tick: t + 1,
            schedule_generation: 0,
            resident: None,
            assembly_root: id,
            assembly_size: 1,
            command_queue: Vec::new(),
        };
        self.universe_bodies.insert(id, body);
        self.spatial_index.update(id, range, bounds);
        self.schedule_body(id, t + 1);
        proof {
            assert(next_generation(0) == 1);
            assert(self.universe_bodies@ =~= old(self).universe_bodies@.insert(
                id,
                UniverseBody {
                    id,
                    translation,
                    physics,
                    simulation_tier: SimulationTier::Ballistic,
                    last_update_tick: t,
                    next_update_tick: (t + 1) as u64,
                    schedule_generation: 1,
                    resident: None,
                    assembly_root: id,
                    assembly_size: 1,
                    command_queue: self.universe_bodies@[id].command_queue,
                },
            ));
        }
    }

    /// Sets the tier of body `id`; does nothing for an unknown body.
    pub fn set_tier(&mut self, id: LevelColliderID, tier: SimulationTier)
        requires
            old(self).wf(),
        ensures
            final(self).wf(),
            final(self).universe_bodies@ == if old(self).universe_bodies@.contains_key(id) {
                old(self).universe_bodies@.insert(id, UniverseBody { simulation_tier: tier, ..old(self).universe_bodies@[id] })
            } else {
                old(self).universe_bodies@
            },
            final(self).scheduled() == old(self).scheduled(),
            final(self).spatial_index == old(self).spatial_index,
            final(self).same_tracking(*old(self)),
    {
        if !self.universe_bodies.contains_key(&id) {
            return;
        }
        let mut body = self.universe_bodies.remove(&id).unwrap();
        body.simulation_tier = tier;
        self.universe_bodies.insert(id, body);
        proof {
            assert(self.universe_bodies@ =~= old(self).universe_bodies@.insert(
                id,
                UniverseBody { simulation_tier: tier, ..old(self).universe_bodies@[id] },
            ));
        }
    }

    /// `self` is `before` without body `id`: its record, its index entry,
    /// its block geometry, and its dirty-pose, command, materialization and
    /// eviction marks are gone; queued requests, events and scheduler entries stay.
    pub open spec fn body_removed(self, before: Self, id: LevelColliderID) -> bool {
        &&& self.universe_bodies@ == before.universe_bodies@.remove(id)
        &&& self.spatial_index.is_removal_of(before.spatial_index, id)
        &&& self.pose_dirty_bodies@ == before.pose_dirty_bodies@.remove(id)
        &&& self.pending_command_bodies@ == before.pending_command_bodies@.remove(id)
        &&& self.pending_materializations@ == before.pending_materializations@.remove(id)
        &&& self.pending_evictions@ == before.pending_evictions@.remove(id)
        &&& self.materialization_requests@ == before.materialization_requests@
        &&& self.eviction_events@ == before.eviction_events@
        &&& self.terrain_sections@ == before.terrain_sections@
        &&& self.body_geometries@ == before.body_geometries@.remove(id)
        &&& self.scheduled() == before.scheduled()
        &&& self.current_tick == before.current_tick
    }

    /// Removes every universe record of body `id`: the body, its index
    /// entry, and its pending dirty-pose, command, materialization and
    /// eviction marks. Its scheduler entries become stale.
    pub fn remove_body(&mut self, id: LevelColliderID)
        requires
            old(self).wf(),
        ensures
            final(self).wf(),
            final(self).body_removed(*old(self), id),
    {
        self.spatial_index.remove(id);
        self.universe_bodies.remove(&id);
        self.pose_dirty_bodies.remove(&id);
        self.pending_command_bodies.remove(&id);
        self.pending_materializations.remove(&id);
        self.pending_evictions.remove(&id);
        self.body_geometries.remove(&id);
    }

    /// Starts the universe tick `absolute_tick`.
    pub fn begin_tick(&mut self, absolute_tick: u64)
        requires
            old(self).wf(),
        ensures
            final(self).wf(),
            final(self).current_tick == absolute_tick,
            final(self).universe_bodies@ == old(self).universe_bodies@,
            final(self).scheduled() == old(self).scheduled(),
            final(self).spatial_index == old(self).spatial_index,
            final(self).pose_dirty_bodies@ == old(self).pose_dirty_bodies@,
            final(self).pending_command_bodies@ == old(self).pending_command_bodies@,
            final(self).materialization_requests@ == old(self).materialization_requests@,
            final(self).pending_materializations@ == old(self).pending_materializations@,
            final(self).eviction_events@ == old(self).eviction_events@,
            final(self).pending_evictions@ == old(self).pending_evictions@,
            final(self).terrain_sections@ == old(self).terrain_sections@,
            final(self).body_geometries@ == old(self).body_geometries@,
    {
        self.current_tick = absolute_tick;
    }

    /// `self` is `before` after the due active or critical body `id` was
    /// checked: a body that no region simulates is asked to be
    /// materialized, and the body is checked again
    /// `ACTIVE_RECHECK_INTERVAL` ticks later.
    pub open spec fn rechecked(self, before: Self, id: LevelColliderID) -> bool {
        &&& {
            let b = before.universe_bodies@[id];
            let t = (before.current_tick + ACTIVE_RECHECK_INTERVAL) as u64;
            let g = next_generation(b.schedule_generation);
            let asks = b.resident is None && !before.pending_materializations@.contains(id);
            &&& self.universe_bodies@ == before.universe_bodies@.insert(
                id,
                UniverseBody { schedule_generation: g, next_update_tick: t, ..b },
            )
            &&& self.scheduled().to_multiset() == before.scheduled().to_multiset().insert(
                ScheduledBody { tick: t, id, generation: g },
            )
            &&& self.pending_materializations@ == if b.resident is None {
                before.pending_materializations@.insert(id)
            } else {
                before.pending_materializations@
            }
            &&& self.materialization_requests@ == if asks {
                before.materialization_requests@.push(
                    crate::universe::MaterializationRequest { id, position: b.translation },
                )
            } else {
                before.materialization_requests@
            }
        }
        &&& self.spatial_index == before.spatial_index
        &&& self.current_tick == before.current_tick
        &&& self.pose_dirty_bodies@ == before.pose_dirty_bodies@
        &&& self.pending_command_bodies@ == before.pending_command_bodies@
        &&& self.eviction_events@ == before.eviction_events@
        &&& self.pending_evictions@ == before.pending_evictions@
        &&& self.terrain_sections@ == before.terrain_sections@
        &&& self.body_geometries@ == before.body_geometries@
    }

    /// Tick decision for a due active or critical body: a body that no
    /// region simulates is asked to be materialized; the body is checked
    /// again `ACTIVE_RECHECK_INTERVAL` ticks later.
    pub fn recheck_active_body(&mut self, id: LevelColliderID)
        requires
            old(self).wf(),
            old(self).universe_bodies@.contains_key(id),
            old(self).current_tick + ACTIVE_RECHECK_INTERVAL <= u64::MAX,
        ensures
            final(self).wf(),
            final(self).rechecked(*old(self), id),
    {
        let unsimulated = match self.universe_bodies.get(&id) {
            Some(body) => body.resident.is_none(),
            None => false,
        };
        if unsimulated {
            self.request_materialization(id);
        }
        let t = self.current_tick + ACTIVE_RECHECK_INTERVAL;
        self.schedule_body(id, t);
    }

    /// Wakes body `n` because a ballistic sweep came near it: asks for its
    /// materialization, makes it active and schedules it for the next tick.
    /// Does nothing for an unknown body.
    pub fn wake_neighbor(&mut self, n: LevelColliderID)
        requires
            old(self).wf(),
            old(self).current_tick < u64::MAX,
        ensures
            final(self).wf(),
            !old(self).universe_bodies@.contains_key(n) ==> {
                &&& final(self).universe_bodies@ == old(self).universe_bodies@
                &&& final(self).scheduled() == old(self).scheduled()
                &&& final(self).same_tracking(*old(self))
            },
            old(self).universe_bodies@.contains_key(n) ==> {
                let b = old(self).universe_bodies@[n];
                let t = (old(self).current_tick + 1) as u64;
                let g = next_generation(b.schedule_generation);
                &&& final(self).universe_bodies@ == old(self).universe_bodies@.insert(
                    n,
                    UniverseBody { simulation_tier: SimulationTier::Active, schedule_generation: g, next_update_tick: t, ..b },
                )
                &&& final(self).scheduled().to_multiset() == old(self).scheduled().to_multiset().insert(
                    ScheduledBody { tick: t, id: n, generation: g },
                )
                &&& final(self).pending_materializations@ == old(self).pending_materializations@.insert(n)
                &&& final(self).materialization_requests@ == if !old(self).pending_materializations@.contains(n) {
                    old(self).materialization_requests@.push(
                        crate::universe::MaterializationRequest { id: n, position: b.translation },
                    )
                } else {
                    old(self).materialization_requests@
                }
                &&& final(self).current_tick == old(self).current_tick
                &&& final(self).pose_dirty_bodies@ == old(self).pose_dirty_bodies@
                &&& final(self).pending_command_bodies@ == old(self).pending_command_bodies@
                &&& final(self).eviction_events@ == old(self).eviction_events@
                &&& final(self).pending_evictions@ == old(self).pending_evictions@
                &&& final(self).terrain_sections@ == old(self).terrain_sections@
                &&& final(self).body_geometries@ == old(self).body_geometries@
            },
            final(self).spatial_index == old(self).spatial_index,
    {
        if !self.universe_bodies.contains_key(&n) {
            return;
        }
        self.request_materialization(n);
        self.set_tier(n, SimulationTier::Active);
        let t = self.current_tick + 1;
        self.schedule_body(n, t);
    }

    /// No body is requested twice among the requests from index `start` on.
    pub open spec fn requested_once_from(reqs: Seq<crate::universe::MaterializationRequest>, start: int) -> bool {
        forall|r1: int, r2: int| start <= r1 < r2 < reqs.len()
            ==> (#[trigger] reqs[r1]).id != (#[trigger] reqs[r2]).id
    }

    /// Tick decision for a due ballistic body whose swept bounds meet other
    /// bodies (`neighbors`) or terrain: the body and its neighbors are
    /// asked to be materialized, become active, and are revisited on the
    /// next tick.
    pub fn wake_ballistic_body(&mut self, id: LevelColliderID, neighbors: &Vec<LevelColliderID>)
        requires
            old(self).wf(),
            old(self).universe_bodies@.contains_key(id),
            old(self).current_tick < u64::MAX,
            !neighbors@.contains(id),
        ensures
            final(self).wf(),
            ({
                let t = (old(self).current_tick + 1) as u64;
                let woken = |x: LevelColliderID| old(self).universe_bodies@.contains_key(x)
                    && (x == id || neighbors@.contains(x));
                &&& final(self).universe_bodies@.dom() == old(self).universe_bodies@.dom()
                &&& forall|x: LevelColliderID| #[trigger] old(self).universe_bodies@.contains_key(x) && !woken(x)
                    ==> final(self).universe_bodies@[x] == old(self).universe_bodies@[x]
                &&& forall|x: LevelColliderID| #[trigger] old(self).universe_bodies@.contains_key(x) && woken(x) ==> {
                    let b0 = old(self).universe_bodies@[x];
                    let b1 = final(self).universe_bodies@[x];
                    &&& b1 == UniverseBody {
                        simulation_tier: SimulationTier::Active,
                        next_update_tick: t,
                        schedule_generation: b1.schedule_generation,
                        ..b0
                    }
                    &&& final(self).scheduled().contains(ScheduledBody { tick: t, id: x, generation: b1.schedule_generation })
                    &&& final(self).pending_materializations@.contains(x)
                    &&& !old(self).pending_materializations@.contains(x) ==> exists|r: int|
                        old(self).materialization_requests@.len() <= r < final(self).materialization_requests@.len()
                        && #[trigger] final(self).materialization_requests@[r]
                            == (crate::universe::MaterializationRequest { id: x, position: b0.translation })
                }
                &&& final(self).pending_materializations@ == old(self).pending_materializations@.union(
                    Set::new(|x: LevelColliderID| woken(x)))
                &&& final(self).materialization_requests@.subrange(0, old(self).materialization_requests@.len() as int)
                    == old(self).materialization_requests@
                &&& forall|r: int| old(self).materialization_requests@.len() <= r < final(self).materialization_requests@.len()
                    ==> {
                        let q = #[trigger] final(self).materialization_requests@[r];
                        &&& woken(q.id)
                        &&& !old(self).pending_materializations@.contains(q.id)
                        &&& q.position == old(self).universe_bodies@[q.id].translation
                    }
                &&& Self::requested_once_from(final(self).materialization_requests@, old(self).materialization_requests@.len() as int)
                &&& forall|e: ScheduledBody| #[trigger] final(self).scheduled().to_multiset().count(e)
                    >= old(self).scheduled().to_multiset().count(e)
                &&& forall|e: ScheduledBody| #[trigger] final(self).scheduled().to_multiset().count(e)
                    > old(self).scheduled().to_multiset().count(e) ==> e.tick == t && woken(e.id)
            }),
            final(self).spatial_index == old(self).spatial_index,
            final(self).current_tick == old(self).current_tick,
            final(self).pose_dirty_bodies@ == old(self).pose_dirty_bodies@,
            final(self).pending_command_bodies@ == old(self).pending_command_bodies@,
            final(self).eviction_events@ == old(self).eviction_events@,
            final(self).pending_evictions@ == old(self).pending_evictions@,
            final(self).terrain_sections@ == old(self).terrain_sections@,
            final(self).body_geometries@ == old(self).body_geometries@,
    {
        let ghost u0 = *self;
        let ghost t = (self.current_tick + 1) as u64;
        let ghost woken = |x: LevelColliderID| u0.universe_bodies@.contains_key(x)
            && (x == id || neighbors@.contains(x));
        self.request_materialization(id);
        self.set_tier(id, SimulationTier::Active);
        proof {
            assert(neighbors@.take(0) =~= Seq::<LevelColliderID>::empty());
            if !u0.pending_materializations@.contains(id) {
                let r = u0.materialization_requests@.len() as int;
                assert(self.materialization_requests@[r]
                    == (crate::universe::MaterializationRequest { id, position: u0.universe_bodies@[id].translation }));
            }
        }
        let n = neighbors.len();
        let mut i: usize = 0;
        while i < n
            invariant
                self.wf(),
                n == neighbors@.len(),
                0 <= i <= n,
                !neighbors@.contains(id),
                u0.universe_bodies@.contains_key(id),
                t == u0.current_tick + 1,
                self.current_tick == u0.current_tick,
                self.spatial_index == u0.spatial_index,
                self.pose_dirty_bodies@ == u0.pose_dirty_bodies@,
                self.pending_command_bodies@ == u0.pending_command_bodies@,
                self.eviction_events@ == u0.eviction_events@,
                self.pending_evictions@ == u0.pending_evictions@,
                self.terrain_sections@ == u0.terrain_sections@,
                self.body_geometries@ == u0.body_geometries@,
                self.universe_bodies@.dom() == u0.universe_bodies@.dom(),
                self.universe_bodies@[id] == (UniverseBody { simulation_tier: SimulationTier::Active, ..u0.universe_bodies@[id] }),
                forall|x: LevelColliderID| #[trigger] u0.universe_bodies@.contains_key(x) && x != id
                    && !neighbors@.take(i as int).contains(x)
                    ==> self.universe_bodies@[x] == u0.universe_bodies@[x],
                forall|x: LevelColliderID| #[trigger] u0.universe_bodies@.contains_key(x) && x != id
                    && neighbors@.take(i as int).contains(x) ==> {
                        let b1 = self.universe_bodies@[x];
                        &&& b1 == UniverseBody {
                            simulation_tier: SimulationTier::Active,
                            next_update_tick: t,
                            schedule_generation: b1.schedule_generation,
                            ..u0.universe_bodies@[x]
                        }
                        &&& self.scheduled().contains(ScheduledBody { tick: t, id: x, generation: b1.schedule_generation })
                    },
                self.pending_materializations@ == u0.pending_materializations@.insert(id).union(
                    Set::new(|x: LevelColliderID| u0.universe_bodies@.contains_key(x) && neighbors@.take(i as int).contains(x))),
                self.materialization_requests@.subrange(0, u0.materialization_requests@.len() as int)
                    == u0.materialization_requests@,
                self.materialization_requests@.len() >= u0.materialization_requests@.len(),
                forall|r: int| u0.materialization_requests@.len() <= r < self.materialization_requests@.len() ==> {
                    let q = #[trigger] self.materialization_requests@[r];
                    &&& u0.universe_bodies@.contains_key(q.id)
                    &&& (q.id == id || neighbors@.take(i as int).contains(q.id))
                    &&& !u0.pending_materializations@.contains(q.id)
                    &&& q.position == u0.universe_bodies@[q.id].translation
                },
                Self::requested_once_from(self.materialization_requests@, u0.materialization_requests@.len() as int),
                forall|x: LevelColliderID| #[trigger] u0.universe_bodies@.contains_key(x)
                    && (x == id || neighbors@.take(i as int).contains(x)) && !u0.pending_materializations@.contains(x)
                    ==> exists|r: int| u0.materialization_requests@.len() <= r < self.materialization_requests@.len()
                        && #[trigger] self.materialization_requests@[r]
                            == (crate::universe::MaterializationRequest { id: x, position: u0.universe_bodies@[x].translation }),
                forall|e: ScheduledBody| #[trigger] self.scheduled().to_multiset().count(e)
                    >= u0.scheduled().to_multiset().count(e),
                forall|e: ScheduledBody| #[trigger] self.scheduled().to_multiset().count(e)
                    > u0.scheduled().to_multiset().count(e) ==> e.tick == t && u0.universe_bodies@.contains_key(e.id)
                        && neighbors@.take(i as int).contains(e.id),
            decreases n - i,
        {
            let nb = neighbors[i];
            let ghost before = *self;
            proof {
                assert(neighbors@.take(i + 1) =~= neighbors@.take(i as int).push(nb));
                assert forall|x: LevelColliderID| #[trigger] neighbors@.take(i + 1).contains(x)
                    <==> (neighbors@.take(i as int).contains(x) || x == nb) by {
                    let a = neighbors@.take(i as int);
                    let b2 = neighbors@.take(i + 1);
                    if b2.contains(x) {
                        let j = choose|j: int| 0 <= j < b2.len() && b2[j] == x;
                        if j < a.len() { assert(a[j] == x); }
                    }
                    if a.contains(x) {
                        let j = choose|j: int| 0 <= j < a.len() && a[j] == x;
                        assert(b2[j] == x);
                    }
                    if x == nb { assert(b2[i as int] == nb); }
                }
                assert(nb != id) by {
                    assert(neighbors@[i as int] == nb);
                }
            }
            self.wake_neighbor(nb);
            proof {
                broadcast use vstd::seq_lib::group_to_multiset_ensures;
                let a = neighbors@.take(i as int);
                let b2 = neighbors@.take(i + 1);
                assert(self.pending_materializations@ =~= u0.pending_materializations@.insert(id).union(
                    Set::new(|x: LevelColliderID| u0.universe_bodies@.contains_key(x) && b2.contains(x))));
                if u0.universe_bodies@.contains_key(nb) {
                    let g = self.universe_bodies@[nb].schedule_generation;
                    let e = ScheduledBody { tick: t, id: nb, generation: g };
                    assert(self.scheduled().to_multiset().count(e) > 0);
                    assert(self.scheduled().contains(e));
                    assert forall|x: LevelColliderID| #[trigger] u0.universe_bodies@.contains_key(x) && x != id
                        && b2.contains(x) implies {
                            let b1 = self.universe_bodies@[x];
                            &&& b1 == UniverseBody {
                                simulation_tier: SimulationTier::Active,
                                next_update_tick: t,
                                schedule_generation: b1.schedule_generation,
                                ..u0.universe_bodies@[x]
                            }
                            &&& self.scheduled().contains(ScheduledBody { tick: t, id: x, generation: b1.schedule_generation })
                        } by {
                        if x != nb {
                            let e2 = ScheduledBody { tick: t, id: x, generation: self.universe_bodies@[x].schedule_generation };
                            assert(before.scheduled().contains(e2));
                            assert(before.scheduled().to_multiset().count(e2) > 0);
                            assert(self.scheduled().to_multiset().count(e2) > 0);
                        }
                    }
                    assert forall|x: LevelColliderID| #[trigger] u0.universe_bodies@.contains_key(x)
                        && (x == id || b2.contains(x)) && !u0.pending_materializations@.contains(x)
                        implies exists|r: int| u0.materialization_requests@.len() <= r < self.materialization_requests@.len()
                            && #[trigger] self.materialization_requests@[r]
                                == (crate::universe::MaterializationRequest { id: x, position: u0.universe_bodies@[x].translation }) by {
                        if x == nb && !before.pending_materializations@.contains(nb) {
                            let r = before.materialization_requests@.len() as int;
                            assert(self.materialization_requests@[r]
                                == (crate::universe::MaterializationRequest { id: x, position: u0.universe_bodies@[x].translation }));
                        } else if x == nb {
                            assert(before.pending_materializations@.contains(nb));
                            assert(a.contains(nb) || nb == id);
                            let r = choose|r: int| u0.materialization_requests@.len() <= r < before.materialization_requests@.len()
                                && #[trigger] before.materialization_requests@[r]
                                    == (crate::universe::MaterializationRequest { id: x, position: u0.universe_bodies@[x].translation });
                            assert(self.materialization_requests@[r] == before.materialization_requests@[r]);
                        } else {
                            let r = choose|r: int| u0.materialization_requests@.len() <= r < before.materialization_requests@.len()
                                && #[trigger] before.materialization_requests@[r]
                                    == (crate::universe::MaterializationRequest { id: x, position: u0.universe_bodies@[x].translation });
                            assert(self.materialization_requests@[r] == before.materialization_requests@[r]);
                        }
                    }
                    assert forall|r: int| u0.materialization_requests@.len() <= r < self.materialization_requests@.len() implies {
                        let q = #[trigger] self.materialization_requests@[r];
                        &&& u0.universe_bodies@.contains_key(q.id)
                        &&& (q.id == id || b2.contains(q.id))
                        &&& !u0.pending_materializations@.contains(q.id)
                        &&& q.position == u0.universe_bodies@[q.id].translation
                    } by {
                        if r < before.materialization_requests@.len() {
                            assert(self.materialization_requests@[r] == before.materialization_requests@[r]);
                        } else {
                            assert(!before.pending_materializations@.contains(nb));
                        }
                    }
                    assert(self.materialization_requests@.subrange(0, u0.materialization_requests@.len() as int)
                        =~= u0.materialization_requests@) by {
                        assert forall|r: int| 0 <= r < u0.materialization_requests@.len()
                            implies self.materialization_requests@[r] == u0.materialization_requests@[r] by {
                            assert(before.materialization_requests@.subrange(0, u0.materialization_requests@.len() as int)[r]
                                == u0.materialization_requests@[r]);
                        }
                    }
                    assert forall|r1: int, r2: int| u0.materialization_requests@.len() <= r1 < r2 < self.materialization_requests@.len()
                        implies (#[trigger] self.materialization_requests@[r1]).id != (#[trigger] self.materialization_requests@[r2]).id by {
                        if r2 >= before.materialization_requests@.len() {
                            let q = before.materialization_requests@[r1];
                            assert(self.materialization_requests@[r1] == q);
                            assert(before.pending_materializations@.contains(q.id));
                            assert(!before.pending_materializations@.contains(nb));
                        } else {
                            assert(self.materialization_requests@[r1] == before.materialization_requests@[r1]);
                            assert(self.materialization_requests@[r2] == before.materialization_requests@[r2]);
                        }
                    }
                } else {
                    assert forall|x: LevelColliderID| #[trigger] u0.universe_bodies@.contains_key(x)
                        && (x == id || b2.contains(x)) && !u0.pending_materializations@.contains(x)
                        implies exists|r: int| u0.materialization_requests@.len() <= r < self.materialization_requests@.len()
                            && #[trigger] self.materialization_requests@[r]
                                == (crate::universe::MaterializationRequest { id: x, position: u0.universe_bodies@[x].translation }) by {
                        assert(x != nb);
                    }
                }
            }
            i = i + 1;
        }
        proof {
            assert(neighbors@.take(n as int) =~= neighbors@);
        }
        let ghost before_last = *self;
        let t_exec = self.current_tick + 1;
        self.schedule_body(id, t_exec);
        proof {
            broadcast use vstd::seq_lib::group_to_multiset_ensures;
            let g = self.universe_bodies@[id].schedule_generation;
            let e = ScheduledBody { tick: t, id, generation: g };
            assert(self.scheduled().to_multiset().count(e) > 0);
            assert(self.scheduled().contains(e));
            assert forall|x: LevelColliderID| #[trigger] u0.universe_bodies@.contains_key(x) && woken(x) && x != id
                implies final_scheduled_has(self.scheduled(), t, x, self.universe_bodies@[x].schedule_generation) by {
                let e2 = ScheduledBody { tick: t, id: x, generation: self.universe_bodies@[x].schedule_generation };
                assert(before_last.scheduled().contains(e2));
                assert(before_last.scheduled().to_multiset().count(e2) > 0);
                assert(self.scheduled().to_multiset().count(e2) > 0);
            }
            assert(self.pending_materializations@ =~= u0.pending_materializations@.union(Set::new(|x: LevelColliderID| woken(x))));
        }
    }

    /// Tick decision for a due ballistic body that was advanced to
    /// `translation` with dynamic state `physics` and bounds `bounds` over
    /// `range`: its pose is marked dirty and it is reindexed; a body that
    /// `settles` becomes dormant, any other is revisited after
    /// `BALLISTIC_MAX_INTERVAL` ticks.
    pub fn finish_ballistic_step(
        &mut self,
        id: LevelColliderID,
        translation: VectorBits,
        physics: P,
        range: CellRange,
        bounds: B,
        settles: bool,
    )
        requires
            old(self).wf(),
            old(self).universe_bodies@.contains_key(id),
            old(self).current_tick + BALLISTIC_MAX_INTERVAL <= u64::MAX,
        ensures
            final(self).wf(),
            ({
                let b = old(self).universe_bodies@[id];
                let now = old(self).current_tick;
                let t = (now + BALLISTIC_MAX_INTERVAL) as u64;
                let g = next_generation(b.schedule_generation);
                let moved = UniverseBody { translation, physics, last_update_tick: now, ..b };
                &&& settles ==> final(self).universe_bodies@ == old(self).universe_bodies@.insert(
                    id,
                    UniverseBody { simulation_tier: SimulationTier::Dormant, ..moved },
                )
                &&& settles ==> final(self).scheduled() == old(self).scheduled()
                &&& !settles ==> final(self).universe_bodies@ == old(self).universe_bodies@.insert(
                    id,
                    UniverseBody { schedule_generation: g, next_update_tick: t, ..moved },
                )
                &&& !settles ==> final(self).scheduled().to_multiset() == old(self).scheduled().to_multiset().insert(
                    ScheduledBody { tick: t, id, generation: g },
                )
            }),
            final(self).pose_dirty_bodies@ == old(self).pose_dirty_bodies@.insert(id),
            final(self).spatial_index.is_update_of(old(self).spatial_index, id, range, bounds),
            final(self).current_tick == old(self).current_tick,
            final(self).pending_command_bodies@ == old(self).pending_command_bodies@,
            final(self).materialization_requests@ == old(self).materialization_requests@,
            final(self).pending_materializations@ == old(self).pending_materializations@,
            final(self).eviction_events@ == old(self).eviction_events@,
            final(self).pending_evictions@ == old(self).pending_evictions@,
            final(self).terrain_sections@ == old(self).terrain_sections@,
            final(self).body_geometries@ == old(self).body_geometries@,
    {
        let now = self.current_tick;
        let mut body = self.universe_bodies.remove(&id).unwrap();
        body.translation = translation;
        body.physics = physics;
        body.last_update_tick = now;
        self.universe_bodies.insert(id, body);
        self.pose_dirty_bodies.insert(id);
        self.spatial_index.update(id, range, bounds);
        proof {
            assert(self.universe_bodies@ =~= old(self).universe_bodies@.insert(
                id,
                UniverseBody { translation, physics, last_update_tick: now, ..old(self).universe_bodies@[id] },
            ));
        }
        if settles {
            self.set_tier(id, SimulationTier::Dormant);
        } else {
            self.schedule_body(id, now + BALLISTIC_MAX_INTERVAL);
        }
    }

    /// Bookkeeping after a region handed body `id` back to the universe:
    /// the body's last update is now, and it becomes ballistic (revisited
    /// after `BALLISTIC_MAX_INTERVAL` ticks) or, when not `ballistic`,
    /// dormant. Does nothing for an unknown body.
    pub fn settle_evicted_body(&mut self, id: LevelColliderID, ballistic: bool)
        requires
            old(self).wf(),
            old(self).current_tick + BALLISTIC_MAX_INTERVAL <= u64::MAX,
        ensures
            final(self).wf(),
            !old(self).universe_bodies@.contains_key(id) ==> {
                &&& final(self).universe_bodies@ == old(self).universe_bodies@
                &&& final(self).scheduled() == old(self).scheduled()
            },
            old(self).universe_bodies@.contains_key(id) ==> {
                let b = old(self).universe_bodies@[id];
                let now = old(self).current_tick;
                let t = (now + BALLISTIC_MAX_INTERVAL) as u64;
                let g = next_generation(b.schedule_generation);
                &&& !ballistic ==> final(self).universe_bodies@ == old(self).universe_bodies@.insert(
                    id,
                    UniverseBody { simulation_tier: SimulationTier::Dormant, last_update_tick: now, ..b },
                )
                &&& !ballistic ==> final(self).scheduled() == old(self).scheduled()
                &&& ballistic ==> final(self).universe_bodies@ == old(self).universe_bodies@.insert(
                    id,
                    UniverseBody {
                        simulation_tier: SimulationTier::Ballistic,
                        last_update_tick: now,
                        schedule_generation: g,
                        next_update_tick: t,
                        ..b
                    },
                )
                &&& ballistic ==> final(self).scheduled().to_multiset() == old(self).scheduled().to_multiset().insert(
                    ScheduledBody { tick: t, id, generation: g },
                )
            },
            final(self).spatial_index == old(self).spatial_index,
            final(self).same_tracking(*old(self)),
    {
        if !self.universe_bodies.contains_key(&id) {
            return;
        }
        let now = self.current_tick;
        let mut body = self.universe_bodies.remove(&id).unwrap();
        body.last_update_tick = now;
        body.simulation_tier = if ballistic { SimulationTier::Ballistic } else { SimulationTier::Dormant };
        self.universe_bodies.insert(id, body);
        proof {
            assert(self.universe_bodies@ =~= old(self).universe_bodies@.insert(
                id,
                UniverseBody {
                    simulation_tier: if ballistic { SimulationTier::Ballistic } else { SimulationTier::Dormant },
                    last_update_tick: now,
                    ..old(self).universe_bodies@[id]
                },
            ));
        }
        if ballistic {
            self.schedule_body(id, now + BALLISTIC_MAX_INTERVAL);
        }
    }

    /// Bookkeeping when a command wakes body `id` inside its region: an
    /// impulse or velocity command with its wake flag makes the body
    /// critical and rechecks it after `CRITICAL_RECHECK_INTERVAL` ticks; a
    /// wake command makes it active and rechecks it after
    /// `ACTIVE_RECHECK_INTERVAL` ticks.
    pub fn wake_for_command(&mut self, id: LevelColliderID, critical: bool)
        requires
            old(self).wf(),
            old(self).universe_bodies@.contains_key(id),
            old(self).current_tick + ACTIVE_RECHECK_INTERVAL <= u64::MAX,
        ensures
            final(self).wf(),
            ({
                let b = old(self).universe_bodies@[id];
                let tier = if critical { SimulationTier::Critical } else { SimulationTier::Active };
                let t = (old(self).current_tick + if critical { CRITICAL_RECHECK_INTERVAL } else { ACTIVE_RECHECK_INTERVAL }) as u64;
                let g = next_generation(b.schedule_generation);
                &&& final(self).universe_bodies@ == old(self).universe_bodies@.insert(
                    id,
                    UniverseBody { simulation_tier: tier, schedule_generation: g, next_update_tick: t, ..b },
                )
                &&& final(self).scheduled().to_multiset() == old(self).scheduled().to_multiset().insert(
                    ScheduledBody { tick: t, id, generation: g },
                )
            }),
            final(self).spatial_index == old(self).spatial_index,
            final(self).same_tracking(*old(self)),
    {
        if critical {
            self.set_tier(id, SimulationTier::Critical);
            let t = self.current_tick + CRITICAL_RECHECK_INTERVAL;
            self.schedule_body(id, t);
        } else {
            self.set_tier(id, SimulationTier::Active);
            let t = self.current_tick + ACTIVE_RECHECK_INTERVAL;
            self.schedule_body(id, t);
        }
    }

    /// Moves body `id` to `translation` with dynamic state `physics`, and
    /// reindexes it over `range` with bounds `bounds`; when `mark_dirty`,
    /// its pose is marked for export. Does nothing for an unknown body.
    pub fn move_body(
        &mut self,
        id: LevelColliderID,
        translation: VectorBits,
        physics: P,
        range: CellRange,
        bounds: B,
        mark_dirty: bool,
    )
        requires
            old(self).wf(),
        ensures
            final(self).wf(),
            !old(self).universe_bodies@.contains_key(id) ==> {
                &&& final(self).universe_bodies@ == old(self).universe_bodies@
                &&& final(self).spatial_index == old(self).spatial_index
                &&& final(self).pose_dirty_bodies@ == old(self).pose_dirty_bodies@
            },
            old(self).universe_bodies@.contains_key(id) ==> {
                &&& final(self).universe_bodies@ == old(self).universe_bodies@.insert(
                    id,
                    UniverseBody { translation, physics, ..old(self).universe_bodies@[id] },
                )
                &&& final(self).spatial_index.is_update_of(old(self).spatial_index, id, range, bounds)
                &&& final(self).pose_dirty_bodies@ == if mark_dirty {
                    old(self).pose_dirty_bodies@.insert(id)
                } else {
                    old(self).pose_dirty_bodies@
                }
            },
            final(self).scheduled() == old(self).scheduled(),
            final(self).current_tick == old(self).current_tick,
            final(self).pending_command_bodies@ == old(self).pending_command_bodies@,
            final(self).materialization_requests@ == old(self).materialization_requests@,
            final(self).pending_materializations@ == old(self).pending_materializations@,
            final(self).eviction_events@ == old(self).eviction_events@,
            final(self).pending_evictions@ == old(self).pending_evictions@,
            final(self).terrain_sections@ == old(self).terrain_sections@,
            final(self).body_geometries@ == old(self).body_geometries@,
    {
        if !self.universe_bodies.contains_key(&id) {
            return;
        }
        let mut body = self.universe_bodies.remove(&id).unwrap();
        body.translation = translation;
        body.physics = physics;
        self.universe_bodies.insert(id, body);
        proof {
            assert(self.universe_bodies@ =~= old(self).universe_bodies@.insert(
                id,
                UniverseBody { translation, physics, ..old(self).universe_bodies@[id] },
            ));
        }
        self.spatial_index.update(id, range, bounds);
        if mark_dirty {
            self.pose_dirty_bodies.insert(id);
        }
    }

    /// Replaces the dynamic state of body `id` and reindexes it over
    /// `range` with bounds `bounds`. Does nothing for an unknown body.
    pub fn reshape_body(&mut self, id: LevelColliderID, physics: P, range: CellRange, bounds: B)
        requires
            old(self).wf(),
        ensures
            final(self).wf(),
            !old(self).universe_bodies@.contains_key(id) ==> {
                &&& final(self).universe_bodies@ == old(self).universe_bodies@
                &&& final(self).spatial_index == old(self).spatial_index
            },
            old(self).universe_bodies@.contains_key(id) ==> {
                &&& final(self).universe_bodies@ == old(self).universe_bodies@.insert(
                    id,
                    UniverseBody { physics, ..old(self).universe_bodies@[id] },
                )
                &&& final(self).spatial_index.is_update_of(old(self).spatial_index, id, range, bounds)
            },
            final(self).scheduled() == old(self).scheduled(),
            final(self).same_tracking(*old(self)),
    {
        if !self.universe_bodies.contains_key(&id) {
            return;
        }
        let mut body = self.universe_bodies.remove(&id).unwrap();
        body.physics = physics;
        self.universe_bodies.insert(id, body);
        proof {
            assert(self.universe_bodies@ =~= old(self).universe_bodies@.insert(
                id,
                UniverseBody { physics, ..old(self).universe_bodies@[id] },
            ));
        }
        self.spatial_index.update(id, range, bounds);
    }

    /// Prepares body `id` for a move to another region: it becomes active
    /// and its schedule generation restarts at zero. Does nothing for an
    /// unknown body.
    pub fn prepare_migration(&mut self, id: LevelColliderID)
        requires
            old(self).wf(),
        ensures
            final(self).wf(),
            final(self).universe_bodies@ == if old(self).universe_bodies@.contains_key(id) {
                old(self).universe_bodies@.insert(
                    id,
                    UniverseBody {
                        simulation_tier: SimulationTier::Active,
                        schedule_generation: 0,
                        ..old(self).universe_bodies@[id]
                    },
                )
            } else {
                old(self).universe_bodies@
            },
            final(self).scheduled() == old(self).scheduled(),
            final(self).spatial_index == old(self).spatial_index,
            final(self).same_tracking(*old(self)),
    {
        if !self.universe_bodies.contains_key(&id) {
            return;
        }
        let mut body = self.universe_bodies.remove(&id).unwrap();
        body.simulation_tier = SimulationTier::Active;
        body.schedule_generation = 0;
        self.universe_bodies.insert(id, body);
        proof {
            assert(self.universe_bodies@ =~= old(self).universe_bodies@.insert(
                id,
                UniverseBody {
                    simulation_tier: SimulationTier::Active,
                    schedule_generation: 0,
                    ..old(self).universe_bodies@[id]
                },
            ));
        }
    }

    /// Registers a newly created sub-level `id` as an active body at
    /// `translation`, replacing any earlier record of that id, indexes it,
    /// and schedules its first check at `SUB_LEVEL_FIRST_CHECK_TICK`.
    pub fn create_sub_level(&mut self, id: LevelColliderID, translation: VectorBits, physics: P, range: CellRange, bounds: B)
        requires
            old(self).wf(),
        ensures
            final(self).wf(),
            final(self).universe_bodies@ == old(self).universe_bodies@.insert(
                id,
                UniverseBody {
                    id,
                    translation,
                    physics,
                    simulation_tier: SimulationTier::Active,
                    last_update_tick: 0,
                    next_update_tick: SUB_LEVEL_FIRST_CHECK_TICK,
                    schedule_generation: 1,
                    resident: None,
                    assembly_root: id,
                    assembly_size: 1,
                    command_queue: final(self).universe_bodies@[id].command_queue,
                },
            ),
            final(self).universe_bodies@[id].command_queue@ == Seq::<crate::universe::UniverseCommand>::empty(),
            final(self).scheduled().to_multiset() == old(self).scheduled().to_multiset().insert(
                ScheduledBody { tick: SUB_LEVEL_FIRST_CHECK_TICK, id, generation: 1 },
            ),
            final(self).spatial_index.is_update_of(old(self).spatial_index, id, range, bounds),
            final(self).same_tracking(*old(self)),
    {
        let body = UniverseBody {
            id,
            translation,
            physics,
            simulation_tier: SimulationTier::Active,
            last_update_tick: 0,
            next_update_tick: 0,
            schedule_generation: 0,
            resident: None,
            assembly_root: id,
            assembly_size: 1,
            command_queue: Vec::new(),
        };
        self.universe_bodies.insert(id, body);
        self.spatial_index.update(id, range, bounds);
        self.schedule_body(id, SUB_LEVEL_FIRST_CHECK_TICK);
        proof {
            assert(self.universe_bodies@ =~= old(self).universe_bodies@.insert(
                id,
                UniverseBody {
                    id,
                    translation,
                    physics,
                    simulation_tier: SimulationTier::Active,
                    last_update_tick: 0,
                    next_update_tick: SUB_LEVEL_FIRST_CHECK_TICK,
                    schedule_generation: 1,
                    resident: None,
                    assembly_root: id,
                    assembly_size: 1,
                    command_queue: self.universe_bodies@[id].command_queue,
                },
            ));
        }
    }

    /// Forgets the sub-level `id` when its region removes it: its record
    /// and its index entry go, its scheduler entries become stale, and its
    /// marks stay.
    pub fn forget_sub_level(&mut self, id: LevelColliderID)
        requires
            old(self).wf(),
        ensures
            final(self).wf(),
            final(self).universe_bodies@ == old(self).universe_bodies@.remove(id),
            final(self).spatial_index.is_removal_of(old(self).spatial_index, id),
            final(self).scheduled() == old(self).scheduled(),
            final(self).same_tracking(*old(self)),
    {
        self.spatial_index.remove(id);
        self.universe_bodies.remove(&id);
    }

    /// The state after a due body `id`, just popped into `mid`, was handled
    /// by `action`: a body that is neither dormant nor ballistic is rechecked,
    /// the others are left as popped.
    pub open spec fn due_action_taken(self, mid: Self, id: LevelColliderID, action: DueAction) -> bool {
        &&& mid.wf()
        &&& action == match mid.universe_bodies@[id].simulation_tier {
            SimulationTier::Dormant => DueAction::Rest,
            SimulationTier::Ballistic => DueAction::Fly,
            _ => DueAction::Rechecked,
        }
        &&& action == DueAction::Rechecked ==> self.rechecked(mid, id)
        &&& action != DueAction::Rechecked ==> self == mid
    }

    /// Pops the next due body, as `pop_due_body` does, and handles it by
    /// tier: a dormant body rests, a ballistic body is handed to the caller
    /// to fly, and an active or critical body is rechecked here. Returns
    /// `None` when no body is due.
    pub fn next_due_action(&mut self) -> (r: Option<(LevelColliderID, DueAction)>)
        requires
            old(self).wf(),
            old(self).current_tick + ACTIVE_RECHECK_INTERVAL <= u64::MAX,
        ensures
            final(self).wf(),
            r is None ==> final(self).popped_due(*old(self), None),
            r is Some ==> exists|mid: Self| #[trigger] mid.popped_due(*old(self), Some(r.unwrap().0))
                && final(self).due_action_taken(mid, r.unwrap().0, r.unwrap().1),
            r is Some ==> {
                let (id, action) = r.unwrap();
                let tier = old(self).universe_bodies@[id].simulation_tier;
                &&& old(self).universe_bodies@.contains_key(id)
                &&& (action == DueAction::Rest) == (tier == SimulationTier::Dormant)
                &&& (action == DueAction::Fly) == (tier == SimulationTier::Ballistic)
                &&& (action == DueAction::Rechecked)
                    == (tier == SimulationTier::Active || tier == SimulationTier::Critical)
                &&& action == DueAction::Rechecked ==> {
                    &&& final(self).universe_bodies@[id].next_update_tick
                        == old(self).current_tick + ACTIVE_RECHECK_INTERVAL
                    &&& final(self).universe_bodies@[id].simulation_tier == tier
                    &&& old(self).universe_bodies@[id].resident is None
                        ==> final(self).pending_materializations@.contains(id)
                }
                &&& action != DueAction::Rechecked ==> final(self).universe_bodies@ == old(self).universe_bodies@
            },
    {
        let popped = self.pop_due_body();
        let ghost mid = *self;
        match popped {
            None => None,
            Some(id) => {
                proof {
                    let n = self.scheduled().len() as int;
                    assert(entry_is_live(old(self).universe_bodies@, old(self).scheduled()[n]));
                }
                let tier = self.universe_bodies.get(&id).unwrap().simulation_tier;
                let action = match tier {
                    SimulationTier::Dormant => DueAction::Rest,
                    SimulationTier::Ballistic => DueAction::Fly,
                    _ => {
                        self.recheck_active_body(id);
                        DueAction::Rechecked
                    },
                };
                proof {
                    assert(mid.popped_due(*old(self), Some(id)));
                    assert(self.due_action_taken(mid, id, action));
                    assert(exists|m: Self| #[trigger] m.popped_due(*old(self), Some(id))
                        && self.due_action_taken(m, id, action));
                }
                let r = Some((id, action));
                assert(r.unwrap().0 == id && r.unwrap().1 == action);
                r
            },
        }
    }
}

} // verus!

//! Flushing the command queues of universe bodies.
//!
//! A body with queued commands is marked pending. A flush looks at every
//! pending body: one that has nothing left to run loses its mark; one
//! that no region simulates is woken, scheduled for the next tick and
//! asked to be materialized, keeping its commands for later; one that a
//! region simulates is handed back to the caller, which runs its commands
//! in that region and then takes them with `take_commands`.

use vstd::prelude::*;
use std::collections::HashSet;
use crate::universe::{
    DimensionUniverse, LevelColliderID, MaterializationRequest, ResidentPhysicsBody,
    ScheduledBody, SimulationTier, UniverseBody, UniverseCommand, next_generation,
};

verus! {

broadcast use vstd::std_specs::hash::group_hash_axioms;

/// The members of `set`, each once, in the order the set is walked.
pub(crate) fn ids_of(set: &HashSet<LevelColliderID>) -> (v: Vec<LevelColliderID>)
    ensures
        v@.to_set() == set@,
        v@.no_duplicates(),
{
    let mut v: Vec<LevelColliderID> = Vec::new();
    for id in it: set.iter()
        invariant
            v@.len() == it.index(),
            forall|j: int| 0 <= j < it.index() ==> v@[j] == *it.seq()[j],
            it.seq().unref().to_set() == set@,
            it.seq().no_duplicates(),
            v@.no_duplicates(),
            it.index() == it.seq().len() ==> v@.to_set() == set@,
    {
        proof {
            assert forall|j: int| 0 <= j < v@.len() implies v@[j] != *id by {
                assert(it.seq()[j] != it.seq()[it.index() as int]);
            }
        }
        v.push(*id);
        assert(it.index() + 1 == it.seq().len() ==> v@ =~= it.seq().unref());
    }
    v
}

/// The record of body `b` once woken so that a region runs its commands:
/// active, and revisited at `tick`.
pub open spec fn woken_for_commands<P>(b: UniverseBody<P>, tick: u64) -> UniverseBody<P> {
    UniverseBody {
        simulation_tier: SimulationTier::Active,
        schedule_generation: next_generation(b.schedule_generation),
        next_update_tick: tick,
        ..b
    }
}

/// A body woken so that a region runs its commands becomes active and is
/// revisited at the given tick; all else about it stays.
pub proof fn lemma_woken_for_commands_is_active<P>(b: UniverseBody<P>, tick: u64)
    ensures
        woken_for_commands(b, tick).simulation_tier == SimulationTier::Active,
        woken_for_commands(b, tick).next_update_tick == tick,
        woken_for_commands(b, tick).resident == b.resident,
        woken_for_commands(b, tick).translation == b.translation,
        woken_for_commands(b, tick).command_queue == b.command_queue,
{
}

impl<P, B, O> DimensionUniverse<P, B, O> {
    /// Body `id` is marked pending but has no commands left, or no record.
    pub open spec fn has_nothing_to_flush(self, id: LevelColliderID) -> bool {
        &&& self.pending_command_bodies@.contains(id)
        &&& (!self.universe_bodies@.contains_key(id) || self.universe_bodies@[id].command_queue@.len() == 0)
    }

    /// Body `id` is marked pending, has commands, and no region simulates it.
    pub open spec fn awaits_region(self, id: LevelColliderID) -> bool {
        &&& self.pending_command_bodies@.contains(id)
        &&& self.universe_bodies@.contains_key(id)
        &&& self.universe_bodies@[id].command_queue@.len() > 0
        &&& self.universe_bodies@[id].resident is None
    }

    /// Body `id` is marked pending, has commands, and a region simulates it.
    pub open spec fn ready_to_flush(self, id: LevelColliderID) -> bool {
        &&& self.pending_command_bodies@.contains(id)
        &&& self.universe_bodies@.contains_key(id)
        &&& self.universe_bodies@[id].command_queue@.len() > 0
        &&& self.universe_bodies@[id].resident is Some
    }

    /// The scheduler entry that a flush adds for a body awaiting a region.
    pub open spec fn flush_wake_entry(self, e: ScheduledBody) -> bool {
        &&& self.awaits_region(e.id)
        &&& e.tick == self.current_tick + 1
        &&& e.generation == next_generation(self.universe_bodies@[e.id].schedule_generation)
    }

    /// One step of a flush, for the pending body `id`.
    fn flush_step(&mut self, id: LevelColliderID) -> (r: Option<ResidentPhysicsBody>)
        requires
            old(self).wf(),
            old(self).pending_command_bodies@.contains(id),
            old(self).awaits_region(id) ==> old(self).current_tick < u64::MAX,
        ensures
            final(self).wf(),
            final(self).current_tick == old(self).current_tick,
            final(self).spatial_index == old(self).spatial_index,
            final(self).pose_dirty_bodies@ == old(self).pose_dirty_bodies@,
            final(self).eviction_events@ == old(self).eviction_events@,
            final(self).pending_evictions@ == old(self).pending_evictions@,
            final(self).terrain_sections@ == old(self).terrain_sections@,
            final(self).body_geometries@ == old(self).body_geometries@,
            old(self).has_nothing_to_flush(id) ==> {
                &&& r is None
                &&& final(self).pending_command_bodies@ == old(self).pending_command_bodies@.remove(id)
                &&& final(self).universe_bodies@ == old(self).universe_bodies@
                &&& final(self).scheduled() == old(self).scheduled()
                &&& final(self).materialization_requests@ == old(self).materialization_requests@
                &&& final(self).pending_materializations@ == old(self).pending_materializations@
            },
            old(self).awaits_region(id) ==> {
                let b = old(self).universe_bodies@[id];
                let t = (old(self).current_tick + 1) as u64;
                &&& r is None
                &&& final(self).universe_bodies@[id].simulation_tier == SimulationTier::Active
                &&& final(self).universe_bodies@[id].next_update_tick == t
                &&& final(self).pending_command_bodies@ == old(self).pending_command_bodies@
                &&& final(self).universe_bodies@ == old(self).universe_bodies@.insert(id, woken_for_commands(b, t))
                &&& final(self).scheduled().to_multiset() == old(self).scheduled().to_multiset().insert(
                    ScheduledBody { tick: t, id, generation: next_generation(b.schedule_generation) },
                )
                &&& final(self).scheduled().len() == old(self).scheduled().len() + 1
                &&& final(self).pending_materializations@ == old(self).pending_materializations@.insert(id)
                &&& final(self).materialization_requests@ == if old(self).pending_materializations@.contains(id) {
                    old(self).materialization_requests@
                } else {
                    old(self).materialization_requests@.push(MaterializationRequest { id, position: b.translation })
                }
            },
            old(self).ready_to_flush(id) ==> {
                &&& r == old(self).universe_bodies@[id].resident
                &&& *final(self) == *old(self)
            },
    {
        let (resident, empty) = match self.universe_bodies.get(&id) {
            Some(body) => (body.resident, body.command_queue.len() == 0),
            None => (None, true),
        };
        if empty {
            self.pending_command_bodies.remove(&id);
            return None;
        }
        match resident {
            Some(res) => Some(res),
            None => {
                self.request_materialization(id);
                self.set_tier(id, SimulationTier::Active);
                let t = self.current_tick + 1;
                self.schedule_body(id, t);
                proof {
                    let b = old(self).universe_bodies@[id];
                    assert(self.universe_bodies@ =~= old(self).universe_bodies@.insert(id, woken_for_commands(b, t)));
                }
                None
            },
        }
    }

    /// Looks at every body marked as having commands to flush. A body with
    /// no commands left, or no record, loses its mark. A body with
    /// commands that no region simulates is made active, scheduled for the
    /// next tick and asked to be materialized; it keeps its mark and its
    /// commands. The bodies with commands that a region simulates are
    /// returned, each once, with their region; they keep their mark until
    /// their commands are taken.
    pub fn plan_command_flush(&mut self) -> (ready: Vec<(LevelColliderID, ResidentPhysicsBody)>)
        requires
            old(self).wf(),
            forall|id: LevelColliderID| #[trigger] old(self).awaits_region(id) ==> old(self).current_tick < u64::MAX,
        ensures
            final(self).wf(),
            final(self).current_tick == old(self).current_tick,
            final(self).spatial_index == old(self).spatial_index,
            final(self).pose_dirty_bodies@ == old(self).pose_dirty_bodies@,
            final(self).eviction_events@ == old(self).eviction_events@,
            final(self).pending_evictions@ == old(self).pending_evictions@,
            final(self).terrain_sections@ == old(self).terrain_sections@,
            final(self).body_geometries@ == old(self).body_geometries@,
            final(self).universe_bodies@.dom() == old(self).universe_bodies@.dom(),
            forall|id: LevelColliderID| #[trigger] old(self).universe_bodies@.contains_key(id) ==>
                final(self).universe_bodies@[id] == if old(self).awaits_region(id) {
                    woken_for_commands(old(self).universe_bodies@[id], (old(self).current_tick + 1) as u64)
                } else {
                    old(self).universe_bodies@[id]
                },
            forall|id: LevelColliderID| #[trigger] old(self).awaits_region(id) ==> {
                &&& final(self).universe_bodies@[id].simulation_tier == SimulationTier::Active
                &&& final(self).universe_bodies@[id].next_update_tick == old(self).current_tick + 1
                &&& final(self).universe_bodies@[id].resident is None
                &&& final(self).pending_command_bodies@.contains(id)
                &&& final(self).pending_materializations@.contains(id)
            },
            forall|id: LevelColliderID| #[trigger] final(self).pending_command_bodies@.contains(id) <==>
                (old(self).pending_command_bodies@.contains(id) && !old(self).has_nothing_to_flush(id)),
            forall|id: LevelColliderID| #[trigger] final(self).pending_materializations@.contains(id) <==>
                (old(self).pending_materializations@.contains(id) || old(self).awaits_region(id)),
            final(self).materialization_requests@.len() >= old(self).materialization_requests@.len(),
            final(self).materialization_requests@.subrange(0, old(self).materialization_requests@.len() as int)
                == old(self).materialization_requests@,
            forall|j: int| old(self).materialization_requests@.len() <= j < final(self).materialization_requests@.len() ==> {
                let r = #[trigger] final(self).materialization_requests@[j];
                &&& old(self).awaits_region(r.id)
                &&& !old(self).pending_materializations@.contains(r.id)
                &&& r.position == old(self).universe_bodies@[r.id].translation
            },
            forall|id: LevelColliderID| old(self).awaits_region(id) && !old(self).pending_materializations@.contains(id) ==>
                exists|j: int| old(self).materialization_requests@.len() <= j < final(self).materialization_requests@.len()
                    && (#[trigger] final(self).materialization_requests@[j]).id == id,
            forall|j1: int, j2: int| old(self).materialization_requests@.len() <= j1 < j2 < final(self).materialization_requests@.len()
                ==> (#[trigger] final(self).materialization_requests@[j1]).id != (#[trigger] final(self).materialization_requests@[j2]).id,
            forall|e: ScheduledBody| #[trigger] final(self).scheduled().to_multiset().count(e)
                == old(self).scheduled().to_multiset().count(e) + if old(self).flush_wake_entry(e) { 1nat } else { 0nat },
            forall|j: int| 0 <= j < ready@.len() ==> {
                let (id, res) = #[trigger] ready@[j];
                &&& old(self).ready_to_flush(id)
                &&& old(self).universe_bodies@[id].resident == Some(res)
            },
            forall|id: LevelColliderID| #[trigger] old(self).ready_to_flush(id) ==>
                exists|j: int| 0 <= j < ready@.len() && (#[trigger] ready@[j]).0 == id,
            forall|j1: int, j2: int| 0 <= j1 < j2 < ready@.len() ==> (#[trigger] ready@[j1]).0 != (#[trigger] ready@[j2]).0,
    {
        let ids = ids_of(&self.pending_command_bodies);
        let mut ready: Vec<(LevelColliderID, ResidentPhysicsBody)> = Vec::new();
        let ghost o = *old(self);
        let ghost n0 = o.materialization_requests@.len();
        let n = ids.len();
        let mut i: usize = 0;
        while i < n
            invariant
                o == *old(self),
                n == ids@.len(),
                0 <= i <= n,
                ids@.to_set() == o.pending_command_bodies@,
                ids@.no_duplicates(),
                forall|id: LevelColliderID| #[trigger] o.awaits_region(id) ==> o.current_tick < u64::MAX,
                self.wf(),
                self.current_tick == o.current_tick,
                self.spatial_index == o.spatial_index,
                self.pose_dirty_bodies@ == o.pose_dirty_bodies@,
                self.eviction_events@ == o.eviction_events@,
                self.pending_evictions@ == o.pending_evictions@,
                self.terrain_sections@ == o.terrain_sections@,
                self.body_geometries@ == o.body_geometries@,
                self.universe_bodies@.dom() == o.universe_bodies@.dom(),
                forall|id: LevelColliderID| #[trigger] o.universe_bodies@.contains_key(id) ==>
                    self.universe_bodies@[id] == if ids@.take(i as int).contains(id) && o.awaits_region(id) {
                        woken_for_commands(o.universe_bodies@[id], (o.current_tick + 1) as u64)
                    } else {
                        o.universe_bodies@[id]
                    },
                forall|id: LevelColliderID| #[trigger] self.pending_command_bodies@.contains(id) <==>
                    (o.pending_command_bodies@.contains(id) && !(ids@.take(i as int).contains(id) && o.has_nothing_to_flush(id))),
                forall|id: LevelColliderID| #[trigger] self.pending_materializations@.contains(id) <==>
                    (o.pending_materializations@.contains(id) || (ids@.take(i as int).contains(id) && o.awaits_region(id))),
                self.materialization_requests@.len() >= n0,
                self.materialization_requests@.subrange(0, n0 as int) == o.materialization_requests@,
                forall|j: int| n0 <= j < self.materialization_requests@.len() ==> {
                    let r = #[trigger] self.materialization_requests@[j];
                    &&& ids@.take(i as int).contains(r.id)
                    &&& o.awaits_region(r.id)
                    &&& !o.pending_materializations@.contains(r.id)
                    &&& r.position == o.universe_bodies@[r.id].translation
                },
                forall|id: LevelColliderID| ids@.take(i as int).contains(id) && o.awaits_region(id)
                    && !o.pending_materializations@.contains(id) ==>
                    exists|j: int| n0 <= j < self.materialization_requests@.len()
                        && (#[trigger] self.materialization_requests@[j]).id == id,
                forall|j1: int, j2: int| n0 <= j1 < j2 < self.materialization_requests@.len()
                    ==> (#[trigger] self.materialization_requests@[j1]).id != (#[trigger] self.materialization_requests@[j2]).id,
                forall|e: ScheduledBody| #[trigger] self.scheduled().to_multiset().count(e)
                    == o.scheduled().to_multiset().count(e)
                        + if ids@.take(i as int).contains(e.id) && o.flush_wake_entry(e) { 1nat } else { 0nat },
                forall|j: int| 0 <= j < ready@.len() ==> {
                    let (id, res) = #[trigger] ready@[j];
                    &&& ids@.take(i as int).contains(id)
                    &&& o.ready_to_flush(id)
                    &&& o.universe_bodies@[id].resident == Some(res)
                },
                forall|id: LevelColliderID| ids@.take(i as int).contains(id) && #[trigger] o.ready_to_flush(id) ==>
                    exists|j: int| 0 <= j < ready@.len() && (#[trigger] ready@[j]).0 == id,
                forall|j1: int, j2: int| 0 <= j1 < j2 < ready@.len() ==> (#[trigger] ready@[j1]).0 != (#[trigger] ready@[j2]).0,
            decreases n - i,
        {
            let id = ids[i];
            let ghost s = *self;
            let ghost done = ids@.take(i as int);
            let ghost done2 = ids@.take(i + 1);
            proof {
                assert(done2 =~= done.push(id));
                assert(!done.contains(id)) by {
                    if done.contains(id) {
                        let k = choose|k: int| 0 <= k < done.len() && done[k] == id;
                        assert(ids@[k] == ids@[i as int]);
                    }
                }
                assert(o.pending_command_bodies@.contains(id)) by {
                    assert(ids@.contains(id)) by { assert(ids@[i as int] == id); }
                }
                assert(s.pending_command_bodies@.contains(id));
                if o.universe_bodies@.contains_key(id) {
                    assert(s.universe_bodies@[id] == o.universe_bodies@[id]);
                }
                assert(s.awaits_region(id) == o.awaits_region(id));
                assert(s.has_nothing_to_flush(id) == o.has_nothing_to_flush(id));
                assert(s.ready_to_flush(id) == o.ready_to_flush(id));
                assert(s.pending_materializations@.contains(id) == o.pending_materializations@.contains(id));
                assert forall|x: LevelColliderID| #[trigger] done2.contains(x) <==> (done.contains(x) || x == id) by {
                    if done2.contains(x) {
                        let k = choose|k: int| 0 <= k < done2.len() && done2[k] == x;
                        if k < done.len() { assert(done[k] == x); }
                    }
                    if done.contains(x) {
                        let k = choose|k: int| 0 <= k < done.len() && done[k] == x;
                        assert(done2[k] == x);
                    }
                    if x == id { assert(done2[i as int] == x); }
                }
            }
            let r = self.flush_step(id);
            match r {
                Some(res) => {
                    let ghost rd = ready@;
                    ready.push((id, res));
                    proof {
                        assert forall|x: LevelColliderID| done2.contains(x) && #[trigger] o.ready_to_flush(x) implies
                            exists|j: int| 0 <= j < ready@.len() && (#[trigger] ready@[j]).0 == x by {
                            if x == id {
                                assert(ready@[rd.len() as int].0 == x);
                            } else {
                                let j = choose|j: int| 0 <= j < rd.len() && (#[trigger] rd[j]).0 == x;
                                assert(ready@[j] == rd[j]);
                            }
                        }
                        assert forall|j1: int, j2: int| 0 <= j1 < j2 < ready@.len() implies
                            (#[trigger] ready@[j1]).0 != (#[trigger] ready@[j2]).0 by {
                            if j2 == rd.len() {
                                assert(ready@[j1] == rd[j1]);
                            } else {
                                assert(ready@[j1] == rd[j1]);
                                assert(ready@[j2] == rd[j2]);
                            }
                        }
                    }
                },
                None => {
                    proof {
                        broadcast use vstd::multiset::group_multiset_axioms;
                        let mr0 = s.materialization_requests@;
                        let mr1 = self.materialization_requests@;
                        assert forall|x: LevelColliderID| done2.contains(x) && o.awaits_region(x)
                            && !o.pending_materializations@.contains(x) implies
                            exists|j: int| n0 <= j < mr1.len() && (#[trigger] mr1[j]).id == x by {
                            if x == id {
                                assert(mr1[mr0.len() as int].id == x);
                            } else {
                                let j = choose|j: int| n0 <= j < mr0.len() && (#[trigger] mr0[j]).id == x;
                                assert(mr1[j] == mr0[j]);
                            }
                        }
                        assert forall|j1: int, j2: int| n0 <= j1 < j2 < mr1.len() implies
                            (#[trigger] mr1[j1]).id != (#[trigger] mr1[j2]).id by {
                            if j2 >= mr0.len() {
                                assert(mr1[j1] == mr0[j1]);
                            } else {
                                assert(mr1[j1] == mr0[j1]);
                                assert(mr1[j2] == mr0[j2]);
                            }
                        }
                        assert forall|j: int| n0 <= j < mr1.len() implies {
                            let r = #[trigger] mr1[j];
                            &&& done2.contains(r.id)
                            &&& o.awaits_region(r.id)
                            &&& !o.pending_materializations@.contains(r.id)
                            &&& r.position == o.universe_bodies@[r.id].translation
                        } by {
                            if j < mr0.len() {
                                assert(mr1[j] == mr0[j]);
                            }
                        }
                        assert(mr1.subrange(0, n0 as int) =~= mr0.subrange(0, n0 as int));
                    }
                },
            }
            i = i + 1;
        }
        proof {
            assert(ids@.take(n as int) =~= ids@);
            assert forall|id: LevelColliderID| #[trigger] ids@.contains(id) <==> o.pending_command_bodies@.contains(id) by {
                assert(ids@.to_set().contains(id) == ids@.contains(id));
            }
        }
        ready
    }

    /// Takes the queued commands of body `id`, in the order they were
    /// queued, leaving its queue empty, and clears its pending mark.
    pub fn take_commands(&mut self, id: LevelColliderID) -> (commands: Vec<UniverseCommand>)
        requires
            old(self).wf(),
        ensures
            final(self).wf(),
            final(self).pending_command_bodies@ == old(self).pending_command_bodies@.remove(id),
            old(self).universe_bodies@.contains_key(id) ==> {
                let b = old(self).universe_bodies@[id];
                &&& commands@ == b.command_queue@
                &&& final(self).universe_bodies@ == old(self).universe_bodies@.insert(
                    id,
                    UniverseBody { command_queue: final(self).universe_bodies@[id].command_queue, ..b },
                )
                &&& final(self).universe_bodies@[id].command_queue@ == Seq::<UniverseCommand>::empty()
            },
            !old(self).universe_bodies@.contains_key(id) ==> {
                &&& commands@ == Seq::<UniverseCommand>::empty()
                &&& final(self).universe_bodies@ == old(self).universe_bodies@
            },
            final(self).scheduled() == old(self).scheduled(),
            final(self).current_tick == old(self).current_tick,
            final(self).spatial_index == old(self).spatial_index,
            final(self).pose_dirty_bodies@ == old(self).pose_dirty_bodies@,
            final(self).materialization_requests@ == old(self).materialization_requests@,
            final(self).pending_materializations@ == old(self).pending_materializations@,
            final(self).eviction_events@ == old(self).eviction_events@,
            final(self).pending_evictions@ == old(self).pending_evictions@,
            final(self).terrain_sections@ == old(self).terrain_sections@,
            final(self).body_geometries@ == old(self).body_geometries@,
    {
        let mut commands: Vec<UniverseCommand> = Vec::new();
        if self.universe_bodies.contains_key(&id) {
            let mut body = self.universe_bodies.remove(&id).unwrap();
            std::mem::swap(&mut commands, &mut body.command_queue);
            self.universe_bodies.insert(id, body);
        }
        self.pending_command_bodies.remove(&id);
        commands
    }
}

} // verus!

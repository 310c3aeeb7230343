use worldengine_rapier::command::VectorBits;
use worldengine_rapier::lifecycle::{
    ACTIVE_RECHECK_INTERVAL, BALLISTIC_MAX_INTERVAL, CRITICAL_RECHECK_INTERVAL, SUB_LEVEL_FIRST_CHECK_TICK,
};
use worldengine_rapier::spatial::{CellRange, MacroCell};
use worldengine_rapier::universe::{
    DimensionUniverse, LevelColliderID, ResidentPhysicsBody, SimulationTier, UniverseBody, UniverseCommand,
};

type Universe = DimensionUniverse<(), (), ()>;

fn sched_body(id: LevelColliderID) -> UniverseBody<()> {
    UniverseBody {
        id,
        translation: VectorBits { x: 12.5f64.to_bits(), y: (-4.0f64).to_bits(), z: 88.25f64.to_bits() },
        physics: (),
        simulation_tier: SimulationTier::Active,
        last_update_tick: 0,
        next_update_tick: 0,
        schedule_generation: 0,
        resident: None,
        assembly_root: id,
        assembly_size: 1,
        command_queue: Vec::new(),
    }
}

fn unit_range() -> CellRange {
    CellRange { min: MacroCell(0, 0, 0), max: MacroCell(0, 0, 0) }
}

#[test]
fn scheduler_discards_stale_entries() {
    let mut universe = Universe::new();
    universe.universe_bodies.insert(1, sched_body(1));
    universe.schedule_body(1, 10);
    universe.schedule_body(1, 5);
    assert_eq!(universe.ticks_until_next_scheduled_body(), Some(5));
    universe.current_tick = 5;
    assert_eq!(universe.pop_due_body(), Some(1));
    universe.current_tick = 10;
    assert_eq!(universe.pop_due_body(), None);
}

#[test]
fn due_bodies_pop_in_tick_order() {
    let mut universe = Universe::new();
    for id in [3usize, 1, 2] {
        universe.universe_bodies.insert(id, sched_body(id));
    }
    universe.schedule_body(3, 7);
    universe.schedule_body(1, 9);
    universe.schedule_body(2, 4);
    assert_eq!(universe.next_due_tick(), Some(4));
    universe.begin_tick(8);
    assert_eq!(universe.pop_due_body(), Some(2));
    assert_eq!(universe.pop_due_body(), Some(3));
    assert_eq!(universe.pop_due_body(), None);
    assert_eq!(universe.ticks_until_next_scheduled_body(), Some(1));
    universe.begin_tick(20);
    assert_eq!(universe.ticks_until_next_scheduled_body(), Some(0));
    assert_eq!(universe.pop_due_body(), Some(1));
    assert_eq!(universe.next_due_tick(), None);
}

#[test]
fn schedule_of_unknown_body_is_ignored() {
    let mut universe = Universe::new();
    universe.schedule_body(77, 3);
    assert_eq!(universe.scheduled_len(), 0);
    assert_eq!(universe.next_due_tick(), None);
}

#[test]
fn generation_wraps_at_end_of_range() {
    let mut universe = Universe::new();
    let mut b = sched_body(4);
    b.schedule_generation = u64::MAX;
    universe.universe_bodies.insert(4, b);
    universe.schedule_body(4, 2);
    assert_eq!(universe.universe_bodies[&4].schedule_generation, 0);
    universe.current_tick = 2;
    assert_eq!(universe.pop_due_body(), Some(4));
}

#[test]
fn removed_body_entries_are_dropped() {
    let mut universe = Universe::new();
    universe.register_body(5, VectorBits { x: 0, y: 0, z: 0 }, (), unit_range(), ());
    assert_eq!(universe.universe_bodies[&5].simulation_tier, SimulationTier::Ballistic);
    assert_eq!(universe.next_due_tick(), Some(1));
    universe.remove_body(5);
    assert_eq!(universe.next_due_tick(), None);
    assert_eq!(universe.scheduled_len(), 0);
}

#[test]
fn active_recheck_requests_materialization_of_non_resident_body() {
    let mut universe = Universe::new();
    universe.universe_bodies.insert(6, sched_body(6));
    universe.begin_tick(3);
    universe.recheck_active_body(6);
    assert_eq!(universe.materialization_requests.len(), 1);
    assert_eq!(universe.materialization_requests[0].id, 6);
    assert_eq!(universe.universe_bodies[&6].next_update_tick, 3 + ACTIVE_RECHECK_INTERVAL);
    universe.recheck_active_body(6);
    assert_eq!(universe.materialization_requests.len(), 1);
}

#[test]
fn command_wake_picks_tier_and_interval() {
    let mut universe = Universe::new();
    universe.universe_bodies.insert(8, sched_body(8));
    universe.begin_tick(100);
    universe.wake_for_command(8, true);
    assert_eq!(universe.universe_bodies[&8].simulation_tier, SimulationTier::Critical);
    assert_eq!(universe.universe_bodies[&8].next_update_tick, 100 + CRITICAL_RECHECK_INTERVAL);
    universe.wake_for_command(8, false);
    assert_eq!(universe.universe_bodies[&8].simulation_tier, SimulationTier::Active);
    assert_eq!(universe.universe_bodies[&8].next_update_tick, 100 + ACTIVE_RECHECK_INTERVAL);
}

#[test]
fn ballistic_wake_brings_neighbors_along() {
    let mut universe = Universe::new();
    for id in [10usize, 11, 12] {
        let mut b = sched_body(id);
        b.simulation_tier = SimulationTier::Dormant;
        universe.universe_bodies.insert(id, b);
    }
    universe.begin_tick(40);
    universe.wake_ballistic_body(10, &vec![11, 99]);
    assert_eq!(universe.universe_bodies[&10].simulation_tier, SimulationTier::Active);
    assert_eq!(universe.universe_bodies[&11].simulation_tier, SimulationTier::Active);
    assert_eq!(universe.universe_bodies[&12].simulation_tier, SimulationTier::Dormant);
    let ids: Vec<LevelColliderID> = universe.materialization_requests.iter().map(|r| r.id).collect();
    assert!(ids.contains(&10) && ids.contains(&11) && !ids.contains(&99));
    assert_eq!(universe.next_due_tick(), Some(41));
}

#[test]
fn ballistic_step_settles_or_reschedules() {
    let mut universe = Universe::new();
    universe.register_body(20, VectorBits { x: 0, y: 0, z: 0 }, (), unit_range(), ());
    universe.begin_tick(1);
    assert_eq!(universe.pop_due_body(), Some(20));
    let moved = VectorBits { x: 1.5f64.to_bits(), y: 0, z: 0 };
    universe.finish_ballistic_step(20, moved, (), unit_range(), (), false);
    assert_eq!(universe.universe_bodies[&20].translation, moved);
    assert_eq!(universe.universe_bodies[&20].last_update_tick, 1);
    assert!(universe.pose_dirty_bodies.contains(&20));
    assert_eq!(universe.next_due_tick(), Some(1 + BALLISTIC_MAX_INTERVAL));
    universe.finish_ballistic_step(20, moved, (), unit_range(), (), true);
    assert_eq!(universe.universe_bodies[&20].simulation_tier, SimulationTier::Dormant);
}

#[test]
fn flush_sorts_pending_bodies() {
    let mut universe = Universe::new();
    let resident = ResidentPhysicsBody { rigid_body_index: 3, rigid_body_generation: 1, scene_handle: 77 };
    for id in [30usize, 31, 32] {
        universe.universe_bodies.insert(id, sched_body(id));
    }
    universe.mark_resident(31, resident);
    universe.queue_command(30, UniverseCommand::WakeUp, true);
    universe.queue_command(31, UniverseCommand::WakeUp, true);
    universe.pending_command_bodies.insert(32);
    universe.pending_command_bodies.insert(33);
    universe.begin_tick(9);

    let ready = universe.plan_command_flush();
    assert_eq!(ready, vec![(31, resident)]);
    assert!(universe.pending_command_bodies.contains(&30));
    assert!(universe.pending_command_bodies.contains(&31));
    assert!(!universe.pending_command_bodies.contains(&32));
    assert!(!universe.pending_command_bodies.contains(&33));
    assert_eq!(universe.materialization_requests.len(), 1);
    assert_eq!(universe.materialization_requests[0].id, 30);
    assert_eq!(universe.universe_bodies[&30].next_update_tick, 10);
    assert_eq!(universe.universe_bodies[&30].command_queue.len(), 1);

    let commands = universe.take_commands(31);
    assert_eq!(commands.len(), 1);
    assert!(matches!(commands[0], UniverseCommand::WakeUp));
    assert!(universe.universe_bodies[&31].command_queue.is_empty());
    assert!(!universe.pending_command_bodies.contains(&31));
}

#[test]
fn queued_command_without_notify_is_not_pending() {
    let mut universe = Universe::new();
    universe.universe_bodies.insert(40, sched_body(40));
    universe.queue_command(40, UniverseCommand::WakeUp, false);
    assert_eq!(universe.universe_bodies[&40].command_queue.len(), 1);
    assert!(!universe.pending_command_bodies.contains(&40));
    universe.queue_command(41, UniverseCommand::WakeUp, true);
    assert!(!universe.pending_command_bodies.contains(&41));
}

#[test]
fn sub_levels_start_active_and_can_be_forgotten() {
    let mut universe = Universe::new();
    universe.create_sub_level(50, VectorBits { x: 0, y: 0, z: 0 }, (), unit_range(), ());
    assert_eq!(universe.universe_bodies[&50].simulation_tier, SimulationTier::Active);
    assert_eq!(universe.next_due_tick(), Some(SUB_LEVEL_FIRST_CHECK_TICK));
    universe.pose_dirty_bodies.insert(50);
    universe.forget_sub_level(50);
    assert!(!universe.universe_bodies.contains_key(&50));
    assert!(universe.pose_dirty_bodies.contains(&50));
    assert_eq!(universe.next_due_tick(), None);
}

#[test]
fn migration_restarts_generation() {
    let mut universe = Universe::new();
    let mut b = sched_body(60);
    b.schedule_generation = 9;
    b.simulation_tier = SimulationTier::Dormant;
    universe.universe_bodies.insert(60, b);
    universe.prepare_migration(60);
    assert_eq!(universe.universe_bodies[&60].schedule_generation, 0);
    assert_eq!(universe.universe_bodies[&60].simulation_tier, SimulationTier::Active);
    universe.schedule_body(60, 7);
    assert_eq!(universe.universe_bodies[&60].schedule_generation, 1);
}

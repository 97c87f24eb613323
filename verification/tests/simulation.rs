use resource_sim::commands::{
    create_process, process_add_resource, process_add_resource_slot, process_get_name,
    process_get_resource_intensity, process_remove_resource, process_set_name,
    process_set_resource_intensity, simulation_add_process, simulation_add_resource,
    simulation_processes, simulation_remove_process, simulation_remove_resource,
    simulation_resources, simulation_set_simulation_speed, simulation_speed, stop_simulation,
    CommandError,
};
use resource_sim::oracle::safe_to_continue;
use resource_sim::{
    AllProcessTraits, AllSimulationTrait, GenericProcessResourceIntensity, GenericResource,
    Process, ProcessStates, ResourceSlot, RunningSimulation, Simulation,
};

fn sim_with(resources: &[(&str, u64)], processes: &[(&str, &[(&str, u64)])]) -> RunningSimulation {
    let mut sim = RunningSimulation::new();
    for (rid, total) in resources {
        sim.add_resource(GenericResource::with_id(
            String::from(*rid),
            *total,
            false,
            String::from(*rid),
        ));
    }
    for (pid, demands) in processes {
        let mut p = Process::with_id(
            String::from(*pid),
            GenericProcessResourceIntensity::Low,
            String::from(*pid),
        );
        for (n, (rid, amount)) in demands.iter().enumerate() {
            let slot_id = format!("{}-s{}", pid, n);
            assert!(p.add_resource_slot(ResourceSlot::with_id(
                String::from(*rid),
                slot_id,
                *amount
            )));
        }
        sim.add_process(ProcessStates::Ready(p));
    }
    sim
}

#[test]
fn a_fresh_simulation_runs_at_sixty() {
    let sim = RunningSimulation::new();
    assert_eq!(sim.simulation_speed(), 60);
    assert_eq!(sim.last_simulation_speed, 0);
    assert!(sim.processes().is_empty());
    assert!(sim.resources().is_empty());
    let stopped = Simulation::new();
    assert_eq!(stopped.simulation_speed, 60);
}

#[test]
fn create_process_inserts_ready() {
    let mut sim = Simulation::Stopped(Simulation::new());
    let p = create_process(
        &mut sim,
        String::from("worker"),
        GenericProcessResourceIntensity::High,
    );
    assert_eq!(p.name, "worker");
    let listed = simulation_processes(&sim);
    assert_eq!(listed.len(), 1);
    assert_eq!(listed[0].state_id(), p.id);
    assert!(matches!(listed[0], ProcessStates::Ready(_)));
}

#[test]
fn duplicate_resource_ids_are_refused() {
    let mut sim = RunningSimulation::new();
    simulation_add_resource(
        &mut sim,
        GenericResource::with_id(String::from("disk"), 5, false, String::from("r-dup")),
    );
    simulation_add_resource(
        &mut sim,
        GenericResource::with_id(String::from("net"), 9, false, String::from("r-dup")),
    );
    let listed = simulation_resources(&sim);
    assert_eq!(listed.len(), 1);
    assert_eq!(listed[0].name(), "disk");
}

#[test]
fn duplicate_process_ids_are_refused() {
    let mut sim = RunningSimulation::new();
    let p1 = Process::with_id(
        String::from("a"),
        GenericProcessResourceIntensity::Low,
        String::from("p-dup"),
    );
    let p2 = Process::with_id(
        String::from("b"),
        GenericProcessResourceIntensity::Low,
        String::from("p-dup"),
    );
    sim.add_process(ProcessStates::Ready(p1));
    sim.add_process(ProcessStates::Ready(p2));
    assert_eq!(sim.processes().len(), 1);
}

#[test]
fn get_and_set_process_name() {
    let mut sim = sim_with(&[], &[("p1", &[])]);
    let pid = String::from("p1");
    assert_eq!(process_get_name(&sim, &pid).unwrap(), "p1");
    assert!(process_set_name(&mut sim, &pid, String::from("renamed")).is_ok());
    assert_eq!(process_get_name(&sim, &pid).unwrap(), "renamed");
    let missing = String::from("nobody");
    assert_eq!(
        process_get_name(&sim, &missing).unwrap_err(),
        CommandError::NotFound
    );
    assert_eq!(
        process_set_name(&mut sim, &missing, String::from("x")).unwrap_err(),
        CommandError::NotFound
    );
}

#[test]
fn get_and_set_process_intensity() {
    let mut sim = sim_with(&[], &[("p1", &[])]);
    let pid = String::from("p1");
    assert!(matches!(
        process_get_resource_intensity(&sim, &pid).unwrap(),
        GenericProcessResourceIntensity::Low
    ));
    assert!(
        process_set_resource_intensity(&mut sim, &pid, GenericProcessResourceIntensity::Extreme)
            .is_ok()
    );
    assert!(matches!(
        process_get_resource_intensity(&sim, &pid).unwrap(),
        GenericProcessResourceIntensity::Extreme
    ));
}

#[test]
fn process_add_resource_appends_a_slot() {
    let mut sim = sim_with(&[("r1", 10)], &[("p1", &[])]);
    let pid = String::from("p1");
    let rid = String::from("r1");
    assert!(process_add_resource(&mut sim, &pid, &rid, 3).is_ok());
    let listed = simulation_processes(&sim);
    match &listed[0] {
        ProcessStates::Ready(p) => {
            assert_eq!(p.resource_slot.len(), 1);
            assert_eq!(p.resource_slot[0].resource_id, "r1");
            assert_eq!(p.resource_slot[0].base_amount, 3);
            assert_eq!(p.resource_slot[0].current_amount, 3);
        }
        _ => panic!("process should stay Ready"),
    }
}

#[test]
fn process_add_resource_rejects_unknown_ids() {
    let mut sim = sim_with(&[("r1", 10)], &[("p1", &[])]);
    assert_eq!(
        process_add_resource(&mut sim, &String::from("ghost"), &String::from("r1"), 1)
            .unwrap_err(),
        CommandError::NotFound
    );
    assert_eq!(
        process_add_resource(&mut sim, &String::from("p1"), &String::from("ghost"), 1)
            .unwrap_err(),
        CommandError::NotFound
    );
}

#[test]
fn process_add_resource_rejects_a_second_slot_for_one_resource() {
    let mut sim = sim_with(&[("r1", 10)], &[("p1", &[])]);
    let pid = String::from("p1");
    let rid = String::from("r1");
    assert!(process_add_resource(&mut sim, &pid, &rid, 3).is_ok());
    assert_eq!(
        process_add_resource(&mut sim, &pid, &rid, 2).unwrap_err(),
        CommandError::Invalid
    );
}

#[test]
fn process_add_resource_slot_is_deterministic() {
    let mut sim = sim_with(&[], &[("p1", &[])]);
    let pid = String::from("p1");
    let slot = ResourceSlot::with_id(String::from("r9"), String::from("slot-9"), 4);
    assert!(process_add_resource_slot(&mut sim, &pid, slot).is_ok());
    let again = ResourceSlot::with_id(String::from("r8"), String::from("slot-9"), 1);
    assert_eq!(
        process_add_resource_slot(&mut sim, &pid, again).unwrap_err(),
        CommandError::Invalid
    );
}

#[test]
fn process_remove_resource_drops_the_slot() {
    let mut sim = sim_with(&[("r1", 10)], &[("p1", &[("r1", 3)])]);
    let pid = String::from("p1");
    let rid = String::from("r1");
    assert!(process_remove_resource(&mut sim, &pid, &rid).is_ok());
    match &simulation_processes(&sim)[0] {
        ProcessStates::Ready(p) => assert!(p.resource_slot.is_empty()),
        _ => panic!("process should stay Ready"),
    }
    // Removing again is a no-op, not an error.
    assert!(process_remove_resource(&mut sim, &pid, &rid).is_ok());
    assert_eq!(
        process_remove_resource(&mut sim, &String::from("ghost"), &rid).unwrap_err(),
        CommandError::NotFound
    );
}

#[test]
fn simulation_add_process_command_inserts_one() {
    let mut sim = RunningSimulation::new();
    simulation_add_process(
        &mut sim,
        String::from("w"),
        GenericProcessResourceIntensity::Medium,
    );
    assert_eq!(simulation_processes(&sim).len(), 1);
}

#[test]
fn remove_commands_drop_by_id() {
    let mut sim = sim_with(&[("r1", 5), ("r2", 5)], &[("p1", &[]), ("p2", &[])]);
    simulation_remove_process(&mut sim, &String::from("p1"));
    let procs = simulation_processes(&sim);
    assert_eq!(procs.len(), 1);
    assert_eq!(procs[0].state_id(), "p2");
    simulation_remove_resource(&mut sim, &String::from("r2"));
    let ress = simulation_resources(&sim);
    assert_eq!(ress.len(), 1);
    assert_eq!(ress[0].id(), "r1");
    // Unknown ids are ignored.
    simulation_remove_process(&mut sim, &String::from("ghost"));
    simulation_remove_resource(&mut sim, &String::from("ghost"));
    assert_eq!(simulation_processes(&sim).len(), 1);
    assert_eq!(simulation_resources(&sim).len(), 1);
}

#[test]
fn speed_commands_read_and_write() {
    let mut sim = RunningSimulation::new();
    simulation_set_simulation_speed(&mut sim, 17);
    assert_eq!(simulation_speed(&sim), 17);
    simulation_set_simulation_speed(&mut sim, 0);
    assert_eq!(simulation_speed(&sim), 0);
}

#[test]
fn stopping_twice_keeps_the_saved_speed() {
    let mut sim = RunningSimulation::new();
    simulation_set_simulation_speed(&mut sim, 60);
    stop_simulation(&mut sim);
    assert_eq!(sim.simulation_speed, 0);
    assert_eq!(sim.last_simulation_speed, 60);
    stop_simulation(&mut sim);
    assert_eq!(sim.simulation_speed, 0);
    assert_eq!(sim.last_simulation_speed, 60);
}

#[test]
fn get_by_id_returns_copies() {
    let sim = sim_with(&[("r1", 7)], &[("p1", &[("r1", 2)])]);
    let p = sim.get_process_by_id(String::from("p1")).unwrap();
    assert_eq!(p.state_id(), "p1");
    let r = sim.get_resource_by_id(String::from("r1")).unwrap();
    assert_eq!(r.total_amount(), 7);
    assert!(sim.get_process_by_id(String::from("nope")).is_none());
    assert!(sim.get_resource_by_id(String::from("nope")).is_none());
}

#[test]
fn a_safe_tick_changes_nothing() {
    let mut sim = sim_with(&[("r1", 10)], &[("p1", &[("r1", 3)])]);
    assert!(sim.tick().is_none());
    assert_eq!(sim.simulation_speed, 60);
    assert_eq!(sim.processes().len(), 1);
}

#[test]
fn an_unsafe_tick_pauses_and_reports_the_eviction_set() {
    // The over-subscribed trio: capacity 5, three Ready processes of 4.
    let mut sim = sim_with(
        &[("r1", 5)],
        &[
            ("p1", &[("r1", 4)]),
            ("p2", &[("r1", 4)]),
            ("p3", &[("r1", 4)]),
        ],
    );
    simulation_set_simulation_speed(&mut sim, 60);
    let evict = sim.tick().expect("the snapshot is unsafe");
    assert_eq!(evict, vec![String::from("p2"), String::from("p3")]);
    assert_eq!(sim.simulation_speed, 0);
    assert_eq!(sim.last_simulation_speed, 60);
    // The registries themselves are untouched.
    assert_eq!(sim.processes().len(), 3);
    let remaining: Vec<ProcessStates> = simulation_processes(&sim)
        .into_iter()
        .filter(|p| !evict.contains(&p.state_id()))
        .collect();
    assert!(safe_to_continue(&remaining, sim.resources()));
}

#[test]
fn tick_due_never_fires_while_paused() {
    for elapsed in [0u64, 1, 1_000_000, u64::MAX] {
        assert!(!resource_sim::simulation::tick_due(0, elapsed));
    }
}

#[test]
fn tick_due_waits_for_the_period() {
    // At one tick per second the period is exactly 1_000_000 us.
    assert!(!resource_sim::simulation::tick_due(1, 1_000_000));
    assert!(resource_sim::simulation::tick_due(1, 1_000_001));
    // At 60 ticks per second ~16.7 ms must pass.
    assert!(!resource_sim::simulation::tick_due(60, 16_666));
    assert!(resource_sim::simulation::tick_due(60, 16_667));
}

#[test]
fn single_safe_process_end_to_end() {
    // Everything through the command surface, with freshly drawn ids.
    let mut sim = RunningSimulation::new();
    let r1 = GenericResource::new(String::from("R1"), 10, false);
    let rid = r1.id();
    simulation_add_resource(&mut sim, r1);
    let p1 = create_process(
        &mut sim,
        String::from("P1"),
        GenericProcessResourceIntensity::Low,
    );
    assert!(process_add_resource(&mut sim, &p1.id, &rid, 3).is_ok());
    let listed = simulation_processes(&sim);
    assert_eq!(listed.len(), 1);
    assert_eq!(listed[0].state_id(), p1.id);
    assert!(safe_to_continue(&listed, sim.resources()));
}

#[test]
fn removing_a_resource_also_removes_referring_slots() {
    let mut sim = sim_with(
        &[("r1", 5), ("r2", 5)],
        &[("p1", &[("r1", 2), ("r2", 1)]), ("p2", &[("r2", 3)])],
    );
    simulation_remove_resource(&mut sim, &String::from("r2"));
    assert_eq!(simulation_resources(&sim).len(), 1);
    match &simulation_processes(&sim)[..] {
        [ProcessStates::Ready(p1), ProcessStates::Ready(p2)] => {
            assert_eq!(p1.resource_slot.len(), 1);
            assert_eq!(p1.resource_slot[0].resource_id, "r1");
            assert!(p2.resource_slot.is_empty());
        }
        _ => panic!("both processes should stay Ready"),
    }
}

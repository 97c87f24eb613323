use resource_sim::simulation::step_process;
use resource_sim::{
    AllProcessTraits, AllSimulationTrait, GenericProcessResourceIntensity, GenericResource,
    Process, ProcessStates, ResourceSlot, RunningSimulation,
};

fn resource(rid: &str, total: u64) -> GenericResource {
    GenericResource::with_id(String::from(rid), total, false, String::from(rid))
}

fn ready(pid: &str, intensity: GenericProcessResourceIntensity, demands: &[(&str, u64)]) -> ProcessStates {
    let mut p = Process::with_id(String::from(pid), intensity, String::from(pid));
    for (n, (rid, amount)) in demands.iter().enumerate() {
        let slot_id = format!("{}-s{}", pid, n);
        assert!(p.add_resource_slot(ResourceSlot::with_id(
            String::from(*rid),
            slot_id,
            *amount
        )));
    }
    ProcessStates::Ready(p)
}

#[test]
fn a_working_process_finishes_back_to_ready() {
    let mut ress = vec![resource("r1", 5)];
    let p = match ready("p1", GenericProcessResourceIntensity::Low, &[("r1", 2)]) {
        ProcessStates::Ready(q) => ProcessStates::Working(q.run()),
        other => other,
    };
    let stepped = step_process(p, true, &mut ress);
    assert!(matches!(stepped, ProcessStates::Ready(_)));
    assert_eq!(stepped.state_id(), "p1");
    assert_eq!(ress[0].free_amount(), 5);
}

#[test]
fn a_blocked_process_keeps_waiting() {
    let mut ress = vec![resource("r1", 5)];
    let p = match ready("p1", GenericProcessResourceIntensity::Low, &[("r1", 2)]) {
        ProcessStates::Ready(q) => ProcessStates::Blocked(q.block()),
        other => other,
    };
    let stepped = step_process(p, true, &mut ress);
    assert!(matches!(stepped, ProcessStates::Blocked(_)));
    assert_eq!(ress[0].free_amount(), 5);
}

#[test]
fn a_ready_process_that_does_not_act_stays_put() {
    let mut ress = vec![resource("r1", 5)];
    let p = ready("p1", GenericProcessResourceIntensity::Low, &[("r1", 2)]);
    let stepped = step_process(p, false, &mut ress);
    assert!(matches!(stepped, ProcessStates::Ready(_)));
    assert_eq!(ress[0].free_amount(), 5);
}

#[test]
fn acting_consumes_the_demands_and_moves_to_working() {
    let mut ress = vec![resource("r1", 5), resource("r2", 3)];
    let p = ready(
        "p1",
        GenericProcessResourceIntensity::Low,
        &[("r1", 2), ("r2", 3)],
    );
    let stepped = step_process(p, true, &mut ress);
    assert!(matches!(stepped, ProcessStates::Working(_)));
    assert_eq!(ress[0].free_amount(), 3);
    assert_eq!(ress[1].free_amount(), 0);
}

#[test]
fn an_unmet_demand_blocks_and_keeps_what_was_consumed() {
    // The first slot's 2 units are taken; the second slot then fails, so
    // the process blocks and nothing returns to the pool.
    let mut ress = vec![resource("r1", 5), resource("r2", 1)];
    let p = ready(
        "p1",
        GenericProcessResourceIntensity::Low,
        &[("r1", 2), ("r2", 3)],
    );
    let stepped = step_process(p, true, &mut ress);
    assert!(matches!(stepped, ProcessStates::Blocked(_)));
    assert_eq!(ress[0].free_amount(), 3);
    assert_eq!(ress[1].free_amount(), 1);
}

#[test]
fn a_dangling_slot_blocks_the_process() {
    let mut ress = vec![resource("r1", 5)];
    let p = ready("p1", GenericProcessResourceIntensity::Low, &[("ghost", 1)]);
    let stepped = step_process(p, true, &mut ress);
    assert!(matches!(stepped, ProcessStates::Blocked(_)));
    assert_eq!(ress[0].free_amount(), 5);
}

#[test]
fn advance_drives_the_lifecycle_forward() {
    let mut sim = RunningSimulation::new();
    sim.add_resource(resource("r1", 10));
    // Extreme always acts, so the first step must move p1 to Working.
    sim.add_process(ready(
        "p1",
        GenericProcessResourceIntensity::Extreme,
        &[("r1", 4)],
    ));
    sim.advance_processes();
    assert!(matches!(sim.processes()[0], ProcessStates::Working(_)));
    assert_eq!(sim.resources()[0].free_amount(), 6);
    // The next step finishes it back to Ready.
    sim.advance_processes();
    assert!(matches!(sim.processes()[0], ProcessStates::Ready(_)));
    assert_eq!(sim.resources()[0].free_amount(), 6);
}

#[test]
fn advance_blocks_a_starved_extreme_process() {
    let mut sim = RunningSimulation::new();
    sim.add_resource(resource("r1", 3));
    sim.add_process(ready(
        "p1",
        GenericProcessResourceIntensity::Extreme,
        &[("r1", 4)],
    ));
    sim.advance_processes();
    assert!(matches!(sim.processes()[0], ProcessStates::Blocked(_)));
    assert_eq!(sim.resources()[0].free_amount(), 3);
    // A Blocked process stays Blocked on later steps.
    sim.advance_processes();
    assert!(matches!(sim.processes()[0], ProcessStates::Blocked(_)));
}

#[test]
fn advance_leaves_an_idle_process_ready() {
    let mut sim = RunningSimulation::new();
    sim.add_resource(resource("r1", 3));
    sim.add_process(ready(
        "p1",
        GenericProcessResourceIntensity::Idle,
        &[("r1", 1)],
    ));
    for _ in 0..10 {
        sim.advance_processes();
        assert!(matches!(sim.processes()[0], ProcessStates::Ready(_)));
        assert_eq!(sim.resources()[0].free_amount(), 3);
    }
}

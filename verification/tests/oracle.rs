use resource_sim::oracle::{eviction_set, safe_to_continue};
use resource_sim::{
    AllProcessTraits, GenericProcessResourceIntensity, GenericResource, Process, ProcessStates,
    ResourceSlot,
};

fn resource(rid: &str, total: u64) -> GenericResource {
    GenericResource::with_id(String::from(rid), total, false, String::from(rid))
}

fn ready(pid: &str, demands: &[(&str, u64)]) -> ProcessStates {
    let mut p = Process::with_id(
        String::from(pid),
        GenericProcessResourceIntensity::Low,
        String::from(pid),
    );
    for (n, (rid, amount)) in demands.iter().enumerate() {
        let slot_id = format!("{}-s{}", pid, n);
        assert!(p.add_resource_slot(ResourceSlot::with_id(
            String::from(*rid),
            slot_id,
            *amount
        )));
    }
    ProcessStates::Ready(p)
}

fn blocked(p: ProcessStates) -> ProcessStates {
    match p {
        ProcessStates::Ready(q) => ProcessStates::Blocked(q.block()),
        other => other,
    }
}

#[test]
fn empty_snapshot_is_safe() {
    let procs: Vec<ProcessStates> = vec![];
    let ress = vec![resource("r1", 0)];
    assert!(safe_to_continue(&procs, &ress));
    let no_resources: Vec<GenericResource> = vec![];
    assert!(safe_to_continue(&procs, &no_resources));
}

#[test]
fn single_fitting_process_is_safe() {
    // One resource of capacity 10, one Ready process demanding 3 of it.
    let ress = vec![resource("r1", 10)];
    let procs = vec![ready("p1", &[("r1", 3)])];
    assert!(safe_to_continue(&procs, &ress));
}

#[test]
fn over_subscription_is_unsafe() {
    // Capacity 5; three Ready processes, each demanding 4. Served
    // processes consume their demand for good, so 12 units can never be
    // carved out of 5.
    let ress = vec![resource("r1", 5)];
    let procs = vec![
        ready("p1", &[("r1", 4)]),
        ready("p2", &[("r1", 4)]),
        ready("p3", &[("r1", 4)]),
    ];
    assert!(!safe_to_continue(&procs, &ress));
}

#[test]
fn eviction_keeps_the_first_process_that_fits() {
    // Capacity 5: p1 alone fits (4 <= 5); adding p2 or p3 exceeds 5, so
    // both are reported, in registry order.
    let ress = vec![resource("r1", 5)];
    let procs = vec![
        ready("p1", &[("r1", 4)]),
        ready("p2", &[("r1", 4)]),
        ready("p3", &[("r1", 4)]),
    ];
    let evict = eviction_set(&procs, &ress);
    assert_eq!(evict, vec![String::from("p2"), String::from("p3")]);
}

#[test]
fn eviction_is_empty_on_a_safe_snapshot() {
    let ress = vec![resource("r1", 9)];
    let procs = vec![
        ready("p1", &[("r1", 4)]),
        ready("p2", &[("r1", 4)]),
        ready("p3", &[("r1", 1)]),
    ];
    assert!(safe_to_continue(&procs, &ress));
    assert_eq!(eviction_set(&procs, &ress), Vec::<String>::new());
}

#[test]
fn evicting_the_reported_set_restores_safety() {
    let ress = vec![resource("r1", 5)];
    let procs = vec![
        ready("p1", &[("r1", 4)]),
        ready("p2", &[("r1", 4)]),
        ready("p3", &[("r1", 4)]),
    ];
    assert!(!safe_to_continue(&procs, &ress));
    let evict = eviction_set(&procs, &ress);
    let remaining: Vec<ProcessStates> = procs
        .iter()
        .filter(|p| !evict.contains(&p.state_id()))
        .cloned()
        .collect();
    assert!(safe_to_continue(&remaining, &ress));
}

#[test]
fn independent_resources_remain_safe() {
    // r1 and r2 each hold 3; p1 takes all of r1, p2 all of r2.
    let ress = vec![resource("r1", 3), resource("r2", 3)];
    let procs = vec![ready("p1", &[("r1", 3)]), ready("p2", &[("r2", 3)])];
    assert!(safe_to_continue(&procs, &ress));
}

#[test]
fn blocked_processes_are_ignored_by_the_oracle() {
    // The over-subscribed trio again, but with p2 and p3 Blocked: only
    // p1's claim counts, so the snapshot is safe.
    let ress = vec![resource("r1", 5)];
    let procs = vec![
        ready("p1", &[("r1", 4)]),
        blocked(ready("p2", &[("r1", 6)])),
        blocked(ready("p3", &[("r1", 6)])),
    ];
    assert!(safe_to_continue(&procs, &ress));
    assert_eq!(eviction_set(&procs, &ress), Vec::<String>::new());
}

#[test]
fn only_non_ready_processes_means_safe() {
    let ress = vec![resource("r1", 0)];
    let procs = vec![
        blocked(ready("p1", &[("r1", 9)])),
        blocked(ready("p2", &[("r1", 9)])),
    ];
    assert!(safe_to_continue(&procs, &ress));
}

#[test]
fn removing_a_ready_process_keeps_a_safe_snapshot_safe() {
    let ress = vec![resource("r1", 6), resource("r2", 2)];
    let procs = vec![
        ready("p1", &[("r1", 3)]),
        ready("p2", &[("r1", 3), ("r2", 1)]),
        ready("p3", &[("r2", 1)]),
    ];
    assert!(safe_to_continue(&procs, &ress));
    for skip in 0..procs.len() {
        let fewer: Vec<ProcessStates> = procs
            .iter()
            .enumerate()
            .filter(|(i, _)| *i != skip)
            .map(|(_, p)| p.clone())
            .collect();
        assert!(safe_to_continue(&fewer, &ress));
    }
}

#[test]
fn the_oracle_measures_total_capacity_not_free_amount() {
    // The pool is fully consumed, but the oracle deliberately compares
    // demands against total capacity.
    let mut r = resource("r1", 10);
    assert!(r.use_resource(10).is_ok());
    assert_eq!(r.free_amount(), 0);
    let procs = vec![ready("p1", &[("r1", 5)])];
    assert!(safe_to_continue(&procs, &vec![r]));
}

#[test]
fn a_process_without_a_slot_makes_no_claim() {
    let ress = vec![resource("r1", 0)];
    let procs = vec![ready("p1", &[])];
    assert!(safe_to_continue(&procs, &ress));
}

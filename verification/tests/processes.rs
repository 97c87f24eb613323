use resource_sim::process::{decide_action, threshold_of};
use resource_sim::{
    AllProcessTraits, GenericProcessResourceIntensity, GenericResource, Process, ProcessStates,
    ResourceSlot,
};

fn ready_with_slot(pid: &str, rid: &str, sid: &str, amount: u64) -> resource_sim::ReadyProcess {
    let mut p = Process::with_id(
        String::from("proc"),
        GenericProcessResourceIntensity::Low,
        String::from(pid),
    );
    let slot = ResourceSlot::with_id(String::from(rid), String::from(sid), amount);
    assert!(p.add_resource_slot(slot));
    p
}

#[test]
fn new_process_is_ready_and_empty() {
    let p = Process::new(String::from("worker"), GenericProcessResourceIntensity::Medium);
    assert_eq!(p.name, "worker");
    assert_eq!(p.resource_slot.len(), 0);
    assert_eq!(p.id.chars().count(), 7);
    assert!(matches!(
        p.resource_intensity,
        GenericProcessResourceIntensity::Medium
    ));
}

#[test]
fn thresholds_follow_the_intensity_ladder() {
    assert_eq!(threshold_of(GenericProcessResourceIntensity::Idle), 0);
    assert_eq!(threshold_of(GenericProcessResourceIntensity::Low), 200);
    assert_eq!(threshold_of(GenericProcessResourceIntensity::Medium), 500);
    assert_eq!(threshold_of(GenericProcessResourceIntensity::High), 800);
    assert_eq!(threshold_of(GenericProcessResourceIntensity::Extreme), 1000);
}

#[test]
fn decide_action_compares_roll_to_threshold() {
    assert!(!decide_action(0, GenericProcessResourceIntensity::Idle));
    assert!(decide_action(199, GenericProcessResourceIntensity::Low));
    assert!(!decide_action(200, GenericProcessResourceIntensity::Low));
    assert!(decide_action(499, GenericProcessResourceIntensity::Medium));
    assert!(!decide_action(500, GenericProcessResourceIntensity::Medium));
    assert!(decide_action(999, GenericProcessResourceIntensity::Extreme));
}

#[test]
fn idle_never_acts_and_extreme_always_does() {
    let idle = Process::with_id(
        String::from("i"),
        GenericProcessResourceIntensity::Idle,
        String::from("idle-01"),
    );
    let extreme = Process::with_id(
        String::from("x"),
        GenericProcessResourceIntensity::Extreme,
        String::from("extr-01"),
    );
    for _ in 0..50 {
        assert!(!idle.should_perform_action());
        assert!(extreme.should_perform_action());
    }
}

#[test]
fn add_resource_appends_one_slot() {
    let resource = GenericResource::with_id(String::from("disk"), 9, false, String::from("rdisk01"));
    let mut p = Process::with_id(
        String::from("w"),
        GenericProcessResourceIntensity::Low,
        String::from("proc-01"),
    );
    assert!(p.add_resource(&resource, 4).is_some());
    assert_eq!(p.resource_slot.len(), 1);
    assert_eq!(p.resource_slot[0].resource_id, "rdisk01");
    assert_eq!(p.resource_slot[0].base_amount, 4);
    assert_eq!(p.resource_slot[0].current_amount, 4);
}

#[test]
fn a_second_slot_for_the_same_resource_is_refused() {
    let resource = GenericResource::with_id(String::from("disk"), 9, false, String::from("rdisk02"));
    let mut p = Process::with_id(
        String::from("w"),
        GenericProcessResourceIntensity::Low,
        String::from("proc-02"),
    );
    assert!(p.add_resource(&resource, 4).is_some());
    assert!(p.add_resource(&resource, 2).is_none());
    assert_eq!(p.resource_slot.len(), 1);
}

#[test]
fn a_duplicate_slot_id_is_refused() {
    let mut p = Process::with_id(
        String::from("w"),
        GenericProcessResourceIntensity::Low,
        String::from("proc-03"),
    );
    assert!(p.add_resource_slot(ResourceSlot::with_id(
        String::from("r-a"),
        String::from("slot-01"),
        1
    )));
    assert!(!p.add_resource_slot(ResourceSlot::with_id(
        String::from("r-b"),
        String::from("slot-01"),
        1
    )));
    assert_eq!(p.resource_slot.len(), 1);
}

#[test]
fn remove_resource_takes_out_the_first_match() {
    let mut p = Process::with_id(
        String::from("w"),
        GenericProcessResourceIntensity::Low,
        String::from("proc-04"),
    );
    assert!(p.add_resource_slot(ResourceSlot::with_id(
        String::from("r-a"),
        String::from("slot-0a"),
        1
    )));
    assert!(p.add_resource_slot(ResourceSlot::with_id(
        String::from("r-b"),
        String::from("slot-0b"),
        2
    )));
    assert!(p.remove_resource(String::from("r-a")).is_some());
    assert_eq!(p.resource_slot.len(), 1);
    assert_eq!(p.resource_slot[0].resource_id, "r-b");
    assert!(p.remove_resource(String::from("r-a")).is_none());
}

#[test]
fn transitions_preserve_identity_name_intensity_and_slots() {
    let p = ready_with_slot("proc-05", "r-a", "slot-0c", 3);
    let id = p.id.clone();
    let working = p.run();
    assert_eq!(working.id, id);
    assert_eq!(working.name, "proc");
    assert_eq!(working.resource_slot.len(), 1);
    let ready = working.finish();
    assert_eq!(ready.id, id);
    let blocked = ready.block();
    assert_eq!(blocked.id, id);
    assert_eq!(blocked.resource_slot[0].base_amount, 3);
    let ready_again = blocked.unblock();
    assert_eq!(ready_again.id, id);
    assert_eq!(ready_again.name, "proc");
    assert!(matches!(
        ready_again.resource_intensity,
        GenericProcessResourceIntensity::Low
    ));
}

#[test]
fn prepare_with_rolls_scales_the_demand_per_mille() {
    let mut p = ready_with_slot("proc-06", "r-a", "slot-0d", 1000);
    // Low threshold is 200: a roll of 100 acts, scaling the demand to
    // 1000 * 100 / 1000 = 100.
    p.prepare_with_rolls(&vec![100]);
    assert_eq!(p.resource_slot[0].current_amount, 100);
    assert_eq!(p.resource_slot[0].base_amount, 1000);
    // A roll at or above the threshold leaves the demand alone.
    p.prepare_with_rolls(&vec![900]);
    assert_eq!(p.resource_slot[0].current_amount, 100);
}

#[test]
fn prepare_keeps_demands_within_the_base() {
    let mut p = Process::with_id(
        String::from("w"),
        GenericProcessResourceIntensity::Extreme,
        String::from("proc-07"),
    );
    assert!(p.add_resource_slot(ResourceSlot::with_id(
        String::from("r-a"),
        String::from("slot-0e"),
        50
    )));
    for _ in 0..20 {
        p.prepare();
        assert!(p.resource_slot[0].current_amount <= p.resource_slot[0].base_amount);
    }
}

#[test]
fn prepare_leaves_an_idle_process_alone() {
    let mut p = Process::with_id(
        String::from("w"),
        GenericProcessResourceIntensity::Idle,
        String::from("proc-08"),
    );
    assert!(p.add_resource_slot(ResourceSlot::with_id(
        String::from("r-a"),
        String::from("slot-0f"),
        50
    )));
    p.prepare();
    assert_eq!(p.resource_slot[0].current_amount, 50);
}

#[test]
fn setters_change_name_and_intensity() {
    let mut p = Process::with_id(
        String::from("before"),
        GenericProcessResourceIntensity::Low,
        String::from("proc-09"),
    );
    p.set_name(String::from("after"));
    p.set_resource_intensity(GenericProcessResourceIntensity::High);
    assert_eq!(p.name(), "after");
    assert!(matches!(
        p.resource_intensity(),
        GenericProcessResourceIntensity::High
    ));
}

#[test]
fn state_id_reads_through_every_state() {
    let p = ready_with_slot("proc-10", "r-a", "slot-0g", 1);
    let ready = ProcessStates::Ready(p);
    assert_eq!(ready.state_id(), "proc-10");
    let blocked = match ready {
        ProcessStates::Ready(q) => ProcessStates::Blocked(q.block()),
        other => other,
    };
    assert_eq!(blocked.state_id(), "proc-10");
}

use resource_sim::resource::{
    create_resource, get_resource_free_amount, get_resource_name, get_resource_total_amount,
    set_resource_name, set_resource_total_amount,
};
use resource_sim::{GenericResource, GenericResourceError};

#[test]
fn new_resource_starts_full() {
    let r = GenericResource::new(String::from("disk"), 10, false);
    assert_eq!(r.total_amount(), 10);
    assert_eq!(r.free_amount(), 10);
    assert_eq!(r.name(), "disk");
    assert!(!r.blocking);
}

#[test]
fn fresh_ids_have_seven_characters() {
    let r = GenericResource::new(String::from("disk"), 1, false);
    assert_eq!(r.id().chars().count(), 7);
}

#[test]
fn with_id_keeps_the_given_id() {
    let r = GenericResource::with_id(String::from("net"), 4, true, String::from("r-00001"));
    assert_eq!(r.id(), "r-00001");
    assert!(r.blocking);
}

#[test]
fn create_resource_command_matches_new() {
    let r = create_resource(String::from("cpu"), 7, false);
    assert_eq!(get_resource_name(&r), "cpu");
    assert_eq!(get_resource_total_amount(&r), 7);
    assert_eq!(get_resource_free_amount(&r), 7);
}

#[test]
fn use_resource_decrements_free_amount() {
    let mut r = GenericResource::with_id(String::from("mem"), 10, false, String::from("memmem1"));
    assert!(r.use_resource(4).is_ok());
    assert_eq!(r.free_amount(), 6);
    assert_eq!(r.total_amount(), 10);
    assert!(r.use_resource(6).is_ok());
    assert_eq!(r.free_amount(), 0);
}

#[test]
fn use_resource_rejects_over_consumption() {
    let mut r = GenericResource::with_id(String::from("mem"), 3, false, String::from("memmem2"));
    let e = r.use_resource(4);
    assert!(matches!(e, Err(GenericResourceError::NotEnoughResource)));
    assert_eq!(r.free_amount(), 3);
}

#[test]
fn raising_total_amount_keeps_free_amount() {
    let mut r = GenericResource::with_id(String::from("mem"), 5, false, String::from("memmem3"));
    assert!(r.use_resource(2).is_ok());
    set_resource_total_amount(&mut r, 9);
    assert_eq!(r.total_amount(), 9);
    assert_eq!(r.free_amount(), 3);
}

#[test]
fn lowering_total_amount_clamps_free_amount() {
    let mut r = GenericResource::with_id(String::from("mem"), 10, false, String::from("memmem4"));
    set_resource_total_amount(&mut r, 4);
    assert_eq!(r.total_amount(), 4);
    assert_eq!(r.free_amount(), 4);
}

#[test]
fn set_free_amount_within_bounds() {
    let mut r = GenericResource::with_id(String::from("mem"), 10, false, String::from("memmem5"));
    r.set_free_amount(2);
    assert_eq!(r.free_amount(), 2);
}

#[test]
fn rename_resource() {
    let mut r = GenericResource::with_id(String::from("old"), 1, false, String::from("memmem6"));
    set_resource_name(&mut r, String::from("fresh"));
    assert_eq!(get_resource_name(&r), "fresh");
}

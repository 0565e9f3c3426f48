use sc::BoundedRegistry;

fn deliver(capability: &String, message: &String) -> String {
    format!("{}:{}", capability, message)
}

#[test]
fn new_registry_is_all_empty() {
    let reg: BoundedRegistry<String> = BoundedRegistry::new(3);
    assert_eq!(reg.capacity(), 3);
    let log = reg.notify(&String::from("x"), deliver);
    assert!(log.is_empty());
}

#[test]
fn zero_capacity_rejects_every_registration() {
    let mut reg: BoundedRegistry<String> = BoundedRegistry::new(0);
    assert_eq!(reg.capacity(), 0);
    let rejected = reg.register(String::from("A"));
    assert!(matches!(rejected, Err(ref v) if v == "A"));
}

#[test]
fn registration_past_capacity_is_rejected_and_release_makes_room() {
    let mut reg: BoundedRegistry<String> = BoundedRegistry::new(2);
    let first = reg.register(String::from("A")).unwrap();
    let second = reg.register(String::from("B")).unwrap();
    // Third concurrent registration in a capacity-2 registry: rejected,
    // the capability comes back unchanged.
    let rejected = reg.register(String::from("C"));
    assert!(matches!(rejected, Err(ref v) if v == "C"));
    // Releasing one guard lets the next registration succeed and reuse
    // the freed slot: the newcomer is notified in the freed slot's place.
    let back = reg.release(first);
    assert_eq!(back, String::from("A"));
    assert!(reg.register(String::from("D")).is_ok());
    let log = reg.notify(&String::from("m"), deliver);
    assert_eq!(log, vec![String::from("D:m"), String::from("B:m")]);
    let _ = second;
}

#[test]
fn notify_visits_bound_slots_once_in_ascending_order() {
    let mut reg: BoundedRegistry<String> = BoundedRegistry::new(4);
    let _a = reg.register(String::from("A")).unwrap();
    let b = reg.register(String::from("B")).unwrap();
    let _c = reg.register(String::from("C")).unwrap();
    let log = reg.notify(&String::from("x"), deliver);
    assert_eq!(
        log,
        vec![
            String::from("A:x"),
            String::from("B:x"),
            String::from("C:x")
        ]
    );
    // After a release in the middle, the unbound slot is skipped.
    reg.release(b);
    let log = reg.notify(&String::from("y"), deliver);
    assert_eq!(log, vec![String::from("A:y"), String::from("C:y")]);
}

#[test]
fn fan_out_with_slot_reuse() {
    let mut reg: BoundedRegistry<String> = BoundedRegistry::new(3);
    let _a = reg.register(String::from("A")).unwrap();
    let b = reg.register(String::from("B")).unwrap();
    let log = reg.notify(&String::from("x"), deliver);
    assert_eq!(log, vec![String::from("A:x"), String::from("B:x")]);
    reg.release(b);
    let log = reg.notify(&String::from("y"), deliver);
    assert_eq!(log, vec![String::from("A:y")]);
    // C takes over the slot B freed, so it is notified right after A.
    let _c = reg.register(String::from("C")).unwrap();
    let log = reg.notify(&String::from("z"), deliver);
    assert_eq!(log, vec![String::from("A:z"), String::from("C:z")]);
}

#[test]
fn released_capability_comes_back() {
    let mut reg: BoundedRegistry<u64> = BoundedRegistry::new(2);
    let g1 = reg.register(11).unwrap();
    let g2 = reg.register(22).unwrap();
    assert_eq!(reg.release(g2), 22);
    assert_eq!(reg.release(g1), 11);
    let log = reg.notify(&0u64, |capability: &u64, _message: &u64| *capability);
    assert!(log.is_empty());
}

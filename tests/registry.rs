use activity_tracker::interval::{ActivityInterval, ASSUMED_PING_INTERVAL_SECS};
use activity_tracker::registry::{ActivityRegistry, ClientRecord, RegistryError};

fn id(s: &str) -> String {
    s.to_string()
}

fn find<'a>(snap: &'a [ClientRecord], who: &str) -> Option<&'a ClientRecord> {
    snap.iter().find(|r| r.id == who)
}

#[test]
fn new_registry_is_empty() {
    let reg = ActivityRegistry::new();
    assert_eq!(reg.len(), 0);
    assert!(reg.snapshot().is_empty());
    assert!(!reg.contains(&id("127.0.0.1:5000")));
}

#[test]
fn register_inserts_empty_record() {
    let mut reg = ActivityRegistry::new();
    assert_eq!(reg.register(id("127.0.0.1:5000")), Ok(()));
    assert_eq!(reg.len(), 1);
    assert_eq!(reg.intervals_of(&id("127.0.0.1:5000")), Some(Vec::new()));
}

#[test]
fn duplicate_registration_is_reported_and_replaces_record() {
    let mut reg = ActivityRegistry::new();
    let a = id("10.0.0.1:4000");
    reg.register(a.clone()).unwrap();
    reg.record_activity(&a, ActivityInterval::after_activity_at(100));
    assert_eq!(reg.register(a.clone()), Err(RegistryError::DuplicateRegistration));
    assert_eq!(reg.len(), 1);
    assert_eq!(reg.intervals_of(&a), Some(Vec::new()));
}

#[test]
fn deregister_removes_and_is_idempotent() {
    let mut reg = ActivityRegistry::new();
    let a = id("10.0.0.1:4000");
    let b = id("10.0.0.2:4001");
    reg.register(a.clone()).unwrap();
    reg.register(b.clone()).unwrap();
    reg.deregister(&a);
    assert!(!reg.contains(&a));
    assert!(reg.contains(&b));
    assert_eq!(reg.len(), 1);
    reg.deregister(&a);
    assert_eq!(reg.len(), 1);
    assert!(reg.contains(&b));
}

#[test]
fn membership_follows_last_operation() {
    let mut reg = ActivityRegistry::new();
    let a = id("192.168.1.9:7000");
    reg.register(a.clone()).unwrap();
    let _ = reg.register(a.clone());
    reg.deregister(&a);
    assert!(!reg.contains(&a));
    reg.deregister(&a);
    assert!(!reg.contains(&a));
    reg.register(a.clone()).unwrap();
    assert!(reg.contains(&a));
    let _ = reg.register(a.clone());
    assert!(reg.contains(&a));
    assert_eq!(reg.len(), 1);
}

#[test]
fn activity_for_unregistered_id_is_dropped() {
    let mut reg = ActivityRegistry::new();
    let a = id("10.0.0.1:4000");
    reg.register(a.clone()).unwrap();
    reg.record_activity(&a, ActivityInterval::after_activity_at(7));
    let before = reg.snapshot();
    reg.record_activity(&id("10.0.0.9:9"), ActivityInterval::after_activity_at(8));
    let after = reg.snapshot();
    assert_eq!(reg.len(), 1);
    assert_eq!(before.len(), after.len());
    assert_eq!(before[0].id, after[0].id);
    assert_eq!(before[0].intervals, after[0].intervals);
    assert!(!reg.contains(&id("10.0.0.9:9")));
}

#[test]
fn activity_after_deregistration_is_dropped() {
    let mut reg = ActivityRegistry::new();
    let a = id("10.0.0.1:4000");
    reg.register(a.clone()).unwrap();
    reg.deregister(&a);
    reg.record_activity(&a, ActivityInterval::after_activity_at(3));
    assert_eq!(reg.len(), 0);
    assert_eq!(reg.intervals_of(&a), None);
}

#[test]
fn intervals_kept_in_insertion_order() {
    let mut reg = ActivityRegistry::new();
    let a = id("10.0.0.1:4000");
    reg.register(a.clone()).unwrap();
    reg.record_activity(&a, ActivityInterval::after_activity_at(1));
    reg.record_activity(&a, ActivityInterval::after_activity_at(6));
    reg.record_activity(&a, ActivityInterval::after_activity_at(11));
    let starts: Vec<u64> = reg.intervals_of(&a).unwrap().iter().map(|iv| iv.start()).collect();
    assert_eq!(starts, vec![1, 6, 11]);
}

#[test]
fn snapshot_windows_are_never_negative() {
    let mut reg = ActivityRegistry::new();
    for k in 0..5u64 {
        let who = format!("10.0.0.{}:{}", k, 1000 + k);
        reg.register(who.clone()).unwrap();
        for t in 0..4u64 {
            reg.record_activity(&who, ActivityInterval::after_activity_at(k * 10 + t));
        }
        if k % 2 == 1 {
            reg.deregister(&who);
        }
    }
    let snap = reg.snapshot();
    assert_eq!(snap.len(), 3);
    for rec in &snap {
        assert_eq!(rec.intervals.len(), 4);
        for iv in &rec.intervals {
            assert!(iv.start <= iv.end);
        }
    }
}

#[test]
fn snapshot_is_before_or_after_an_append() {
    let mut reg = ActivityRegistry::new();
    let a = id("10.0.0.1:4000");
    reg.register(a.clone()).unwrap();
    reg.record_activity(&a, ActivityInterval::after_activity_at(20));
    let before = reg.snapshot();
    reg.record_activity(&a, ActivityInterval::after_activity_at(25));
    let after = reg.snapshot();
    assert_eq!(before[0].intervals, vec![ActivityInterval { start: 20, end: 25 }]);
    assert_eq!(
        after[0].intervals,
        vec![ActivityInterval { start: 20, end: 25 }, ActivityInterval { start: 25, end: 30 }]
    );
}

#[test]
fn snapshot_is_unaffected_by_later_changes() {
    let mut reg = ActivityRegistry::new();
    let a = id("10.0.0.1:4000");
    reg.register(a.clone()).unwrap();
    reg.record_activity(&a, ActivityInterval::after_activity_at(0));
    let snap = reg.snapshot();
    reg.deregister(&a);
    assert_eq!(reg.len(), 0);
    assert_eq!(snap.len(), 1);
    assert_eq!(snap[0].id, a);
    assert_eq!(snap[0].intervals.len(), 1);
}

#[test]
fn two_clients_both_in_snapshot() {
    let mut reg = ActivityRegistry::new();
    let a = id("10.0.0.1:4000");
    let b = id("10.0.0.2:4000");
    reg.register(a.clone()).unwrap();
    reg.register(b.clone()).unwrap();
    reg.record_activity(&b, ActivityInterval::after_activity_at(3));
    reg.record_activity(&a, ActivityInterval::after_activity_at(4));
    let snap = reg.snapshot();
    assert_eq!(snap.len(), 2);
    assert_eq!(find(&snap, "10.0.0.1:4000").unwrap().intervals.len(), 1);
    assert_eq!(find(&snap, "10.0.0.2:4000").unwrap().intervals.len(), 1);
}

#[test]
fn interval_constructors() {
    let iv = ActivityInterval::after_activity_at(42);
    assert_eq!(iv.start(), 42);
    assert_eq!(iv.end(), 42 + ASSUMED_PING_INTERVAL_SECS);
    assert_eq!(ASSUMED_PING_INTERVAL_SECS, 5);
    assert_eq!(ActivityInterval::new(3, 9), Some(ActivityInterval { start: 3, end: 9 }));
    assert_eq!(ActivityInterval::new(4, 4), Some(ActivityInterval { start: 4, end: 4 }));
    assert_eq!(ActivityInterval::new(9, 3), None);
    let last = ActivityInterval::after_activity_at(u64::MAX - 5);
    assert_eq!(last.end(), u64::MAX);
}

use veddb_core::session::{SessionDesc, SessionRegistry};

#[test]
fn test_session_registry() {
    let registry_size = SessionRegistry::size_for_max_sessions(10);
    assert_eq!(registry_size, 24 + 10 * 64);
    let mut registry_ref = SessionRegistry::init(10);

    let session1 = registry_ref.create_session(1234, 256).unwrap();
    let session2 = registry_ref.create_session(5678, 256).unwrap();

    assert_ne!(session1, session2);
    assert_eq!(registry_ref.stats().active_sessions, 2);

    let desc1 = registry_ref.get_session(session1).unwrap();
    assert_eq!(desc1.pid, 1234);

    assert!(registry_ref.remove_session(session1));
    assert!(registry_ref.get_session(session1).is_none());
    assert_eq!(registry_ref.stats().active_sessions, 1);
}

#[test]
fn registry_capacity_and_ids() {
    let mut reg = SessionRegistry::init(2);
    assert_eq!(reg.create_session(1, 8), Some(1));
    assert_eq!(reg.create_session(2, 8), Some(2));
    assert_eq!(reg.create_session(3, 8), None);
    assert_eq!(reg.get_active_sessions(), vec![1, 2]);
    assert!(reg.remove_session(1));
    assert_eq!(reg.create_session(4, 8), Some(3));
    assert_eq!(reg.get_active_sessions(), vec![3, 2]);
    assert_eq!(reg.stats().next_session_id, 4);
}

#[test]
fn stale_sessions_are_cleaned() {
    let mut reg = SessionRegistry::init(3);
    reg.create_session(1, 8).unwrap();
    reg.create_session(2, 8).unwrap();
    let far_future = u64::MAX;
    assert_eq!(reg.cleanup_stale_sessions_at(far_future, 60), 2);
    assert_eq!(reg.stats().active_sessions, 0);
    assert!(reg.get_active_sessions().is_empty());
}

#[test]
fn staleness_rule() {
    let mut d = SessionDesc::new(5, 9);
    d.last_activity = 100;
    assert!(!d.is_stale_at(150, 60));
    assert!(d.is_stale_at(161, 60));
    assert!(!d.is_stale_at(50, 0));
}

#[test]
fn removing_session_zero_changes_nothing() {
    let mut reg = SessionRegistry::init(10);
    assert!(!reg.remove_session(0));
    let stats = reg.stats();
    assert_eq!(stats.active_sessions, 0);
    assert_eq!(stats.next_session_id, 1);
    let id = reg.create_session(42, 16).unwrap();
    assert!(!reg.remove_session(0));
    assert_eq!(reg.stats().active_sessions, 1);
    assert!(reg.remove_session(id));
    assert_eq!(reg.stats().active_sessions, 0);
}

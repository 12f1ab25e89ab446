use veddb_core::protocol::{Command, OpCode};
use veddb_core::ring::Slot;
use veddb_core::session::{SessionError, SessionManager, SessionRegistry};

#[test]
fn test_session_manager() {
    let registry = SessionRegistry::init(10);
    let mut manager = SessionManager::new(registry, 256);

    // Attach session
    let session_id = manager.attach_session(1234).unwrap();

    // Get rings
    assert_eq!(manager.get_cmd_ring(session_id).unwrap().capacity(), 256);
    assert_eq!(manager.get_resp_ring(session_id).unwrap().capacity(), 256);

    // Send response
    let slot = Slot::inline_data(b"response").unwrap();
    manager.send_response(session_id, slot).unwrap();

    // Check response was queued
    assert_eq!(manager.get_resp_ring(session_id).unwrap().len(), 1);

    // Detach session
    manager.detach_session(session_id).unwrap();
    assert!(manager.get_cmd_ring(session_id).is_err());
}

#[test]
fn notifications_are_batched() {
    let mut manager = SessionManager::new(SessionRegistry::init(4), 8);
    let id = manager.attach_session(7).unwrap();
    let slot = Slot::inline_data(b"r").unwrap();
    assert_eq!(manager.send_response(id, slot), Ok(true));
    assert_eq!(manager.send_response(id, slot), Ok(false));
    assert_eq!(manager.send_response(id, slot), Ok(false));
    manager.ack_notifications(id).unwrap();
    assert_eq!(manager.send_response(id, slot), Ok(true));
    assert_eq!(manager.ack_notifications(999), Err(SessionError::SessionNotFound));
    assert_eq!(manager.send_response(999, slot), Err(SessionError::SessionNotFound));
}

#[test]
fn full_rings_and_full_registry() {
    let mut manager = SessionManager::new(SessionRegistry::init(1), 2);
    let id = manager.attach_session(1).unwrap();
    assert_eq!(manager.attach_session(2), Err(SessionError::TooManySessions));
    let slot = Slot::inline_data(b"x").unwrap();
    manager.send_response(id, slot).unwrap();
    manager.send_response(id, slot).unwrap();
    assert_eq!(manager.send_response(id, slot), Err(SessionError::RingFull));
    assert_eq!(manager.get_active_sessions(), vec![id]);
}

#[test]
fn commands_come_from_the_shared_region() {
    let mut manager = SessionManager::new(SessionRegistry::init(2), 4);
    let id = manager.attach_session(1).unwrap();
    assert_eq!(manager.try_get_command(id, &[]).unwrap().is_none(), true);

    let cmd = Command::new(OpCode::Get, 3, b"key".to_vec(), Vec::new());
    let bytes = cmd.to_bytes();
    let mut arena = vec![0u8; 16];
    arena.extend_from_slice(&bytes);
    manager.push_command(id, Slot::arena_offset(bytes.len() as u32, 16)).unwrap();
    let got = manager.try_get_command(id, &arena).unwrap().unwrap();
    assert_eq!(got.header.opcode().unwrap(), OpCode::Get);
    assert_eq!(got.key, b"key".to_vec());

    // an inline payload is too short to hold a command
    manager.push_command(id, Slot::inline_data(b"abc").unwrap()).unwrap();
    assert_eq!(manager.try_get_command(id, &arena).unwrap_err(), SessionError::InvalidSession);
    // a payload past the end of the region
    manager.push_command(id, Slot::arena_offset(100, 1000)).unwrap();
    assert_eq!(manager.try_get_command(id, &arena).unwrap_err(), SessionError::InvalidSession);
    assert_eq!(manager.try_get_command(42, &arena).unwrap_err(), SessionError::SessionNotFound);
}

#[test]
fn manager_cleans_stale_sessions() {
    let mut manager = SessionManager::new(SessionRegistry::init(2), 4);
    manager.attach_session(1).unwrap();
    // nothing has been idle for more than an hour
    assert_eq!(manager.cleanup_stale_sessions(3600), 0);
    assert_eq!(manager.get_active_sessions().len(), 1);
}

#[test]
fn session_error_messages() {
    assert_eq!(SessionError::TooManySessions.message(), "Too many sessions");
    assert_eq!(SessionError::RingFull.message(), "Ring buffer full");
    assert_eq!(SessionError::InvalidSession.message(), "Invalid session");
}

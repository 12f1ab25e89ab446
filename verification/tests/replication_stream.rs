use veddb_core::clock::UtcTime;
use veddb_core::replication::stream::{
    master_stream_step, MasterAction, MasterEvent, full_sync_reply, incremental_sync_reply, ReplicationStats, SlaveStream, StreamAction, StreamEvent,
};
use veddb_core::replication::{AckStatus, ReplicationError, ReplicationMessage};
use veddb_core::util::decimal_text;

#[test]
fn decimal_text_of_numbers() {
    assert_eq!(decimal_text(0), "0");
    assert_eq!(decimal_text(7), "7");
    assert_eq!(decimal_text(10), "10");
    assert_eq!(decimal_text(456), "456");
    assert_eq!(decimal_text(u64::MAX), "18446744073709551615");
}

#[test]
fn slave_applies_and_acknowledges_entries() {
    let mut s = SlaveStream::new(ReplicationStats::default());
    let entries = vec![vec![1u8, 2], vec![3u8]];
    match s.on_event(StreamEvent::Received(ReplicationMessage::IncrementalSync { entries: entries.clone() })) {
        StreamAction::Apply(e) => assert_eq!(e, entries),
        _ => panic!("expected entries to apply"),
    }
    match s.on_event(StreamEvent::Applied { last_sequence: 42, lag_ms: 7 }) {
        StreamAction::Send(ReplicationMessage::Ack { sequence, status }) => {
            assert_eq!(sequence, 42);
            assert_eq!(status, AckStatus::Success);
        }
        _ => panic!("expected an acknowledgment"),
    }
    assert_eq!(s.replication_lag_ms(), 7);
    assert_eq!(s.stats().messages_received, 0);
    let at = UtcTime { secs: 1_700_000_000, nanos: 5 };
    assert!(matches!(s.on_event(StreamEvent::AckSent { at }), StreamAction::Wait));
    let stats = s.stats();
    assert_eq!(stats.messages_received, 1);
    assert_eq!(stats.replication_lag_ms, 7);
    assert_eq!(stats.last_sync, Some(at));
}

#[test]
fn slave_heartbeats_and_shutdown() {
    let mut s = SlaveStream::new(ReplicationStats::default());
    let hb = ReplicationMessage::Heartbeat { timestamp: 0, timestamp_nanos: 0, current_sequence: 9 };
    assert!(matches!(s.on_event(StreamEvent::Received(hb)), StreamAction::Wait));
    assert_eq!(s.stats().messages_received, 1);
    match s.on_event(StreamEvent::HeartbeatDue { current_sequence: 11 }) {
        StreamAction::Send(ReplicationMessage::Heartbeat { current_sequence, .. }) => assert_eq!(current_sequence, 11),
        _ => panic!("expected a heartbeat"),
    }
    assert!(matches!(s.on_event(StreamEvent::HeartbeatSent), StreamAction::Wait));
    assert_eq!(s.stats().messages_sent, 1);
    let other = ReplicationMessage::ack_success(3);
    assert!(matches!(s.on_event(StreamEvent::Received(other)), StreamAction::Wait));
    let bye = ReplicationMessage::MasterShutdown { reason: "maintenance".to_string() };
    match s.on_event(StreamEvent::Received(bye)) {
        StreamAction::Stop(e) => assert_eq!(e, ReplicationError::ConnectionError("Master shutdown".to_string())),
        _ => panic!("expected the session to end"),
    }
    match s.on_event(StreamEvent::SendFailed(ReplicationError::Timeout)) {
        StreamAction::Stop(e) => assert_eq!(e, ReplicationError::Timeout),
        _ => panic!("expected the session to end"),
    }
}

#[test]
fn master_reads_sync_replies() {
    assert_eq!(full_sync_reply(&ReplicationMessage::ack_success(1)), Ok(()));
    assert_eq!(
        full_sync_reply(&ReplicationMessage::ack_failed(1)),
        Err(ReplicationError::ProtocolError("Full sync failed on slave".to_string()))
    );
    assert_eq!(
        full_sync_reply(&ReplicationMessage::heartbeat(1)),
        Err(ReplicationError::ProtocolError("Expected ACK message".to_string()))
    );
    assert_eq!(incremental_sync_reply(&ReplicationMessage::ack_success(77)), Ok(77));
    assert_eq!(
        incremental_sync_reply(&ReplicationMessage::ack_failed(456)),
        Err(ReplicationError::ProtocolError("Incremental sync failed on slave at sequence 456".to_string()))
    );
    assert_eq!(
        incremental_sync_reply(&ReplicationMessage::MasterShutdown { reason: String::new() }),
        Err(ReplicationError::ProtocolError("Expected ACK message".to_string()))
    );
}

#[test]
fn master_streams_entries_one_at_a_time() {
    match master_stream_step(MasterEvent::EntryReady(vec![9, 9])) {
        MasterAction::Send(ReplicationMessage::IncrementalSync { entries }) => assert_eq!(entries, vec![vec![9u8, 9]]),
        _ => panic!("expected the entry to be sent"),
    }
    assert!(matches!(master_stream_step(MasterEvent::EntrySent), MasterAction::AwaitReply));
    assert!(matches!(master_stream_step(MasterEvent::Reply(ReplicationMessage::ack_failed(1))), MasterAction::Wait));
    assert!(matches!(master_stream_step(MasterEvent::Lagged(5)), MasterAction::Wait));
    assert!(matches!(master_stream_step(MasterEvent::Closed), MasterAction::Finish));
    match master_stream_step(MasterEvent::HeartbeatDue { current_sequence: 8 }) {
        MasterAction::Send(ReplicationMessage::Heartbeat { current_sequence, .. }) => assert_eq!(current_sequence, 8),
        _ => panic!("expected a heartbeat"),
    }
    match master_stream_step(MasterEvent::ReceiveFailed(ReplicationError::Timeout)) {
        MasterAction::Stop(e) => assert_eq!(e, ReplicationError::Timeout),
        _ => panic!("expected the stream to stop"),
    }
}

use veddb_core::replication::frame::{frame_message, message_length, MAX_MESSAGE_BYTES};
use veddb_core::replication::{
    admit_slave, compress_snapshot_data, decompress_snapshot_data, needs_full_sync, AckStatus,
    ClusterHealth, ErrorCode, NodeRole, ReplicationError, ReplicationMessage,
};

#[test]
fn test_message_type() {
    let msg = ReplicationMessage::Heartbeat {
        timestamp: 1_700_000_000,
        timestamp_nanos: 0,
        current_sequence: 100,
    };
    assert_eq!(msg.message_type(), "Heartbeat");
    assert!(msg.is_control_message());
}

#[test]
fn test_ack_messages() {
    let success = ReplicationMessage::ack_success(123);
    match success {
        ReplicationMessage::Ack { sequence, status } => {
            assert_eq!(sequence, 123);
            assert_eq!(status, AckStatus::Success);
        }
        _ => panic!("Wrong message type"),
    }

    let failed = ReplicationMessage::ack_failed(456);
    match failed {
        ReplicationMessage::Ack { sequence, status } => {
            assert_eq!(sequence, 456);
            assert_eq!(status, AckStatus::Failed);
        }
        _ => panic!("Wrong message type"),
    }
}

#[test]
fn test_heartbeat_creation() {
    let heartbeat = ReplicationMessage::heartbeat(999);
    match heartbeat {
        ReplicationMessage::Heartbeat { current_sequence, .. } => {
            assert_eq!(current_sequence, 999);
        }
        _ => panic!("Wrong message type"),
    }
}

#[test]
fn data_messages_are_not_control() {
    let sync = ReplicationMessage::SyncRequest { last_sequence: 5, slave_id: "slave-001".to_string() };
    assert_eq!(sync.message_type(), "SyncRequest");
    assert!(!sync.is_control_message());
    let inc = ReplicationMessage::IncrementalSync { entries: vec![vec![1, 2, 3]] };
    assert_eq!(inc.message_type(), "IncrementalSync");
    assert!(!inc.is_control_message());
    let err = ReplicationMessage::error(ErrorCode::Timeout, "slow".to_string());
    assert_eq!(err.message_type(), "Error");
    assert!(err.is_control_message());
    let bye = ReplicationMessage::MasterShutdown { reason: "maintenance".to_string() };
    assert_eq!(bye.message_type(), "MasterShutdown");
    assert!(bye.is_control_message());
}

#[test]
fn test_node_role() {
    let master = NodeRole::Master;
    assert_eq!(master, NodeRole::Master);

    let slave = NodeRole::Slave {
        master_addr: "127.0.0.1:50051".parse().unwrap(),
    };
    assert!(matches!(slave, NodeRole::Slave { .. }));
}

#[test]
fn role_permissions() {
    let master = NodeRole::Master;
    let slave = NodeRole::Slave { master_addr: "10.0.0.1:50051".to_string() };
    assert!(master.can_read() && master.can_write());
    assert!(slave.can_read() && !slave.can_write());
    assert_eq!(master.check_write(), Ok(()));
    assert_eq!(slave.check_write(), Err(ReplicationError::NotMaster));
    assert_eq!(master.check_reconnect(), Err(ReplicationError::NotSlave));
    assert_eq!(slave.check_reconnect(), Ok(()));
}

#[test]
fn cluster_health_by_role() {
    let h = ClusterHealth::for_node(NodeRole::Master, 3, 2, false, 77);
    assert!(h.is_healthy && h.can_write && h.can_read);
    assert_eq!((h.total_slaves, h.healthy_slaves, h.replication_lag_ms), (3, 2, 0));
    let s = ClusterHealth::for_node(NodeRole::Slave { master_addr: "m:1".to_string() }, 3, 2, false, 77);
    assert!(!s.is_healthy && !s.can_write && s.can_read);
    assert_eq!((s.total_slaves, s.healthy_slaves, s.replication_lag_ms), (0, 0, 77));
}

#[test]
fn slave_admission() {
    assert_eq!(admit_slave(9, 10), Ok(()));
    assert_eq!(admit_slave(10, 10), Err(ReplicationError::SlaveLimit(10)));
}

#[test]
fn test_needs_full_sync() {
    // Slave too far behind - needs full sync
    assert!(needs_full_sync(20000, 5000, 0));
    // Slave close enough - incremental sync
    assert!(!needs_full_sync(20000, 19000, 0));
    // Exactly at the limit of the gap
    assert!(!needs_full_sync(20000, 10000, 0));
    // The log no longer reaches back to the slave
    assert!(needs_full_sync(20000, 19000, 19500));
}

#[test]
fn test_compress_decompress() {
    let original_data = b"Hello, World! This is test data for compression.".to_vec();

    let compressed = zstd::bulk::compress(&original_data, 3).unwrap();
    let decompressed = decompress_snapshot_data(compressed).unwrap();

    assert_eq!(original_data, decompressed);
}

#[test]
fn snapshot_compression_round_trip() {
    let data = vec![7u8; 4096];
    let compressed = compress_snapshot_data(&data).unwrap();
    assert!(compressed.len() < data.len());
    assert_eq!(decompress_snapshot_data(compressed).unwrap(), data);
    assert!(matches!(
        decompress_snapshot_data(vec![1, 2, 3, 4]),
        Err(ReplicationError::DeserializationError(_))
    ));
}

#[test]
fn message_frames() {
    assert_eq!(frame_message(b"abc"), vec![3, 0, 0, 0, b'a', b'b', b'c']);
    assert_eq!(message_length(&[3, 0, 0, 0]), Ok(3));
    let limit = (MAX_MESSAGE_BYTES as u32).to_le_bytes();
    assert_eq!(message_length(&limit), Ok(MAX_MESSAGE_BYTES));
    let over = (MAX_MESSAGE_BYTES as u32 + 1).to_le_bytes();
    assert_eq!(
        message_length(&over),
        Err(ReplicationError::IoError("Message too large: 104857601 bytes".to_string()))
    );
}

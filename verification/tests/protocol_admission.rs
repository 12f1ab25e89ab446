use veddb_core::protocol::admission::{admit_command, check_payload_size, Admission, ConnectionError, MAX_PAYLOAD_BYTES};
use veddb_core::protocol::{CmdHeader, Command, OpCode, Status};

#[test]
fn payload_size_limit() {
    let h = CmdHeader::new(OpCode::SetKey, 1).with_key_val(10, 20);
    assert_eq!(check_payload_size(&h), Ok(30));
    let h = CmdHeader::new(OpCode::SetKey, 1).with_key_val(0, MAX_PAYLOAD_BYTES as u32);
    assert_eq!(check_payload_size(&h), Ok(MAX_PAYLOAD_BYTES));
    let h = CmdHeader::new(OpCode::SetKey, 1).with_key_val(1, MAX_PAYLOAD_BYTES as u32);
    assert_eq!(check_payload_size(&h), Err(ConnectionError::PayloadTooLarge));
}

#[test]
fn authentication_check() {
    let ping = Command::ping(5);
    match admit_command(&ping, false).unwrap() {
        Admission::Respond(r) => {
            assert_eq!(r.header.status().unwrap(), Status::AuthRequired);
            assert_eq!(r.header.seq, 5);
            assert!(r.payload.is_empty());
        }
        Admission::Dispatch(_) => panic!("expected a refusal"),
    }
    assert!(matches!(admit_command(&ping, true).unwrap(), Admission::Dispatch(OpCode::Ping)));
    let auth = Command::auth(6, b"{}".to_vec());
    assert!(matches!(admit_command(&auth, false).unwrap(), Admission::Dispatch(OpCode::Auth)));
    let mut bad = Command::ping(7);
    bad.header.op = 0xEE;
    assert_eq!(
        admit_command(&bad, true).unwrap_err(),
        ConnectionError::ProtocolError("Invalid opcode".to_string())
    );
}

#[test]
fn lengths_summing_past_u32_are_handled() {
    let h = CmdHeader::new(OpCode::SetKey, 1).with_key_val(u32::MAX, u32::MAX);
    assert_eq!(check_payload_size(&h), Err(ConnectionError::PayloadTooLarge));
    assert_eq!(h.total_payload_len(), 2 * (u32::MAX as usize));
    let mut bytes = h.to_bytes();
    bytes.extend_from_slice(b"abc");
    match Command::from_bytes(&bytes) {
        Err(e) => assert_eq!(e, "Buffer too small for payload"),
        Ok(_) => panic!("expected a refusal"),
    }
}

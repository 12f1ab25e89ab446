use veddb_core::protocol::compatibility::{CompatibilityHandler, LegacyRequest, ResponseStep, get_reply, fetch_pairs, LEGACY_KV_COLLECTION};
use veddb_core::protocol::flags;
use veddb_core::protocol::requests::{HashOpRequest, HashOperation, ListOpRequest, ListOperation, OperationResponse};
use veddb_core::protocol::{Command, OpCode, Response, Status, PROTOCOL_V1, PROTOCOL_V2};
use veddb_core::document::Value;

#[test]
fn test_command_serialization() {
    let cmd = Command::set(42, b"key".to_vec(), b"value".to_vec());
    let bytes = cmd.to_bytes();
    let decoded = Command::from_bytes(&bytes).unwrap();

    let seq = decoded.header.seq;
    assert_eq!(seq, 42);
    assert_eq!(decoded.header.opcode().unwrap(), OpCode::SetKey);
    assert_eq!(decoded.key, b"key".to_vec());
    assert_eq!(decoded.value, b"value".to_vec());
    assert_eq!(decoded.header.version, PROTOCOL_V2);
}

#[test]
fn test_v2_auth_command() {
    let mut creds = serde_json::Map::new();
    creds.insert("username".to_string(), serde_json::Value::String("admin".to_string()));
    creds.insert("password".to_string(), serde_json::Value::String("password".to_string()));
    let mut wrapped = serde_json::Map::new();
    wrapped.insert("UsernamePassword".to_string(), serde_json::Value::Object(creds));
    let mut req = serde_json::Map::new();
    req.insert("method".to_string(), serde_json::Value::String("UsernamePassword".to_string()));
    req.insert("credentials".to_string(), serde_json::Value::Object(wrapped));
    let payload = serde_json::to_vec(&serde_json::Value::Object(req)).unwrap();

    let cmd = Command::auth(1, payload);
    assert_eq!(cmd.header.opcode().unwrap(), OpCode::Auth);
    assert_eq!(cmd.header.version, PROTOCOL_V2);

    let bytes = cmd.to_bytes();
    let decoded = Command::from_bytes(&bytes).unwrap();
    let seq = decoded.header.seq;
    assert_eq!(seq, 1);
    assert_eq!(decoded.header.opcode().unwrap(), OpCode::Auth);
}

#[test]
fn test_v2_query_command() {
    let mut req = serde_json::Map::new();
    req.insert("collection".to_string(), serde_json::Value::String("users".to_string()));
    let mut filter = serde_json::Map::new();
    filter.insert("Object".to_string(), serde_json::Value::Object(serde_json::Map::new()));
    req.insert("filter".to_string(), serde_json::Value::Object(filter));
    req.insert("projection".to_string(), serde_json::Value::Null);
    req.insert("sort".to_string(), serde_json::Value::Null);
    req.insert("skip".to_string(), serde_json::Value::Null);
    req.insert("limit".to_string(), serde_json::Value::from(10u64));
    let payload = serde_json::to_vec(&serde_json::Value::Object(req)).unwrap();

    let cmd = Command::query(2, payload);
    assert_eq!(cmd.header.opcode().unwrap(), OpCode::Query);
    assert_eq!(cmd.header.version, PROTOCOL_V2);
}

#[test]
fn test_response_serialization() {
    let resp = Response::ok(42, b"result".to_vec());
    let bytes = resp.to_bytes();
    let decoded = Response::from_bytes(&bytes).unwrap();

    let seq2 = decoded.header.seq;
    assert_eq!(seq2, 42);
    assert_eq!(decoded.header.status().unwrap(), Status::Success);
    assert_eq!(decoded.payload, b"result");
}

#[test]
fn test_cas_command() {
    let cmd = Command::cas(1, b"key".to_vec(), b"new_val".to_vec(), 123);
    assert!(cmd.header.has_flag(flags::CAS_VERSION));
    // The expected version travels in the payload, ahead of the value.
    assert_eq!(&cmd.value[..8], &123u64.to_le_bytes());
    assert_eq!(&cmd.value[8..], b"new_val");
    let val_len = cmd.header.val_len;
    assert_eq!(val_len, 15);
}

#[test]
fn truncated_command_is_refused() {
    let bytes = Command::set(7, b"k".to_vec(), b"v".to_vec()).to_bytes();
    assert_eq!(Command::from_bytes(&bytes[..10]).err(), Some("Buffer too small for header"));
    assert_eq!(Command::from_bytes(&bytes[..bytes.len() - 1]).err(), Some("Buffer too small for payload"));
}

#[test]
fn command_header_layout() {
    let bytes = Command::get(0x01020304, b"ab".to_vec()).to_bytes();
    assert_eq!(bytes.len(), 26);
    assert_eq!(&bytes[0..4], &[0x03, 0, PROTOCOL_V2, 0]);
    assert_eq!(&bytes[4..8], &[4, 3, 2, 1]);
    assert_eq!(&bytes[8..12], &[2, 0, 0, 0]);
    assert_eq!(&bytes[24..26], b"ab");
}

#[test]
fn opcode_codes_round_trip() {
    for code in 0u8..=255 {
        if let Ok(op) = OpCode::try_from(code) {
            assert_eq!(op.to_u8(), code);
        }
    }
    assert!(OpCode::try_from(0x0B).is_err());
    assert_eq!(OpCode::try_from(0x3A), Ok(OpCode::HLen));
}

#[test]
fn data_structure_commands_pick_their_codes() {
    let list = ListOpRequest { key: "l".to_string(), operation: ListOperation::Pop { left: false } };
    assert_eq!(Command::list_op(1, &list, Vec::new()).header.opcode().unwrap(), OpCode::RPop);
    let hash = HashOpRequest { key: "h".to_string(), operation: HashOperation::GetAll };
    assert_eq!(Command::hash_op(1, &hash, b"{}".to_vec()).header.opcode().unwrap(), OpCode::HGetAll);
}

#[test]
fn test_translate_set_command() {
    let handler = CompatibilityHandler::new(false);
    let mut cmd = Command::new(OpCode::SetKey, 1, b"test_key".to_vec(), b"test_value".to_vec());
    cmd.header.version = PROTOCOL_V1;

    let translated = handler.translate_command(cmd).unwrap();
    assert_eq!(translated.command.header.version, PROTOCOL_V2);
    assert_eq!(translated.command.header.opcode().unwrap(), OpCode::InsertDoc);
    assert_eq!(LEGACY_KV_COLLECTION, "_legacy_kv");
    match translated.request {
        Some(LegacyRequest::InsertKv { key, value }) => {
            assert_eq!(key, "test_key");
            assert_eq!(value, b"test_value".to_vec());
        }
        _ => panic!("Expected an insertion"),
    }
}

#[test]
fn test_translate_get_command() {
    let handler = CompatibilityHandler::new(false);
    let mut cmd = Command::new(OpCode::Get, 2, b"test_key".to_vec(), Vec::new());
    cmd.header.version = PROTOCOL_V1;

    let translated = handler.translate_command(cmd).unwrap();
    assert_eq!(translated.command.header.version, PROTOCOL_V2);
    assert_eq!(translated.command.header.opcode().unwrap(), OpCode::Query);
    match translated.request {
        Some(LegacyRequest::QueryKey { key }) => assert_eq!(key, "test_key"),
        _ => panic!("Expected a query by key"),
    }
}

#[test]
fn test_translate_cas_command() {
    let handler = CompatibilityHandler::new(false);
    let mut cmd = Command::cas(3, b"test_key".to_vec(), b"new_value".to_vec(), 42);
    cmd.header.version = PROTOCOL_V1;

    let translated = handler.translate_command(cmd).unwrap();
    assert_eq!(translated.command.header.version, PROTOCOL_V2);
    assert_eq!(translated.command.header.opcode().unwrap(), OpCode::UpdateDoc);
    match translated.request {
        Some(LegacyRequest::UpdateKv { key, expected_version, value }) => {
            assert_eq!(key, "test_key");
            assert_eq!(expected_version, 42);
            let mut carried = 42u64.to_le_bytes().to_vec();
            carried.extend_from_slice(b"new_value");
            assert_eq!(value, carried);
        }
        _ => panic!("Expected an update"),
    }
}

#[test]
fn test_no_translation_for_v2_commands() {
    let handler = CompatibilityHandler::new(false);
    let cmd = Command::new(OpCode::SetKey, 1, b"key".to_vec(), b"value".to_vec());
    let cmd_seq = cmd.header.seq;
    let cmd_key = cmd.key.clone();
    let cmd_value = cmd.value.clone();

    let translated = handler.translate_command(cmd).unwrap();
    assert_eq!(translated.command.header.version, PROTOCOL_V2);
    let translated_seq = translated.command.header.seq;
    assert_eq!(translated_seq, cmd_seq);
    assert_eq!(translated.command.key, cmd_key);
    assert_eq!(translated.command.value, cmd_value);
    assert!(translated.request.is_none());
}

#[test]
fn translation_errors() {
    let handler = CompatibilityHandler::new(true);
    let mut bad_key = Command::new(OpCode::Del, 1, vec![0xff, 0xfe], Vec::new());
    bad_key.header.version = PROTOCOL_V1;
    assert!(handler.warns_for(&bad_key));
    assert_eq!(handler.translate_command(bad_key).err(), Some("Invalid UTF-8 in key".to_string()));

    let mut v2_op = Command::new(OpCode::Auth, 1, Vec::new(), Vec::new());
    v2_op.header.version = PROTOCOL_V1;
    assert_eq!(handler.translate_command(v2_op).err(), Some("Unsupported v0.1.x command: Ok(Auth)".to_string()));

    let mut unknown = Command::new(OpCode::Ping, 1, Vec::new(), Vec::new());
    unknown.header.version = PROTOCOL_V1;
    unknown.header.op = 0x7f;
    assert_eq!(handler.translate_command(unknown).err(), Some("Invalid opcode".to_string()));
}

#[test]
fn fetch_and_ping_translation() {
    let handler = CompatibilityHandler::new(false);
    let mut ping = Command::ping(5);
    ping.header.version = PROTOCOL_V1;
    let t = handler.translate_command(ping).unwrap();
    assert_eq!(t.command.header.version, PROTOCOL_V2);
    assert_eq!(t.command.header.opcode().unwrap(), OpCode::Ping);
    assert!(t.request.is_none());

    let mut fetch = Command::new(OpCode::Fetch, 6, Vec::new(), Vec::new());
    fetch.header.version = PROTOCOL_V1;
    let t = handler.translate_command(fetch).unwrap();
    assert_eq!(t.command.header.opcode().unwrap(), OpCode::Query);
    assert!(matches!(t.request, Some(LegacyRequest::QueryAll)));
    let done = t.finish(b"{}".to_vec());
    assert_eq!(done.header.val_len, 2);
    assert_eq!(done.value, b"{}".to_vec());
}

#[test]
fn get_reply_extracts_value() {
    let doc = Value::Object(vec![("value".to_string(), Value::Binary(b"v1".to_vec()))]);
    let answer = OperationResponse::success(Some(Value::Array(vec![doc])));
    let r = get_reply(9, &answer);
    assert_eq!(r.header.status().unwrap(), Status::Success);
    assert_eq!(r.payload, b"v1".to_vec());

    let empty = OperationResponse::success(Some(Value::Array(Vec::new())));
    assert_eq!(get_reply(9, &empty).header.status().unwrap(), Status::NotFound);
    let failed = OperationResponse::error("boom".to_string());
    assert_eq!(get_reply(9, &failed).header.status().unwrap(), Status::Error);
}

#[test]
fn fetch_pairs_collects_key_values() {
    let d1 = Value::Object(vec![
        ("key".to_string(), Value::String("a".to_string())),
        ("value".to_string(), Value::Binary(vec![1])),
    ]);
    let d2 = Value::Object(vec![("key".to_string(), Value::String("b".to_string()))]);
    let answer = OperationResponse::success(Some(Value::Array(vec![d1, d2])));
    let pairs = fetch_pairs(&answer).unwrap();
    assert_eq!(pairs, vec![("a".to_string(), vec![1u8])]);
    assert!(fetch_pairs(&OperationResponse::error("x".to_string())).is_none());
}

#[test]
fn response_translation_steps() {
    let handler = CompatibilityHandler::new(false);
    match handler.translate_response(Response::ok(1, Vec::new()), OpCode::Get).unwrap() {
        ResponseStep::DecodeGet(_) => {}
        _ => panic!("expected a GET decode"),
    }
    match handler.translate_response(Response::not_found(1), OpCode::Fetch).unwrap() {
        ResponseStep::Ready(r) => assert_eq!(r.header.status().unwrap(), Status::NotFound),
        _ => panic!("expected the response to stand"),
    }
    let mut bad = Response::ok(1, Vec::new());
    bad.header.status = 0x55;
    assert_eq!(handler.translate_response(bad, OpCode::Get).err(), Some("Invalid status".to_string()));
}

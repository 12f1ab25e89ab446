use veddb_core::document::{Document, DocumentId, Value};
use veddb_core::protocol::handler::{
    error_reply, legacy_document_id, load_outcome, plan_request, remove_outcome, store_outcome,
    KvStep, LoadReply, ProtocolRequest, ProtocolResponse, ProtocolStatus, KV_HANDLER_COLLECTION,
};
use veddb_core::protocol::OpCode;

fn request(opcode: OpCode, key: &[u8], value: &[u8]) -> ProtocolRequest {
    ProtocolRequest { opcode, flags: 0, seq: 1, key: key.to_vec(), value: value.to_vec() }
}

fn oid_v5(name: &[u8]) -> u128 {
    uuid::Uuid::new_v5(&uuid::Uuid::NAMESPACE_OID, name).as_u128()
}

fn check(resp: &ProtocolResponse, status: ProtocolStatus, payload: &[u8]) {
    assert_eq!(resp.status, status);
    assert_eq!(resp.flags, 0);
    assert_eq!(resp.payload, payload.to_vec());
}

#[test]
fn opcode_from_u8_defaults_to_ping() {
    assert_eq!(OpCode::from_u8(0x03), OpCode::Get);
    assert_eq!(OpCode::from_u8(0x3A), OpCode::HLen);
    assert_eq!(OpCode::from_u8(0xEE), OpCode::Ping);
}

#[test]
fn status_codes() {
    assert_eq!(ProtocolStatus::Success.to_u8(), 0);
    assert_eq!(ProtocolStatus::Error.to_u8(), 1);
    assert_eq!(ProtocolStatus::NotFound.to_u8(), 2);
}

#[test]
fn document_id_is_uuid_v5_of_key() {
    assert_eq!(legacy_document_id(b"user:1"), DocumentId::from_u128(oid_v5(b"user:1")));
    // invalid UTF-8 is read with replacement characters first
    assert_eq!(
        legacy_document_id(&[0x66, 0xff]),
        DocumentId::from_u128(oid_v5("f\u{FFFD}".as_bytes()))
    );
}

#[test]
fn ping_and_unsupported() {
    match plan_request(&request(OpCode::Ping, b"", b"")) {
        KvStep::Respond(r) => check(&r, ProtocolStatus::Success, b"pong"),
        _ => panic!("expected a response"),
    }
    match plan_request(&request(OpCode::Publish, b"k", b"v")) {
        KvStep::Respond(r) => check(&r, ProtocolStatus::Error, b"unsupported operation"),
        _ => panic!("expected a response"),
    }
}

#[test]
fn set_get_del_route_to_the_key_document() {
    match plan_request(&request(OpCode::SetKey, b"k1", b"hello")) {
        KvStep::Store { collection, document } => {
            assert_eq!(collection, KV_HANDLER_COLLECTION);
            assert_eq!(document.id.value, oid_v5(b"k1"));
            let id_text = uuid::Uuid::from_u128(oid_v5(b"k1")).hyphenated().to_string();
            assert_eq!(id_text.len(), 36);
            assert!(matches!(document.get("_key"), Some(Value::String(k)) if k == "k1"));
            assert!(matches!(document.get("value"), Some(Value::String(v)) if v == "hello"));
            assert!(matches!(document.get("_id"), Some(Value::String(t)) if *t == id_text));
            assert_eq!(document.fields.len(), 3);
        }
        _ => panic!("expected a store"),
    }
    match plan_request(&request(OpCode::Get, b"k1", b"")) {
        KvStep::Load { collection, id } => {
            assert_eq!(collection, "default");
            assert_eq!(id.value, oid_v5(b"k1"));
        }
        _ => panic!("expected a load"),
    }
    match plan_request(&request(OpCode::Del, b"k1", b"")) {
        KvStep::Remove { id, .. } => assert_eq!(id.value, oid_v5(b"k1")),
        _ => panic!("expected a removal"),
    }
}

#[test]
fn store_and_remove_outcomes() {
    check(&store_outcome(Ok(())), ProtocolStatus::Success, b"");
    check(&store_outcome(Err("disk full".to_string())), ProtocolStatus::Error, b"error: disk full");
    check(&remove_outcome(Ok(true)), ProtocolStatus::Success, b"");
    check(&remove_outcome(Ok(false)), ProtocolStatus::NotFound, b"");
    check(&remove_outcome(Err("x".to_string())), ProtocolStatus::Error, b"error: x");
    check(&error_reply("boom"), ProtocolStatus::Error, b"error: boom");
}

#[test]
fn load_outcomes() {
    let mut doc = Document::with_id(DocumentId::from_u128(1));
    doc.insert("value".to_string(), Value::String("hello".to_string()));
    match load_outcome(&Ok(Some(doc))) {
        LoadReply::Ready(r) => check(&r, ProtocolStatus::Success, b"hello"),
        _ => panic!("expected a response"),
    }
    let mut doc = Document::with_id(DocumentId::from_u128(2));
    doc.insert("value".to_string(), Value::Int64(42));
    match load_outcome(&Ok(Some(doc))) {
        LoadReply::EncodeValue(Value::Int64(42)) => {}
        _ => panic!("expected the value back"),
    }
    let doc = Document::with_id(DocumentId::from_u128(3));
    match load_outcome(&Ok(Some(doc))) {
        LoadReply::Ready(r) => check(&r, ProtocolStatus::NotFound, b""),
        _ => panic!("expected a response"),
    }
    match load_outcome(&Ok(None)) {
        LoadReply::Ready(r) => check(&r, ProtocolStatus::NotFound, b""),
        _ => panic!("expected a response"),
    }
    match load_outcome(&Err("gone".to_string())) {
        LoadReply::Ready(r) => check(&r, ProtocolStatus::Error, b"error: gone"),
        _ => panic!("expected a response"),
    }
}

//! The first-version key-value handler: what each request asks of the
//! document store, and the response to each outcome of the store.
//!
//! A key is read as UTF-8 text (invalid sequences replaced) and names the
//! document whose identifier is the version-5 UUID of that text in the OID
//! namespace, in the collection [`KV_HANDLER_COLLECTION`]; the document
//! holds the key under `_key`, the value, as text, under `value`, and the
//! identifier's text under `_id`.
use vstd::prelude::*;
use vstd::slice::slice_to_vec;
use vstd::utf8::{valid_utf8, decode_utf8, encode_utf8};
use vstd::string::StringExecFns;
use crate::document::{Document, DocumentId, Value, model_of, same_value};
use crate::sorted_map::get_field;
use crate::util::concat_str;
use super::OpCode;

verus! {

/// The collection of the handler's key-value documents.
pub const KV_HANDLER_COLLECTION: &'static str = "default";

/// Status of a handler response; on the wire 0, 1 and 2.
#[derive(Debug, Clone, Copy, PartialEq, Eq, Structural)]
pub enum ProtocolStatus {
    Success,
    Error,
    NotFound,
}

impl ProtocolStatus {
    pub open spec fn code(self) -> u8 {
        match self {
            ProtocolStatus::Success => 0,
            ProtocolStatus::Error => 1,
            ProtocolStatus::NotFound => 2,
        }
    }

    /// The wire byte of this status.
    pub fn to_u8(self) -> (r: u8)
        ensures
            r == self.code(),
    {
        match self {
            ProtocolStatus::Success => 0,
            ProtocolStatus::Error => 1,
            ProtocolStatus::NotFound => 2,
        }
    }
}

/// A request to the handler.
pub struct ProtocolRequest {
    pub opcode: OpCode,
    pub flags: u8,
    pub seq: u32,
    pub key: Vec<u8>,
    pub value: Vec<u8>,
}

/// A response of the handler.
pub struct ProtocolResponse {
    pub status: ProtocolStatus,
    pub flags: u8,
    pub payload: Vec<u8>,
}

/// What `String::from_utf8_lossy` gives for bytes that are not valid UTF-8
/// (each invalid sequence replaced by U+FFFD).
pub uninterp spec fn lossy_text(bytes: Seq<u8>) -> Seq<char>;

/// Bytes read as UTF-8 text, invalid sequences replaced.
pub open spec fn lossy_utf8(bytes: Seq<u8>) -> Seq<char> {
    if valid_utf8(bytes) { decode_utf8(bytes) } else { lossy_text(bytes) }
}

/// Reads bytes as text with `String::from_utf8_lossy`, which gives the text
/// of valid UTF-8 unchanged; the result for other bytes is named.
#[verifier::external_body]
fn utf8_lossy(bytes: &[u8]) -> (r: String)
    ensures
        r@ == if valid_utf8(bytes@) { decode_utf8(bytes@) } else { lossy_text(bytes@) },
{
    String::from_utf8_lossy(bytes).into_owned()
}

/// The version-5 UUID (SHA-1 based) of `name` in the OID namespace, as
/// `uuid::Uuid::new_v5` computes it, taken as a 128-bit number.
pub uninterp spec fn oid_v5(name: Seq<u8>) -> u128;

/// Computes a version-5 UUID in the OID namespace with
/// `uuid::Uuid::new_v5`; the result is named: it depends on the name alone.
#[verifier::external_body]
fn uuid_v5_oid(name: &[u8]) -> (r: u128)
    ensures
        r == oid_v5(name@),
{
    uuid::Uuid::new_v5(&uuid::Uuid::NAMESPACE_OID, name).as_u128()
}

/// The lowercase hexadecimal digit of `d` (below 16).
pub open spec fn hex_digit(d: u128) -> char {
    if d < 10 { (48 + d) as char } else { (87 + d) as char }
}

/// Hexadecimal digit `k` (0 the most significant) of a 128-bit number.
pub open spec fn nibble(v: u128, k: int) -> u128 {
    (v >> ((124 - 4 * k) as u128)) & 15
}

/// The hyphenated text of the UUID whose bits are `v`: 32 lowercase
/// hexadecimal digits, most significant first, in groups of 8, 4, 4, 4 and
/// 12 joined by `-`.
pub open spec fn uuid_text(v: u128) -> Seq<char> {
    Seq::new(36, |i: int|
        if i == 8 || i == 13 || i == 18 || i == 23 {
            '-'
        } else {
            hex_digit(nibble(v, i - (if i < 8 { 0int } else if i < 13 { 1 } else if i < 18 { 2 } else if i < 23 { 3 } else { 4 })))
        })
}

/// The text of the UUID with bits `v`, by `uuid::Uuid::from_u128` and
/// `to_string`, which writes the hyphenated lowercase form.
#[verifier::external_body]
fn uuid_string(v: u128) -> (r: String)
    ensures
        r@ == uuid_text(v),
{
    uuid::Uuid::from_u128(v).to_string()
}

/// The identifier of the document that holds `key`.
pub open spec fn key_document_id(key: Seq<u8>) -> DocumentId {
    DocumentId { value: oid_v5(encode_utf8(lossy_utf8(key))) }
}

/// The identifier of the document that holds `key`.
pub fn legacy_document_id(key: &[u8]) -> (r: DocumentId)
    ensures
        r == key_document_id(key@),
{
    let text = utf8_lossy(key);
    let id = uuid_v5_oid(text.as_str().as_bytes());
    DocumentId::from_u128(id)
}

/// What the handler does with a request.
pub enum KvStep {
    /// Answer at once.
    Respond(ProtocolResponse),
    /// Store `document`, then answer with [`store_outcome`].
    Store { collection: String, document: Document },
    /// Load the document `id`, then answer with [`load_outcome`].
    Load { collection: String, id: DocumentId },
    /// Delete the document `id`, then answer with [`remove_outcome`].
    Remove { collection: String, id: DocumentId },
}

/// The document that holds `key` and `value`: its identifier is that of
/// the key, and it has exactly the fields `_id` (the identifier's text),
/// `_key` (the key as text) and `value` (the value as text).
pub open spec fn kv_document(d: Document, key: Seq<u8>, value: Seq<u8>) -> bool {
    &&& d.wf()
    &&& d.id == key_document_id(key)
    &&& get_field(d.fields@, "_id"@) matches Some(Value::String(t)) && t@ == uuid_text(d.id.value)
    &&& get_field(d.fields@, "_key"@) matches Some(Value::String(t)) && t@ == lossy_utf8(key)
    &&& get_field(d.fields@, "value"@) matches Some(Value::String(t)) && t@ == lossy_utf8(value)
    &&& forall|k: Seq<char>| k != "_id"@ && k != "_key"@ && k != "value"@ ==> get_field(d.fields@, k) is None
}

/// A response with no flags.
pub open spec fn answered(r: ProtocolResponse, status: ProtocolStatus, payload: Seq<u8>) -> bool {
    r.status == status && r.flags == 0 && r.payload@ == payload
}

fn respond(status: ProtocolStatus, text: &str) -> (r: ProtocolResponse)
    ensures
        answered(r, status, encode_utf8(text@)),
{
    ProtocolResponse { status, flags: 0, payload: slice_to_vec(text.as_bytes()) }
}

fn empty_response(status: ProtocolStatus) -> (r: ProtocolResponse)
    ensures
        answered(r, status, Seq::<u8>::empty()),
{
    ProtocolResponse { status, flags: 0, payload: Vec::new() }
}

/// The error response for a failure described by `message`: the text
/// `error: ` and the message.
pub fn error_reply(message: &str) -> (r: ProtocolResponse)
    ensures
        answered(r, ProtocolStatus::Error, encode_utf8("error: "@ + message@)),
{
    let text = concat_str("error: ", message);
    respond(ProtocolStatus::Error, text.as_str())
}

/// What the handler does with `request`: `PING` is answered `pong`; `SET`,
/// `GET` and `DEL` go to the document that holds the key; any other
/// operation is refused.
pub fn plan_request(request: &ProtocolRequest) -> (r: KvStep)
    ensures
        request.opcode == OpCode::Ping ==> (r matches KvStep::Respond(resp)
            && answered(resp, ProtocolStatus::Success, encode_utf8("pong"@))),
        request.opcode == OpCode::SetKey ==> (r matches KvStep::Store { collection, document }
            && collection@ == KV_HANDLER_COLLECTION@ && kv_document(document, request.key@, request.value@)),
        request.opcode == OpCode::Get ==> (r matches KvStep::Load { collection, id }
            && collection@ == KV_HANDLER_COLLECTION@ && id == key_document_id(request.key@)),
        request.opcode == OpCode::Del ==> (r matches KvStep::Remove { collection, id }
            && collection@ == KV_HANDLER_COLLECTION@ && id == key_document_id(request.key@)),
        !(request.opcode == OpCode::Ping || request.opcode == OpCode::SetKey || request.opcode == OpCode::Get
            || request.opcode == OpCode::Del) ==> (r matches KvStep::Respond(resp)
            && answered(resp, ProtocolStatus::Error, encode_utf8("unsupported operation"@))),
{
    match request.opcode {
        OpCode::Ping => KvStep::Respond(respond(ProtocolStatus::Success, "pong")),
        OpCode::SetKey => {
            let key = utf8_lossy(request.key.as_slice());
            let value = utf8_lossy(request.value.as_slice());
            let id = legacy_document_id(request.key.as_slice());
            let id_text = uuid_string(id.value);
            let mut document = Document::with_id(id);
            proof {
                reveal_strlit("_key");
                reveal_strlit("value");
                reveal_strlit("_id");
            }
            document.insert(String::from_str("_key"), Value::String(key));
            document.insert(String::from_str("value"), Value::String(value));
            document.insert(String::from_str("_id"), Value::String(id_text));
            proof {
                assert forall|k: Seq<char>| k != "_id"@ && k != "_key"@ && k != "value"@
                    implies get_field(document.fields@, k) is None by {
                    assert(get_field(Seq::<(String, Value)>::empty(), k) is None);
                }
            }
            KvStep::Store { collection: String::from_str(KV_HANDLER_COLLECTION), document }
        },
        OpCode::Get => {
            let id = legacy_document_id(request.key.as_slice());
            KvStep::Load { collection: String::from_str(KV_HANDLER_COLLECTION), id }
        },
        OpCode::Del => {
            let id = legacy_document_id(request.key.as_slice());
            KvStep::Remove { collection: String::from_str(KV_HANDLER_COLLECTION), id }
        },
        _ => KvStep::Respond(respond(ProtocolStatus::Error, "unsupported operation")),
    }
}

/// The answer to a store: success with no payload, or the error.
pub fn store_outcome(result: Result<(), String>) -> (r: ProtocolResponse)
    ensures
        match result {
            Ok(_) => answered(r, ProtocolStatus::Success, Seq::<u8>::empty()),
            Err(e) => answered(r, ProtocolStatus::Error, encode_utf8("error: "@ + e@)),
        },
{
    match result {
        Ok(_) => empty_response(ProtocolStatus::Success),
        Err(e) => error_reply(e.as_str()),
    }
}

/// The answer to a load, or the value the caller must encode as JSON and
/// send with `Success`.
pub enum LoadReply {
    Ready(ProtocolResponse),
    EncodeValue(Value),
}

/// The answer to a load: the text of a `value` field that holds text; a
/// `value` field of another kind goes back to be encoded; no document, or
/// one without `value`, is `NotFound`; a failure is the error.
pub fn load_outcome(result: &Result<Option<Document>, String>) -> (r: LoadReply)
    ensures
        match *result {
            Err(e) => r matches LoadReply::Ready(resp)
                && answered(resp, ProtocolStatus::Error, encode_utf8("error: "@ + e@)),
            Ok(None) => r matches LoadReply::Ready(resp)
                && answered(resp, ProtocolStatus::NotFound, Seq::<u8>::empty()),
            Ok(Some(doc)) => match get_field(doc.fields@, "value"@) {
                None => r matches LoadReply::Ready(resp)
                    && answered(resp, ProtocolStatus::NotFound, Seq::<u8>::empty()),
                Some(Value::String(s)) => r matches LoadReply::Ready(resp)
                    && answered(resp, ProtocolStatus::Success, encode_utf8(s@)),
                Some(v) => r matches LoadReply::EncodeValue(w) && same_value(w, v),
            },
        },
{
    match result {
        Err(e) => LoadReply::Ready(error_reply(e.as_str())),
        Ok(None) => LoadReply::Ready(empty_response(ProtocolStatus::NotFound)),
        Ok(Some(doc)) => match doc.get("value") {
            None => LoadReply::Ready(empty_response(ProtocolStatus::NotFound)),
            Some(Value::String(s)) => LoadReply::Ready(respond(ProtocolStatus::Success, s.as_str())),
            Some(v) => LoadReply::EncodeValue(v.deep_clone()),
        },
    }
}

/// The answer to a deletion: success when a document went, `NotFound` when
/// there was none, or the error.
pub fn remove_outcome(result: Result<bool, String>) -> (r: ProtocolResponse)
    ensures
        match result {
            Ok(true) => answered(r, ProtocolStatus::Success, Seq::<u8>::empty()),
            Ok(false) => answered(r, ProtocolStatus::NotFound, Seq::<u8>::empty()),
            Err(e) => answered(r, ProtocolStatus::Error, encode_utf8("error: "@ + e@)),
        },
{
    match result {
        Ok(true) => empty_response(ProtocolStatus::Success),
        Ok(false) => empty_response(ProtocolStatus::NotFound),
        Err(e) => error_reply(e.as_str()),
    }
}

} // verus!

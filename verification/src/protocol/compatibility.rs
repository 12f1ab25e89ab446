//! Translation of first-version commands into second-version ones.
//!
//! First-version key-value commands become document operations on the
//! [`LEGACY_KV_COLLECTION`] collection: `SET` an insertion of a document
//! holding the key and the value, `GET` a query by key limited to one
//! document, `DEL` a deletion by key, `CAS` an update of the document with
//! the key and expected version, and `FETCH` a query of the whole collection
//! limited to [`FETCH_LIMIT`] documents. The request is produced here as a
//! value; its encoding is left to the caller, which completes the command
//! with [`Translation::finish`].
use vstd::prelude::*;
use vstd::bytes::{spec_u64_from_le_bytes, u64_from_le_bytes};
use vstd::slice::slice_subrange;
use vstd::utf8::{valid_utf8, decode_utf8 as decode_utf8_spec};
use crate::document::Value;
use crate::util::concat_str;
use super::{Command, CmdHeader, OpCode, Response, Status, PROTOCOL_V1, PROTOCOL_V2};
use super::requests::OperationResponse;

verus! {

/// The collection that holds first-version key-value pairs.
pub const LEGACY_KV_COLLECTION: &'static str = "_legacy_kv";
/// The most documents a translated `FETCH` returns.
pub const FETCH_LIMIT: u64 = 1000;

/// What decoding `bytes` as UTF-8 gives: the text, or `None` when the
/// bytes are not valid UTF-8.
pub open spec fn utf8_text(bytes: Seq<u8>) -> Option<Seq<char>> {
    if valid_utf8(bytes) { Some(decode_utf8_spec(bytes)) } else { None }
}

/// Decodes `bytes` as UTF-8 with `String::from_utf8`, which gives the text
/// of valid UTF-8 and an error otherwise.
#[verifier::external_body]
fn decode_utf8(bytes: Vec<u8>) -> (r: Option<String>)
    ensures
        match r {
            Some(s) => utf8_text(bytes@) == Some(s@),
            None => utf8_text(bytes@) is None,
        },
{
    match String::from_utf8(bytes) {
        Ok(s) => Some(s),
        Err(_) => None,
    }
}

/// The name the debugging form gives an operation code.
pub open spec fn opcode_name_spec(op: OpCode) -> &'static str {
    match op {
        OpCode::Ping => "Ping",
        OpCode::SetKey => "Set",
        OpCode::Get => "Get",
        OpCode::Del => "Del",
        OpCode::Cas => "Cas",
        OpCode::Subscribe => "Subscribe",
        OpCode::Unsubscribe => "Unsubscribe",
        OpCode::Publish => "Publish",
        OpCode::Fetch => "Fetch",
        OpCode::Info => "Info",
        OpCode::Auth => "Auth",
        OpCode::AuthResponse => "AuthResponse",
        OpCode::Query => "Query",
        OpCode::InsertDoc => "InsertDoc",
        OpCode::UpdateDoc => "UpdateDoc",
        OpCode::DeleteDoc => "DeleteDoc",
        OpCode::CreateCollection => "CreateCollection",
        OpCode::DropCollection => "DropCollection",
        OpCode::ListCollections => "ListCollections",
        OpCode::CreateIndex => "CreateIndex",
        OpCode::DropIndex => "DropIndex",
        OpCode::ListIndexes => "ListIndexes",
        OpCode::LPush => "LPush",
        OpCode::RPush => "RPush",
        OpCode::LPop => "LPop",
        OpCode::RPop => "RPop",
        OpCode::LRange => "LRange",
        OpCode::LLen => "LLen",
        OpCode::SAdd => "SAdd",
        OpCode::SRem => "SRem",
        OpCode::SMembers => "SMembers",
        OpCode::SIsMember => "SIsMember",
        OpCode::SCard => "SCard",
        OpCode::SUnion => "SUnion",
        OpCode::SInter => "SInter",
        OpCode::SDiff => "SDiff",
        OpCode::ZAdd => "ZAdd",
        OpCode::ZRem => "ZRem",
        OpCode::ZRange => "ZRange",
        OpCode::ZRangeByScore => "ZRangeByScore",
        OpCode::ZCard => "ZCard",
        OpCode::ZScore => "ZScore",
        OpCode::HSet => "HSet",
        OpCode::HGet => "HGet",
        OpCode::HDel => "HDel",
        OpCode::HGetAll => "HGetAll",
        OpCode::HKeys => "HKeys",
        OpCode::HVals => "HVals",
        OpCode::HLen => "HLen",
    }
}

/// The name the debugging form gives an operation code.
pub fn opcode_name(op: OpCode) -> (r: &'static str)
    ensures
        r == opcode_name_spec(op),
{
    match op {
            OpCode::Ping => "Ping",
            OpCode::SetKey => "Set",
            OpCode::Get => "Get",
            OpCode::Del => "Del",
            OpCode::Cas => "Cas",
            OpCode::Subscribe => "Subscribe",
            OpCode::Unsubscribe => "Unsubscribe",
            OpCode::Publish => "Publish",
            OpCode::Fetch => "Fetch",
            OpCode::Info => "Info",
            OpCode::Auth => "Auth",
            OpCode::AuthResponse => "AuthResponse",
            OpCode::Query => "Query",
            OpCode::InsertDoc => "InsertDoc",
            OpCode::UpdateDoc => "UpdateDoc",
            OpCode::DeleteDoc => "DeleteDoc",
            OpCode::CreateCollection => "CreateCollection",
            OpCode::DropCollection => "DropCollection",
            OpCode::ListCollections => "ListCollections",
            OpCode::CreateIndex => "CreateIndex",
            OpCode::DropIndex => "DropIndex",
            OpCode::ListIndexes => "ListIndexes",
            OpCode::LPush => "LPush",
            OpCode::RPush => "RPush",
            OpCode::LPop => "LPop",
            OpCode::RPop => "RPop",
            OpCode::LRange => "LRange",
            OpCode::LLen => "LLen",
            OpCode::SAdd => "SAdd",
            OpCode::SRem => "SRem",
            OpCode::SMembers => "SMembers",
            OpCode::SIsMember => "SIsMember",
            OpCode::SCard => "SCard",
            OpCode::SUnion => "SUnion",
            OpCode::SInter => "SInter",
            OpCode::SDiff => "SDiff",
            OpCode::ZAdd => "ZAdd",
            OpCode::ZRem => "ZRem",
            OpCode::ZRange => "ZRange",
            OpCode::ZRangeByScore => "ZRangeByScore",
            OpCode::ZCard => "ZCard",
            OpCode::ZScore => "ZScore",
            OpCode::HSet => "HSet",
            OpCode::HGet => "HGet",
            OpCode::HDel => "HDel",
            OpCode::HGetAll => "HGetAll",
            OpCode::HKeys => "HKeys",
            OpCode::HVals => "HVals",
            OpCode::HLen => "HLen",
    }
}

/// A document request that a first-version command turns into.
#[derive(Debug)]
pub enum LegacyRequest {
    /// Insert a document holding `key` and `value`.
    InsertKv { key: String, value: Vec<u8> },
    /// Query the document holding `key`, at most one.
    QueryKey { key: String },
    /// Delete the document holding `key`.
    DeleteKey { key: String },
    /// Set the value of the document holding `key` at `expected_version`
    /// and raise its version by one.
    UpdateKv { key: String, expected_version: u64, value: Vec<u8> },
    /// Query the whole collection, at most [`FETCH_LIMIT`] documents.
    QueryAll,
}

/// A translated command: complete when `request` is `None`; otherwise its
/// value is still to be set to the request's encoding.
#[derive(Debug)]
pub struct Translation {
    pub command: Command,
    pub request: Option<LegacyRequest>,
}

impl Translation {
    /// The command carrying `payload`, the encoding of the request.
    pub fn finish(self, payload: Vec<u8>) -> (r: Command)
        requires
            payload@.len() <= u32::MAX,
        ensures
            r.header == (CmdHeader { key_len: 0, val_len: payload@.len() as u32, ..self.command.header }),
            r.key@.len() == 0,
            r.value == payload,
    {
        let header = self.command.header.with_key_val(0, payload.len() as u32);
        Command { header, key: Vec::new(), value: payload }
    }
}

/// First-version commands that pass through with only their version raised.
pub open spec fn passes_through(op: OpCode) -> bool {
    op is Ping || op is Subscribe || op is Unsubscribe || op is Publish || op is Info
}

/// The second-version operation a first-version key-value command becomes.
pub open spec fn legacy_target(op: OpCode) -> Option<OpCode> {
    match op {
        OpCode::SetKey => Some(OpCode::InsertDoc),
        OpCode::Get => Some(OpCode::Query),
        OpCode::Del => Some(OpCode::DeleteDoc),
        OpCode::Cas => Some(OpCode::UpdateDoc),
        OpCode::Fetch => Some(OpCode::Query),
        _ => None,
    }
}

/// The expected version a `CAS` carries in the first eight bytes of its
/// value, little-endian; 0 when the value is shorter.
pub open spec fn cas_version(value: Seq<u8>) -> u64 {
    if value.len() >= 8 { spec_u64_from_le_bytes(value.take(8)) } else { 0 }
}

/// Whether `req` is the request a first-version `op` with key text `key`
/// and value `value` becomes.
pub open spec fn request_for(req: LegacyRequest, op: OpCode, key: Seq<char>, value: Seq<u8>) -> bool {
    match op {
        OpCode::SetKey => (req matches LegacyRequest::InsertKv { key: k, value: v } && k@ == key && v@ == value),
        OpCode::Get => (req matches LegacyRequest::QueryKey { key: k } && k@ == key),
        OpCode::Del => (req matches LegacyRequest::DeleteKey { key: k } && k@ == key),
        OpCode::Cas => (req matches LegacyRequest::UpdateKv { key: k, expected_version: ev, value: v }
            && k@ == key && ev == cas_version(value) && v@ == value),
        OpCode::Fetch => req is QueryAll,
        _ => false,
    }
}

/// Translation keeps the intent of a first-version key-value command: only
/// `GET` and `FETCH` become queries and their requests only read; `DEL`,
/// and only `DEL`, becomes a deletion of the document holding the same key;
/// `SET` and `CAS` become writes (an insertion, an update) of that key with
/// the command's value.
pub proof fn lemma_translation_keeps_intent(op: OpCode, t: OpCode, req: LegacyRequest, key: Seq<char>, value: Seq<u8>)
    requires
        legacy_target(op) == Some(t),
        request_for(req, op, key, value),
    ensures
        (t == OpCode::Query) <==> (op == OpCode::Get || op == OpCode::Fetch),
        (req is QueryKey || req is QueryAll) <==> (op == OpCode::Get || op == OpCode::Fetch),
        (t == OpCode::DeleteDoc) <==> (op == OpCode::Del),
        (req is DeleteKey) <==> (op == OpCode::Del),
        req matches LegacyRequest::DeleteKey { key: k } ==> k@ == key,
        (t == OpCode::InsertDoc || t == OpCode::UpdateDoc) <==> (op == OpCode::SetKey || op == OpCode::Cas),
        req matches LegacyRequest::InsertKv { key: k, value: v } ==> k@ == key && v@ == value,
        req matches LegacyRequest::UpdateKv { key: k, value: v, .. } ==> k@ == key && v@ == value,
{
}

/// The error text for a first-version header carrying a second-version code.
pub open spec fn unsupported_text(op: OpCode) -> Seq<char> {
    "Unsupported v0.1.x command: Ok("@ + opcode_name_spec(op)@ + ")"@
}

/// Translates first-version commands.
pub struct CompatibilityHandler {
    log_warnings: bool,
}

impl CompatibilityHandler {
    /// A handler; `log_warnings` asks for a warning on each first-version command.
    pub fn new(log_warnings: bool) -> (h: CompatibilityHandler)
        ensures
            h.warns() == log_warnings,
    {
        CompatibilityHandler { log_warnings }
    }

    /// Whether first-version commands are to be warned about.
    pub closed spec fn warns(&self) -> bool {
        self.log_warnings
    }

    /// Whether a warning is to be logged for `cmd`.
    pub fn warns_for(&self, cmd: &Command) -> (r: bool)
        ensures
            r == (self.warns() && cmd.header.version == PROTOCOL_V1),
    {
        self.log_warnings && cmd.header.version == PROTOCOL_V1
    }

    /// Translates a command. Second-version commands come back unchanged.
    /// A first-version command gets the second version; pass-through
    /// commands keep their key and value; key-value commands become the
    /// document request of [`request_for`] under the operation of
    /// [`legacy_target`], with an empty key and value and the same flags,
    /// sequence number and extra word. A key that is not UTF-8 text, an
    /// unknown operation code and a second-version operation code are
    /// refused with a message.
    pub fn translate_command(&self, cmd: Command) -> (r: Result<Translation, String>)
        ensures
            cmd.header.version != PROTOCOL_V1 ==> (r matches Ok(t) && t.command == cmd && t.request is None),
            cmd.header.version == PROTOCOL_V1 && (forall|op: OpCode| #[trigger] op.code() != cmd.header.op)
                ==> (r matches Err(e) && e@ == "Invalid opcode"@),
            forall|op: OpCode| cmd.header.version == PROTOCOL_V1 && #[trigger] op.code() == cmd.header.op ==> {
                let h2 = CmdHeader { version: PROTOCOL_V2, ..cmd.header };
                if passes_through(op) {
                    r matches Ok(t) && t.command.header == h2 && t.command.key == cmd.key
                        && t.command.value == cmd.value && t.request is None
                } else if legacy_target(op) is Some {
                    if op is Fetch {
                        r matches Ok(t) && t.command.header == (CmdHeader { op: OpCode::Query.code(), key_len: 0, val_len: 0, ..h2 })
                            && t.command.key@.len() == 0 && t.command.value@.len() == 0
                            && (t.request matches Some(q) && request_for(q, op, Seq::empty(), Seq::empty()))
                    } else {
                        match utf8_text(cmd.key@) {
                            None => r matches Err(e) && e@ == "Invalid UTF-8 in key"@,
                            Some(k) => r matches Ok(t)
                                && t.command.header == (CmdHeader { op: legacy_target(op).unwrap().code(), key_len: 0, val_len: 0, ..h2 })
                                && t.command.key@.len() == 0 && t.command.value@.len() == 0
                                && (t.request matches Some(q) && request_for(q, op, k, cmd.value@)),
                        }
                    }
                } else {
                    r matches Err(e) && e@ == unsupported_text(op)
                }
            },
    {
        if cmd.header.version != PROTOCOL_V1 {
            return Ok(Translation { command: cmd, request: None });
        }
        let mut header = cmd.header;
        header.version = PROTOCOL_V2;
        let op = match header.opcode() {
            Ok(op) => op,
            Err(_) => {
                return Err(String::from_str("Invalid opcode"));
            },
        };
        match op {
            OpCode::Ping | OpCode::Subscribe | OpCode::Unsubscribe | OpCode::Publish | OpCode::Info => {
                Ok(Translation { command: Command { header, key: cmd.key, value: cmd.value }, request: None })
            },
            OpCode::Fetch => {
                let mut h = header.with_key_val(0, 0);
                h.op = OpCode::Query.to_u8();
                Ok(Translation { command: Command { header: h, key: Vec::new(), value: Vec::new() }, request: Some(LegacyRequest::QueryAll) })
            },
            OpCode::SetKey | OpCode::Get | OpCode::Del | OpCode::Cas => {
                let value = cmd.value;
                let key = match decode_utf8(cmd.key) {
                    Some(k) => k,
                    None => {
                        return Err(String::from_str("Invalid UTF-8 in key"));
                    },
                };
                let (target, request) = match op {
                    OpCode::SetKey => (OpCode::InsertDoc, LegacyRequest::InsertKv { key, value }),
                    OpCode::Get => (OpCode::Query, LegacyRequest::QueryKey { key }),
                    OpCode::Del => (OpCode::DeleteDoc, LegacyRequest::DeleteKey { key }),
                    _ => {
                        let expected_version = if value.len() >= 8 {
                            u64_from_le_bytes(slice_subrange(value.as_slice(), 0, 8))
                        } else {
                            0
                        };
                        proof {
                            if value@.len() >= 8 {
                                assert(value@.subrange(0, 8) =~= value@.take(8));
                            }
                        }
                        (OpCode::UpdateDoc, LegacyRequest::UpdateKv { key, expected_version, value })
                    },
                };
                let mut h = header.with_key_val(0, 0);
                h.op = target.to_u8();
                Ok(Translation { command: Command { header: h, key: Vec::new(), value: Vec::new() }, request: Some(request) })
            },
            _ => {
                let prefix = concat_str("Unsupported v0.1.x command: Ok(", opcode_name(op));
                let msg = concat_str(prefix.as_str(), ")");
                Err(msg)
            },
        }
    }

    /// The first step of translating a response to a first-version command:
    /// successful answers to `GET` and `FETCH` are to be decoded and handed
    /// to [`get_reply`] or [`fetch_pairs`]; every other response stands. An
    /// answer to `GET` or `FETCH` with an unknown status byte is refused.
    pub fn translate_response(&self, response: Response, original_opcode: OpCode) -> (r: Result<ResponseStep, String>)
        ensures
            (original_opcode is Get || original_opcode is Fetch)
                && (forall|s: Status| #[trigger] s.code() != response.header.status)
                ==> (r matches Err(e) && e@ == "Invalid status"@),
            (original_opcode is Get || original_opcode is Fetch) && response.header.status == Status::Success.code()
                ==> (r matches Ok(step) && step == (if original_opcode is Get {
                    ResponseStep::DecodeGet(response)
                } else {
                    ResponseStep::DecodeFetch(response)
                })),
            (original_opcode is Get || original_opcode is Fetch) && response.header.status != Status::Success.code()
                && (exists|s: Status| #[trigger] s.code() == response.header.status)
                ==> (r matches Ok(step) && step == ResponseStep::Ready(response)),
            !(original_opcode is Get || original_opcode is Fetch) ==> (r matches Ok(step) && step == ResponseStep::Ready(response)),
    {
        match original_opcode {
            OpCode::Get | OpCode::Fetch => {
                let status = match response.header.status() {
                    Ok(s) => s,
                    Err(_) => {
                        return Err(String::from_str("Invalid status"));
                    },
                };
                if status != Status::Success {
                    return Ok(ResponseStep::Ready(response));
                }
                match original_opcode {
                    OpCode::Get => Ok(ResponseStep::DecodeGet(response)),
                    _ => Ok(ResponseStep::DecodeFetch(response)),
                }
            },
            _ => Ok(ResponseStep::Ready(response)),
        }
    }
}

/// Where the translation of a response stands.
#[derive(Debug)]
pub enum ResponseStep {
    /// The response to send.
    Ready(Response),
    /// A successful answer to `GET`, whose payload is to be decoded.
    DecodeGet(Response),
    /// A successful answer to `FETCH`, whose payload is to be decoded.
    DecodeFetch(Response),
}

/// The binary value of the first document in a query answer, if the
/// answer is a list whose first element is a document with a binary
/// `value` field.
pub open spec fn first_value(data: Option<Value>) -> Option<Seq<u8>> {
    match data {
        Some(Value::Array(docs)) => if docs@.len() > 0 {
            match docs@[0] {
                Value::Object(fields) => match crate::sorted_map::get_field(fields@, "value"@) {
                    Some(Value::Binary(v)) => Some(v@),
                    _ => None,
                },
                _ => None,
            }
        } else {
            None
        },
        _ => None,
    }
}

/// The first-version reply to `GET` built from the decoded answer: an
/// error for a failed operation, the value when a document was found, and
/// not-found otherwise.
pub fn get_reply(seq: u32, answer: &OperationResponse) -> (r: Response)
    ensures
        !answer.success ==> r.header == super::resp_header(Status::Error, seq, 0) && r.payload@.len() == 0,
        answer.success && first_value(answer.data) is None ==> r.header == super::resp_header(Status::NotFound, seq, 0)
            && r.payload@.len() == 0,
        answer.success && first_value(answer.data) is Some ==> r.header == super::resp_header(
            Status::Success,
            seq,
            first_value(answer.data).unwrap().len() as u32,
        ) && r.payload@ == first_value(answer.data).unwrap(),
{
    if !answer.success {
        return Response::error(seq);
    }
    match &answer.data {
        Some(Value::Array(docs)) => {
            if docs.len() > 0 {
                match &docs[0] {
                    Value::Object(fields) => {
                        match crate::sorted_map::map_get(fields, "value") {
                            Some(Value::Binary(v)) => {
                                return Response::ok(seq, v.clone());
                            },
                            _ => {},
                        }
                    },
                    _ => {},
                }
            }
        },
        _ => {},
    }
    Response::not_found(seq)
}

/// The key and binary value of a document that has both a text `key` and
/// a binary `value` field.
pub open spec fn kv_pair(doc: Value) -> Option<(Seq<char>, Seq<u8>)> {
    match doc {
        Value::Object(fields) => match (
            crate::sorted_map::get_field(fields@, "key"@),
            crate::sorted_map::get_field(fields@, "value"@),
        ) {
            (Some(Value::String(k)), Some(Value::Binary(v))) => Some((k@, v@)),
            _ => None,
        },
        _ => None,
    }
}

/// The pairs of the documents in `docs` that have them, in order.
pub open spec fn kv_pairs(docs: Seq<Value>) -> Seq<(Seq<char>, Seq<u8>)>
    decreases docs.len(),
{
    if docs.len() == 0 {
        Seq::empty()
    } else {
        let rest = kv_pairs(docs.drop_last());
        match kv_pair(docs.last()) {
            Some(p) => rest.push(p),
            None => rest,
        }
    }
}

/// The key-value pairs for a first-version `FETCH` reply, from the decoded
/// answer: `None` for a failed operation; otherwise the pairs of the listed
/// documents (none when the answer is not a list).
pub fn fetch_pairs(answer: &OperationResponse) -> (r: Option<Vec<(String, Vec<u8>)>>)
    ensures
        !answer.success ==> r is None,
        answer.success ==> r is Some && r.unwrap()@.map_values(|p: (String, Vec<u8>)| (p.0@, p.1@)) == match answer.data {
            Some(Value::Array(docs)) => kv_pairs(docs@),
            _ => Seq::empty(),
        },
{
    if !answer.success {
        return None;
    }
    let mut out: Vec<(String, Vec<u8>)> = Vec::new();
    match &answer.data {
        Some(Value::Array(docs)) => {
            let mut i: usize = 0;
            while i < docs.len()
                invariant
                    i <= docs@.len(),
                    out@.map_values(|p: (String, Vec<u8>)| (p.0@, p.1@)) == kv_pairs(docs@.take(i as int)),
                decreases docs@.len() - i,
            {
                proof { assert(docs@.take(i + 1).drop_last() =~= docs@.take(i as int)); }
                match &docs[i] {
                    Value::Object(fields) => {
                        match (crate::sorted_map::map_get(fields, "key"), crate::sorted_map::map_get(fields, "value")) {
                            (Some(Value::String(k)), Some(Value::Binary(v))) => {
                                out.push((k.clone(), v.clone()));
                            },
                            _ => {},
                        }
                    },
                    _ => {},
                }
                i = i + 1;
                proof {
                    assert(out@.map_values(|p: (String, Vec<u8>)| (p.0@, p.1@)) =~= kv_pairs(docs@.take(i as int)));
                }
            }
            proof { assert(docs@.take(i as int) =~= docs@); }
        },
        _ => {
            proof { assert(out@.map_values(|p: (String, Vec<u8>)| (p.0@, p.1@)) =~= Seq::<(Seq<char>, Seq<u8>)>::empty()); }
        },
    }
    Some(out)
}

} // verus!

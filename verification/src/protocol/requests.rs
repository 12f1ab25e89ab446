//! Request and response payloads of the second protocol version, and the
//! operation codes that data-structure requests travel under.
use vstd::prelude::*;
use crate::document::{Document, Value};
use super::{Command, OpCode, v2_header};

verus! {

/// How a client authenticates.
#[derive(Debug, Clone, Copy, PartialEq, Eq, Structural)]
pub enum AuthMethod {
    UsernamePassword,
    JwtToken,
}

/// What a client authenticates with.
#[derive(Debug)]
pub enum AuthCredentials {
    UsernamePassword { username: String, password: String },
    JwtToken { token: String },
}

/// Authentication request payload.
#[derive(Debug)]
pub struct AuthRequest {
    pub method: AuthMethod,
    pub credentials: AuthCredentials,
}

/// Authentication response payload.
#[derive(Debug)]
pub struct AuthResponse {
    pub success: bool,
    pub token: Option<String>,
    /// Unix time at which the token expires.
    pub expires_at: Option<u64>,
    pub error: Option<String>,
}

/// Query request payload.
#[derive(Debug)]
pub struct QueryRequest {
    pub collection: String,
    pub filter: Option<Value>,
    pub projection: Option<Value>,
    pub sort: Option<Value>,
    pub skip: Option<u64>,
    pub limit: Option<u64>,
}

/// Document insertion request payload.
#[derive(Debug)]
pub struct InsertDocRequest {
    pub collection: String,
    pub document: Document,
}

/// Document update request payload.
#[derive(Debug)]
pub struct UpdateDocRequest {
    pub collection: String,
    pub filter: Value,
    pub update: Value,
    pub upsert: bool,
}

/// Document deletion request payload.
#[derive(Debug)]
pub struct DeleteDocRequest {
    pub collection: String,
    pub filter: Value,
}

/// Collection creation request payload.
#[derive(Debug)]
pub struct CreateCollectionRequest {
    pub name: String,
    /// JSON schema of the collection.
    pub schema: Option<Value>,
}

/// One field of an index: 1 for ascending, -1 for descending.
#[derive(Debug)]
pub struct IndexField {
    pub field: String,
    pub direction: i32,
}

/// Index creation request payload.
#[derive(Debug)]
pub struct CreateIndexRequest {
    pub collection: String,
    pub name: String,
    pub fields: Vec<IndexField>,
    pub unique: bool,
}

/// List operations.
#[derive(Debug)]
pub enum ListOperation {
    Push { values: Vec<Value>, left: bool },
    Pop { left: bool },
    Range { start: i64, stop: i64 },
    Len,
}

/// List operation request payload.
#[derive(Debug)]
pub struct ListOpRequest {
    pub key: String,
    pub operation: ListOperation,
}

/// Set operations.
#[derive(Debug)]
pub enum SetOperation {
    Add { values: Vec<Value> },
    Remove { values: Vec<Value> },
    Members,
    IsMember { value: Value },
    Card,
    Union { other_keys: Vec<String> },
    Inter { other_keys: Vec<String> },
    Diff { other_keys: Vec<String> },
}

/// Set operation request payload.
#[derive(Debug)]
pub struct SetOpRequest {
    pub key: String,
    pub operation: SetOperation,
}

/// Hash operations.
#[derive(Debug)]
pub enum HashOperation {
    SetField { field: String, value: Value },
    Get { field: String },
    Del { fields: Vec<String> },
    GetAll,
    Keys,
    Vals,
    Len,
}

/// Hash operation request payload.
#[derive(Debug)]
pub struct HashOpRequest {
    pub key: String,
    pub operation: HashOperation,
}

/// Generic operation response payload.
#[derive(Debug)]
pub struct OperationResponse {
    pub success: bool,
    pub data: Option<Value>,
    pub error: Option<String>,
    pub affected_count: Option<u64>,
}

impl OperationResponse {
    pub fn success(data: Option<Value>) -> (r: OperationResponse)
        ensures
            r.success,
            r.data == data,
            r.error is None,
            r.affected_count is None,
    {
        OperationResponse { success: true, data, error: None, affected_count: None }
    }

    pub fn error(message: String) -> (r: OperationResponse)
        ensures
            !r.success,
            r.data is None,
            r.error == Some(message),
            r.affected_count is None,
    {
        OperationResponse { success: false, data: None, error: Some(message), affected_count: None }
    }
}

/// The operation code a list request travels under.
pub open spec fn list_code(op: ListOperation) -> OpCode {
    match op {
        ListOperation::Push { left, .. } => if left { OpCode::LPush } else { OpCode::RPush },
        ListOperation::Pop { left } => if left { OpCode::LPop } else { OpCode::RPop },
        ListOperation::Range { .. } => OpCode::LRange,
        ListOperation::Len => OpCode::LLen,
    }
}

/// The operation code a set request travels under.
pub open spec fn set_code(op: SetOperation) -> OpCode {
    match op {
        SetOperation::Add { .. } => OpCode::SAdd,
        SetOperation::Remove { .. } => OpCode::SRem,
        SetOperation::Members => OpCode::SMembers,
        SetOperation::IsMember { .. } => OpCode::SIsMember,
        SetOperation::Card => OpCode::SCard,
        SetOperation::Union { .. } => OpCode::SUnion,
        SetOperation::Inter { .. } => OpCode::SInter,
        SetOperation::Diff { .. } => OpCode::SDiff,
    }
}

/// The operation code a hash request travels under.
pub open spec fn hash_code(op: HashOperation) -> OpCode {
    match op {
        HashOperation::SetField { .. } => OpCode::HSet,
        HashOperation::Get { .. } => OpCode::HGet,
        HashOperation::Del { .. } => OpCode::HDel,
        HashOperation::GetAll => OpCode::HGetAll,
        HashOperation::Keys => OpCode::HKeys,
        HashOperation::Vals => OpCode::HVals,
        HashOperation::Len => OpCode::HLen,
    }
}

impl ListOperation {
    pub fn opcode(&self) -> (r: OpCode)
        ensures
            r == list_code(*self),
    {
        match self {
            ListOperation::Push { left, .. } => if *left { OpCode::LPush } else { OpCode::RPush },
            ListOperation::Pop { left } => if *left { OpCode::LPop } else { OpCode::RPop },
            ListOperation::Range { .. } => OpCode::LRange,
            ListOperation::Len => OpCode::LLen,
        }
    }
}

impl SetOperation {
    pub fn opcode(&self) -> (r: OpCode)
        ensures
            r == set_code(*self),
    {
        match self {
            SetOperation::Add { .. } => OpCode::SAdd,
            SetOperation::Remove { .. } => OpCode::SRem,
            SetOperation::Members => OpCode::SMembers,
            SetOperation::IsMember { .. } => OpCode::SIsMember,
            SetOperation::Card => OpCode::SCard,
            SetOperation::Union { .. } => OpCode::SUnion,
            SetOperation::Inter { .. } => OpCode::SInter,
            SetOperation::Diff { .. } => OpCode::SDiff,
        }
    }
}

impl HashOperation {
    pub fn opcode(&self) -> (r: OpCode)
        ensures
            r == hash_code(*self),
    {
        match self {
            HashOperation::SetField { .. } => OpCode::HSet,
            HashOperation::Get { .. } => OpCode::HGet,
            HashOperation::Del { .. } => OpCode::HDel,
            HashOperation::GetAll => OpCode::HGetAll,
            HashOperation::Keys => OpCode::HKeys,
            HashOperation::Vals => OpCode::HVals,
            HashOperation::Len => OpCode::HLen,
        }
    }
}

impl Command {
    /// `AUTH`, carrying an encoded authentication request.
    pub fn auth(seq: u32, payload: Vec<u8>) -> (r: Command)
        ensures
            r.header == v2_header(OpCode::Auth, seq, 0, payload@.len() as u32),
            r.key@.len() == 0,
            r.value == payload,
    {
        Command::with_payload(OpCode::Auth, seq, payload)
    }

    /// `QUERY`, carrying an encoded query request.
    pub fn query(seq: u32, payload: Vec<u8>) -> (r: Command)
        ensures
            r.header == v2_header(OpCode::Query, seq, 0, payload@.len() as u32),
            r.key@.len() == 0,
            r.value == payload,
    {
        Command::with_payload(OpCode::Query, seq, payload)
    }

    /// `INSERT_DOC`, carrying an encoded insertion request.
    pub fn insert_doc(seq: u32, payload: Vec<u8>) -> (r: Command)
        ensures
            r.header == v2_header(OpCode::InsertDoc, seq, 0, payload@.len() as u32),
            r.key@.len() == 0,
            r.value == payload,
    {
        Command::with_payload(OpCode::InsertDoc, seq, payload)
    }

    /// `UPDATE_DOC`, carrying an encoded update request.
    pub fn update_doc(seq: u32, payload: Vec<u8>) -> (r: Command)
        ensures
            r.header == v2_header(OpCode::UpdateDoc, seq, 0, payload@.len() as u32),
            r.key@.len() == 0,
            r.value == payload,
    {
        Command::with_payload(OpCode::UpdateDoc, seq, payload)
    }

    /// `DELETE_DOC`, carrying an encoded deletion request.
    pub fn delete_doc(seq: u32, payload: Vec<u8>) -> (r: Command)
        ensures
            r.header == v2_header(OpCode::DeleteDoc, seq, 0, payload@.len() as u32),
            r.key@.len() == 0,
            r.value == payload,
    {
        Command::with_payload(OpCode::DeleteDoc, seq, payload)
    }

    /// `CREATE_COLLECTION`, carrying an encoded creation request.
    pub fn create_collection(seq: u32, payload: Vec<u8>) -> (r: Command)
        ensures
            r.header == v2_header(OpCode::CreateCollection, seq, 0, payload@.len() as u32),
            r.key@.len() == 0,
            r.value == payload,
    {
        Command::with_payload(OpCode::CreateCollection, seq, payload)
    }

    /// `CREATE_INDEX`, carrying an encoded index request.
    pub fn create_index(seq: u32, payload: Vec<u8>) -> (r: Command)
        ensures
            r.header == v2_header(OpCode::CreateIndex, seq, 0, payload@.len() as u32),
            r.key@.len() == 0,
            r.value == payload,
    {
        Command::with_payload(OpCode::CreateIndex, seq, payload)
    }

    /// A list command for `request`, carrying its encoding.
    pub fn list_op(seq: u32, request: &ListOpRequest, payload: Vec<u8>) -> (r: Command)
        ensures
            r.header == v2_header(list_code(request.operation), seq, 0, payload@.len() as u32),
            r.key@.len() == 0,
            r.value == payload,
    {
        Command::with_payload(request.operation.opcode(), seq, payload)
    }

    /// A set command for `request`, carrying its encoding.
    pub fn set_op(seq: u32, request: &SetOpRequest, payload: Vec<u8>) -> (r: Command)
        ensures
            r.header == v2_header(set_code(request.operation), seq, 0, payload@.len() as u32),
            r.key@.len() == 0,
            r.value == payload,
    {
        Command::with_payload(request.operation.opcode(), seq, payload)
    }

    /// A hash command for `request`, carrying its encoding.
    pub fn hash_op(seq: u32, request: &HashOpRequest, payload: Vec<u8>) -> (r: Command)
        ensures
            r.header == v2_header(hash_code(request.operation), seq, 0, payload@.len() as u32),
            r.key@.len() == 0,
            r.value == payload,
    {
        Command::with_payload(request.operation.opcode(), seq, payload)
    }
}

} // verus!

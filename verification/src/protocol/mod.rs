//! The binary command protocol: operation and status codes, the fixed-size
//! command and response headers, and their little-endian wire format.
pub mod flags;
pub mod compatibility;
pub mod requests;
pub mod handler;
pub mod advanced;
pub mod admission;

use vstd::prelude::*;
use vstd::bytes::{spec_u32_to_le_bytes, spec_u32_from_le_bytes, spec_u64_to_le_bytes, spec_u64_from_le_bytes, u32_to_le_bytes, u32_from_le_bytes, u64_to_le_bytes, u64_from_le_bytes, spec_u16_to_le_bytes, spec_u16_from_le_bytes, u16_to_le_bytes, u16_from_le_bytes, lemma_auto_spec_u32_to_from_le_bytes, lemma_auto_spec_u64_to_from_le_bytes, lemma_auto_spec_u16_to_from_le_bytes};
use vstd::slice::{slice_subrange, slice_to_vec};
use crate::document::{Document, Value};

verus! {

/// The first protocol version.
pub const PROTOCOL_V1: u8 = 0x01;
/// The second protocol version.
pub const PROTOCOL_V2: u8 = 0x02;

/// Command operation codes (0x01-0x0A: the first protocol version; 0x10 and up: the second).
#[derive(Debug, Clone, Copy, PartialEq, Eq, Structural)]
pub enum OpCode {
    Ping,
    SetKey,
    Get,
    Del,
    Cas,
    Subscribe,
    Unsubscribe,
    Publish,
    Fetch,
    Info,
    Auth,
    AuthResponse,
    Query,
    InsertDoc,
    UpdateDoc,
    DeleteDoc,
    CreateCollection,
    DropCollection,
    ListCollections,
    CreateIndex,
    DropIndex,
    ListIndexes,
    LPush,
    RPush,
    LPop,
    RPop,
    LRange,
    LLen,
    SAdd,
    SRem,
    SMembers,
    SIsMember,
    SCard,
    SUnion,
    SInter,
    SDiff,
    ZAdd,
    ZRem,
    ZRange,
    ZRangeByScore,
    ZCard,
    ZScore,
    HSet,
    HGet,
    HDel,
    HGetAll,
    HKeys,
    HVals,
    HLen,
}

impl OpCode {
    /// The wire byte of each variant.
    pub open spec fn code(self) -> u8 {
        match self {
            OpCode::Ping => 0x01u8,
            OpCode::SetKey => 0x02u8,
            OpCode::Get => 0x03u8,
            OpCode::Del => 0x04u8,
            OpCode::Cas => 0x05u8,
            OpCode::Subscribe => 0x06u8,
            OpCode::Unsubscribe => 0x07u8,
            OpCode::Publish => 0x08u8,
            OpCode::Fetch => 0x09u8,
            OpCode::Info => 0x0Au8,
            OpCode::Auth => 0x10u8,
            OpCode::AuthResponse => 0x11u8,
            OpCode::Query => 0x12u8,
            OpCode::InsertDoc => 0x13u8,
            OpCode::UpdateDoc => 0x14u8,
            OpCode::DeleteDoc => 0x15u8,
            OpCode::CreateCollection => 0x16u8,
            OpCode::DropCollection => 0x17u8,
            OpCode::ListCollections => 0x18u8,
            OpCode::CreateIndex => 0x19u8,
            OpCode::DropIndex => 0x1Au8,
            OpCode::ListIndexes => 0x1Bu8,
            OpCode::LPush => 0x20u8,
            OpCode::RPush => 0x21u8,
            OpCode::LPop => 0x22u8,
            OpCode::RPop => 0x23u8,
            OpCode::LRange => 0x24u8,
            OpCode::LLen => 0x25u8,
            OpCode::SAdd => 0x26u8,
            OpCode::SRem => 0x27u8,
            OpCode::SMembers => 0x28u8,
            OpCode::SIsMember => 0x29u8,
            OpCode::SCard => 0x2Au8,
            OpCode::SUnion => 0x2Bu8,
            OpCode::SInter => 0x2Cu8,
            OpCode::SDiff => 0x2Du8,
            OpCode::ZAdd => 0x2Eu8,
            OpCode::ZRem => 0x2Fu8,
            OpCode::ZRange => 0x30u8,
            OpCode::ZRangeByScore => 0x31u8,
            OpCode::ZCard => 0x32u8,
            OpCode::ZScore => 0x33u8,
            OpCode::HSet => 0x34u8,
            OpCode::HGet => 0x35u8,
            OpCode::HDel => 0x36u8,
            OpCode::HGetAll => 0x37u8,
            OpCode::HKeys => 0x38u8,
            OpCode::HVals => 0x39u8,
            OpCode::HLen => 0x3Au8,
        }
    }

    /// The wire byte.
    pub fn to_u8(self) -> (r: u8)
        ensures
            r == self.code(),
    {
        match self {
            OpCode::Ping => 0x01u8,
            OpCode::SetKey => 0x02u8,
            OpCode::Get => 0x03u8,
            OpCode::Del => 0x04u8,
            OpCode::Cas => 0x05u8,
            OpCode::Subscribe => 0x06u8,
            OpCode::Unsubscribe => 0x07u8,
            OpCode::Publish => 0x08u8,
            OpCode::Fetch => 0x09u8,
            OpCode::Info => 0x0Au8,
            OpCode::Auth => 0x10u8,
            OpCode::AuthResponse => 0x11u8,
            OpCode::Query => 0x12u8,
            OpCode::InsertDoc => 0x13u8,
            OpCode::UpdateDoc => 0x14u8,
            OpCode::DeleteDoc => 0x15u8,
            OpCode::CreateCollection => 0x16u8,
            OpCode::DropCollection => 0x17u8,
            OpCode::ListCollections => 0x18u8,
            OpCode::CreateIndex => 0x19u8,
            OpCode::DropIndex => 0x1Au8,
            OpCode::ListIndexes => 0x1Bu8,
            OpCode::LPush => 0x20u8,
            OpCode::RPush => 0x21u8,
            OpCode::LPop => 0x22u8,
            OpCode::RPop => 0x23u8,
            OpCode::LRange => 0x24u8,
            OpCode::LLen => 0x25u8,
            OpCode::SAdd => 0x26u8,
            OpCode::SRem => 0x27u8,
            OpCode::SMembers => 0x28u8,
            OpCode::SIsMember => 0x29u8,
            OpCode::SCard => 0x2Au8,
            OpCode::SUnion => 0x2Bu8,
            OpCode::SInter => 0x2Cu8,
            OpCode::SDiff => 0x2Du8,
            OpCode::ZAdd => 0x2Eu8,
            OpCode::ZRem => 0x2Fu8,
            OpCode::ZRange => 0x30u8,
            OpCode::ZRangeByScore => 0x31u8,
            OpCode::ZCard => 0x32u8,
            OpCode::ZScore => 0x33u8,
            OpCode::HSet => 0x34u8,
            OpCode::HGet => 0x35u8,
            OpCode::HDel => 0x36u8,
            OpCode::HGetAll => 0x37u8,
            OpCode::HKeys => 0x38u8,
            OpCode::HVals => 0x39u8,
            OpCode::HLen => 0x3Au8,
        }
    }

    /// The operation whose wire byte is `b`, if any.
    pub open spec fn from_code(b: u8) -> Option<OpCode> {
        match b {
            0x01u8 => Some(OpCode::Ping),
            0x02u8 => Some(OpCode::SetKey),
            0x03u8 => Some(OpCode::Get),
            0x04u8 => Some(OpCode::Del),
            0x05u8 => Some(OpCode::Cas),
            0x06u8 => Some(OpCode::Subscribe),
            0x07u8 => Some(OpCode::Unsubscribe),
            0x08u8 => Some(OpCode::Publish),
            0x09u8 => Some(OpCode::Fetch),
            0x0Au8 => Some(OpCode::Info),
            0x10u8 => Some(OpCode::Auth),
            0x11u8 => Some(OpCode::AuthResponse),
            0x12u8 => Some(OpCode::Query),
            0x13u8 => Some(OpCode::InsertDoc),
            0x14u8 => Some(OpCode::UpdateDoc),
            0x15u8 => Some(OpCode::DeleteDoc),
            0x16u8 => Some(OpCode::CreateCollection),
            0x17u8 => Some(OpCode::DropCollection),
            0x18u8 => Some(OpCode::ListCollections),
            0x19u8 => Some(OpCode::CreateIndex),
            0x1Au8 => Some(OpCode::DropIndex),
            0x1Bu8 => Some(OpCode::ListIndexes),
            0x20u8 => Some(OpCode::LPush),
            0x21u8 => Some(OpCode::RPush),
            0x22u8 => Some(OpCode::LPop),
            0x23u8 => Some(OpCode::RPop),
            0x24u8 => Some(OpCode::LRange),
            0x25u8 => Some(OpCode::LLen),
            0x26u8 => Some(OpCode::SAdd),
            0x27u8 => Some(OpCode::SRem),
            0x28u8 => Some(OpCode::SMembers),
            0x29u8 => Some(OpCode::SIsMember),
            0x2Au8 => Some(OpCode::SCard),
            0x2Bu8 => Some(OpCode::SUnion),
            0x2Cu8 => Some(OpCode::SInter),
            0x2Du8 => Some(OpCode::SDiff),
            0x2Eu8 => Some(OpCode::ZAdd),
            0x2Fu8 => Some(OpCode::ZRem),
            0x30u8 => Some(OpCode::ZRange),
            0x31u8 => Some(OpCode::ZRangeByScore),
            0x32u8 => Some(OpCode::ZCard),
            0x33u8 => Some(OpCode::ZScore),
            0x34u8 => Some(OpCode::HSet),
            0x35u8 => Some(OpCode::HGet),
            0x36u8 => Some(OpCode::HDel),
            0x37u8 => Some(OpCode::HGetAll),
            0x38u8 => Some(OpCode::HKeys),
            0x39u8 => Some(OpCode::HVals),
            0x3Au8 => Some(OpCode::HLen),
            _ => None,
        }
    }

    /// Each operation is found back from its wire byte.
    pub proof fn lemma_from_code(op: OpCode)
        ensures
            OpCode::from_code(op.code()) == Some(op),
    {
    }

    /// Distinct operations have distinct wire bytes.
    pub proof fn lemma_code_injective(a: OpCode, b: OpCode)
        requires
            a.code() == b.code(),
        ensures
            a == b,
    {
        OpCode::lemma_from_code(a);
        OpCode::lemma_from_code(b);
    }

    /// The variant whose wire byte is `value`.
    pub fn try_from(value: u8) -> (r: Result<OpCode, ()>)
        ensures
            match r {
                Ok(x) => x.code() == value,
                Err(_) => forall|x: OpCode| #[trigger] x.code() != value,
            },
    {
        match value {
            0x01u8 => Ok(OpCode::Ping),
            0x02u8 => Ok(OpCode::SetKey),
            0x03u8 => Ok(OpCode::Get),
            0x04u8 => Ok(OpCode::Del),
            0x05u8 => Ok(OpCode::Cas),
            0x06u8 => Ok(OpCode::Subscribe),
            0x07u8 => Ok(OpCode::Unsubscribe),
            0x08u8 => Ok(OpCode::Publish),
            0x09u8 => Ok(OpCode::Fetch),
            0x0Au8 => Ok(OpCode::Info),
            0x10u8 => Ok(OpCode::Auth),
            0x11u8 => Ok(OpCode::AuthResponse),
            0x12u8 => Ok(OpCode::Query),
            0x13u8 => Ok(OpCode::InsertDoc),
            0x14u8 => Ok(OpCode::UpdateDoc),
            0x15u8 => Ok(OpCode::DeleteDoc),
            0x16u8 => Ok(OpCode::CreateCollection),
            0x17u8 => Ok(OpCode::DropCollection),
            0x18u8 => Ok(OpCode::ListCollections),
            0x19u8 => Ok(OpCode::CreateIndex),
            0x1Au8 => Ok(OpCode::DropIndex),
            0x1Bu8 => Ok(OpCode::ListIndexes),
            0x20u8 => Ok(OpCode::LPush),
            0x21u8 => Ok(OpCode::RPush),
            0x22u8 => Ok(OpCode::LPop),
            0x23u8 => Ok(OpCode::RPop),
            0x24u8 => Ok(OpCode::LRange),
            0x25u8 => Ok(OpCode::LLen),
            0x26u8 => Ok(OpCode::SAdd),
            0x27u8 => Ok(OpCode::SRem),
            0x28u8 => Ok(OpCode::SMembers),
            0x29u8 => Ok(OpCode::SIsMember),
            0x2Au8 => Ok(OpCode::SCard),
            0x2Bu8 => Ok(OpCode::SUnion),
            0x2Cu8 => Ok(OpCode::SInter),
            0x2Du8 => Ok(OpCode::SDiff),
            0x2Eu8 => Ok(OpCode::ZAdd),
            0x2Fu8 => Ok(OpCode::ZRem),
            0x30u8 => Ok(OpCode::ZRange),
            0x31u8 => Ok(OpCode::ZRangeByScore),
            0x32u8 => Ok(OpCode::ZCard),
            0x33u8 => Ok(OpCode::ZScore),
            0x34u8 => Ok(OpCode::HSet),
            0x35u8 => Ok(OpCode::HGet),
            0x36u8 => Ok(OpCode::HDel),
            0x37u8 => Ok(OpCode::HGetAll),
            0x38u8 => Ok(OpCode::HKeys),
            0x39u8 => Ok(OpCode::HVals),
            0x3Au8 => Ok(OpCode::HLen),
            _ => {
                proof {
                    assert forall|x: OpCode| #[trigger] x.code() != value by {
                        match x {
                            OpCode::Ping => {},
                            OpCode::SetKey => {},
                            OpCode::Get => {},
                            OpCode::Del => {},
                            OpCode::Cas => {},
                            OpCode::Subscribe => {},
                            OpCode::Unsubscribe => {},
                            OpCode::Publish => {},
                            OpCode::Fetch => {},
                            OpCode::Info => {},
                            OpCode::Auth => {},
                            OpCode::AuthResponse => {},
                            OpCode::Query => {},
                            OpCode::InsertDoc => {},
                            OpCode::UpdateDoc => {},
                            OpCode::DeleteDoc => {},
                            OpCode::CreateCollection => {},
                            OpCode::DropCollection => {},
                            OpCode::ListCollections => {},
                            OpCode::CreateIndex => {},
                            OpCode::DropIndex => {},
                            OpCode::ListIndexes => {},
                            OpCode::LPush => {},
                            OpCode::RPush => {},
                            OpCode::LPop => {},
                            OpCode::RPop => {},
                            OpCode::LRange => {},
                            OpCode::LLen => {},
                            OpCode::SAdd => {},
                            OpCode::SRem => {},
                            OpCode::SMembers => {},
                            OpCode::SIsMember => {},
                            OpCode::SCard => {},
                            OpCode::SUnion => {},
                            OpCode::SInter => {},
                            OpCode::SDiff => {},
                            OpCode::ZAdd => {},
                            OpCode::ZRem => {},
                            OpCode::ZRange => {},
                            OpCode::ZRangeByScore => {},
                            OpCode::ZCard => {},
                            OpCode::ZScore => {},
                            OpCode::HSet => {},
                            OpCode::HGet => {},
                            OpCode::HDel => {},
                            OpCode::HGetAll => {},
                            OpCode::HKeys => {},
                            OpCode::HVals => {},
                            OpCode::HLen => {},
                        }
                    }
                }
                Err(())
            },
        }
    }

    /// The variant whose wire byte is `value`, or `Ping` for a byte that
    /// names none.
    pub fn from_u8(value: u8) -> (r: OpCode)
        ensures
            r.code() == value || (r == OpCode::Ping && forall|x: OpCode| #[trigger] x.code() != value),
    {
        match OpCode::try_from(value) {
            Ok(op) => op,
            Err(_) => OpCode::Ping,
        }
    }
}

/// Response status codes.
#[derive(Debug, Clone, Copy, PartialEq, Eq, Structural)]
pub enum Status {
    Success,
    Error,
    NotFound,
    Full,
    Timeout,
    VersionMismatch,
    AuthRequired,
    AuthFailed,
    PermissionDenied,
    InvalidQuery,
    CollectionExists,
    CollectionNotFound,
    IndexExists,
    IndexNotFound,
}

impl Status {
    /// The wire byte of each variant.
    pub open spec fn code(self) -> u8 {
        match self {
            Status::Success => 0x00u8,
            Status::Error => 0x01u8,
            Status::NotFound => 0x02u8,
            Status::Full => 0x03u8,
            Status::Timeout => 0x04u8,
            Status::VersionMismatch => 0x05u8,
            Status::AuthRequired => 0x06u8,
            Status::AuthFailed => 0x07u8,
            Status::PermissionDenied => 0x08u8,
            Status::InvalidQuery => 0x09u8,
            Status::CollectionExists => 0x0Au8,
            Status::CollectionNotFound => 0x0Bu8,
            Status::IndexExists => 0x0Cu8,
            Status::IndexNotFound => 0x0Du8,
        }
    }

    /// The wire byte.
    pub fn to_u8(self) -> (r: u8)
        ensures
            r == self.code(),
    {
        match self {
            Status::Success => 0x00u8,
            Status::Error => 0x01u8,
            Status::NotFound => 0x02u8,
            Status::Full => 0x03u8,
            Status::Timeout => 0x04u8,
            Status::VersionMismatch => 0x05u8,
            Status::AuthRequired => 0x06u8,
            Status::AuthFailed => 0x07u8,
            Status::PermissionDenied => 0x08u8,
            Status::InvalidQuery => 0x09u8,
            Status::CollectionExists => 0x0Au8,
            Status::CollectionNotFound => 0x0Bu8,
            Status::IndexExists => 0x0Cu8,
            Status::IndexNotFound => 0x0Du8,
        }
    }

    /// The variant whose wire byte is `value`.
    pub fn try_from(value: u8) -> (r: Result<Status, ()>)
        ensures
            match r {
                Ok(x) => x.code() == value,
                Err(_) => forall|x: Status| #[trigger] x.code() != value,
            },
    {
        match value {
            0x00u8 => Ok(Status::Success),
            0x01u8 => Ok(Status::Error),
            0x02u8 => Ok(Status::NotFound),
            0x03u8 => Ok(Status::Full),
            0x04u8 => Ok(Status::Timeout),
            0x05u8 => Ok(Status::VersionMismatch),
            0x06u8 => Ok(Status::AuthRequired),
            0x07u8 => Ok(Status::AuthFailed),
            0x08u8 => Ok(Status::PermissionDenied),
            0x09u8 => Ok(Status::InvalidQuery),
            0x0Au8 => Ok(Status::CollectionExists),
            0x0Bu8 => Ok(Status::CollectionNotFound),
            0x0Cu8 => Ok(Status::IndexExists),
            0x0Du8 => Ok(Status::IndexNotFound),
            _ => {
                proof {
                    assert forall|x: Status| #[trigger] x.code() != value by {
                        match x {
                            Status::Success => {},
                            Status::Error => {},
                            Status::NotFound => {},
                            Status::Full => {},
                            Status::Timeout => {},
                            Status::VersionMismatch => {},
                            Status::AuthRequired => {},
                            Status::AuthFailed => {},
                            Status::PermissionDenied => {},
                            Status::InvalidQuery => {},
                            Status::CollectionExists => {},
                            Status::CollectionNotFound => {},
                            Status::IndexExists => {},
                            Status::IndexNotFound => {},
                        }
                    }
                }
                Err(())
            },
        }
    }
}

/// Command header: 24 bytes on the wire, little-endian, in field order.
#[derive(Debug, Clone, Copy, PartialEq, Eq, Structural)]
pub struct CmdHeader {
    pub op: u8,
    pub flags: u8,
    pub version: u8,
    pub reserved: u8,
    pub seq: u32,
    pub key_len: u32,
    pub val_len: u32,
    pub extra: u64,
}

/// Response header: 16 bytes on the wire, little-endian, in field order.
#[derive(Debug, Clone, Copy, PartialEq, Eq, Structural)]
pub struct RespHeader {
    pub status: u8,
    pub flags: u8,
    pub reserved: u16,
    pub seq: u32,
    pub payload_len: u32,
    pub padding: u32,
}

/// A command: header, key and value.
#[derive(Debug)]
pub struct Command {
    pub header: CmdHeader,
    pub key: Vec<u8>,
    pub value: Vec<u8>,
}

/// A response: header and payload.
#[derive(Debug)]
pub struct Response {
    pub header: RespHeader,
    pub payload: Vec<u8>,
}

/// Size in bytes of an encoded [`CmdHeader`].
pub const CMD_HEADER_SIZE: usize = 24;
/// Size in bytes of an encoded [`RespHeader`].
pub const RESP_HEADER_SIZE: usize = 16;

// ---------------------------------------------------------------------
// Wire format
// ---------------------------------------------------------------------
/// The 24 bytes of a command header.
pub open spec fn cmd_header_bytes(h: CmdHeader) -> Seq<u8> {
    seq![h.op, h.flags, h.version, h.reserved] + spec_u32_to_le_bytes(h.seq) + spec_u32_to_le_bytes(
        h.key_len,
    ) + spec_u32_to_le_bytes(h.val_len) + spec_u64_to_le_bytes(h.extra)
}

/// The header that the first 24 bytes of `b` encode.
pub open spec fn cmd_header_from(b: Seq<u8>) -> CmdHeader {
    CmdHeader {
        op: b[0],
        flags: b[1],
        version: b[2],
        reserved: b[3],
        seq: spec_u32_from_le_bytes(b.subrange(4, 8)),
        key_len: spec_u32_from_le_bytes(b.subrange(8, 12)),
        val_len: spec_u32_from_le_bytes(b.subrange(12, 16)),
        extra: spec_u64_from_le_bytes(b.subrange(16, 24)),
    }
}

/// The 16 bytes of a response header.
pub open spec fn resp_header_bytes(h: RespHeader) -> Seq<u8> {
    seq![h.status, h.flags] + spec_u16_to_le_bytes(h.reserved) + spec_u32_to_le_bytes(h.seq)
        + spec_u32_to_le_bytes(h.payload_len) + spec_u32_to_le_bytes(h.padding)
}

/// The header that the first 16 bytes of `b` encode.
pub open spec fn resp_header_from(b: Seq<u8>) -> RespHeader {
    RespHeader {
        status: b[0],
        flags: b[1],
        reserved: spec_u16_from_le_bytes(b.subrange(2, 4)),
        seq: spec_u32_from_le_bytes(b.subrange(4, 8)),
        payload_len: spec_u32_from_le_bytes(b.subrange(8, 12)),
        padding: spec_u32_from_le_bytes(b.subrange(12, 16)),
    }
}

/// A second-version header with the given lengths and no flags.
pub open spec fn v2_header(op: OpCode, seq: u32, key_len: u32, val_len: u32) -> CmdHeader {
    CmdHeader { op: op.code(), flags: 0, version: PROTOCOL_V2, reserved: 0, seq, key_len, val_len, extra: 0 }
}

/// A response header with the given status and payload length.
pub open spec fn resp_header(status: Status, seq: u32, payload_len: u32) -> RespHeader {
    RespHeader { status: status.code(), flags: 0, reserved: 0, seq, payload_len, padding: 0 }
}

/// A command's header lengths describe its key and value.
pub open spec fn command_consistent(c: Command) -> bool {
    c.header.key_len == c.key@.len() && c.header.val_len == c.value@.len()
}

/// A response's header length describes its payload.
pub open spec fn response_consistent(r: Response) -> bool {
    r.header.payload_len == r.payload@.len()
}

/// A command header written as its 24 bytes reads back as the same header.
pub proof fn lemma_cmd_header_roundtrip(h: CmdHeader)
    ensures
        cmd_header_bytes(h).len() == 24,
        cmd_header_from(cmd_header_bytes(h)) == h,
{
    lemma_auto_spec_u32_to_from_le_bytes();
    lemma_auto_spec_u64_to_from_le_bytes();
    let b = cmd_header_bytes(h);
    assert(b.subrange(4, 8) =~= spec_u32_to_le_bytes(h.seq));
    assert(b.subrange(8, 12) =~= spec_u32_to_le_bytes(h.key_len));
    assert(b.subrange(12, 16) =~= spec_u32_to_le_bytes(h.val_len));
    assert(b.subrange(16, 24) =~= spec_u64_to_le_bytes(h.extra));
}

/// A response header written as its 16 bytes reads back as the same header.
pub proof fn lemma_resp_header_roundtrip(h: RespHeader)
    ensures
        resp_header_bytes(h).len() == 16,
        resp_header_from(resp_header_bytes(h)) == h,
{
    lemma_auto_spec_u32_to_from_le_bytes();
    lemma_auto_spec_u16_to_from_le_bytes();
    let b = resp_header_bytes(h);
    assert(b.subrange(2, 4) =~= spec_u16_to_le_bytes(h.reserved));
    assert(b.subrange(4, 8) =~= spec_u32_to_le_bytes(h.seq));
    assert(b.subrange(8, 12) =~= spec_u32_to_le_bytes(h.payload_len));
    assert(b.subrange(12, 16) =~= spec_u32_to_le_bytes(h.padding));
}

/// Decoding the bytes of a consistent command gives the command back: its
/// header, then its key and value taken from the lengths in the header.
pub proof fn command_roundtrip(c: Command)
    requires
        command_consistent(c),
    ensures
        ({
            let b = cmd_header_bytes(c.header) + c.key@ + c.value@;
            let h = cmd_header_from(b);
            &&& b.len() >= 24
            &&& h == c.header
            &&& b.len() >= 24 + h.key_len + h.val_len
            &&& b.subrange(24, 24 + h.key_len) == c.key@
            &&& b.subrange(24 + h.key_len, 24 + h.key_len + h.val_len) == c.value@
        }),
{
    lemma_cmd_header_roundtrip(c.header);
    let hb = cmd_header_bytes(c.header);
    let b = hb + c.key@ + c.value@;
    assert(b.subrange(0, 24) =~= hb);
    assert(cmd_header_from(b) == cmd_header_from(hb)) by {
        assert(b.subrange(4, 8) =~= hb.subrange(4, 8));
        assert(b.subrange(8, 12) =~= hb.subrange(8, 12));
        assert(b.subrange(12, 16) =~= hb.subrange(12, 16));
        assert(b.subrange(16, 24) =~= hb.subrange(16, 24));
    }
    assert(b.subrange(24, 24 + c.key@.len() as int) =~= c.key@);
    assert(b.subrange(24 + c.key@.len() as int, 24 + c.key@.len() + c.value@.len() as int) =~= c.value@);
}

/// Decoding the bytes of a consistent response gives the response back.
pub proof fn response_roundtrip(r: Response)
    requires
        response_consistent(r),
    ensures
        ({
            let b = resp_header_bytes(r.header) + r.payload@;
            let h = resp_header_from(b);
            &&& b.len() >= 16
            &&& h == r.header
            &&& b.len() >= 16 + h.payload_len
            &&& b.subrange(16, 16 + h.payload_len) == r.payload@
        }),
{
    lemma_resp_header_roundtrip(r.header);
    let hb = resp_header_bytes(r.header);
    let b = hb + r.payload@;
    assert(resp_header_from(b) == resp_header_from(hb)) by {
        assert(b.subrange(2, 4) =~= hb.subrange(2, 4));
        assert(b.subrange(4, 8) =~= hb.subrange(4, 8));
        assert(b.subrange(8, 12) =~= hb.subrange(8, 12));
        assert(b.subrange(12, 16) =~= hb.subrange(12, 16));
    }
    assert(b.subrange(16, 16 + r.payload@.len() as int) =~= r.payload@);
}

pub(crate) fn append_bytes(out: &mut Vec<u8>, b: &[u8])
    ensures
        final(out)@ == old(out)@ + b@,
{
    let mut i: usize = 0;
    let ghost start = out@;
    while i < b.len()
        invariant
            i <= b.len(),
            out@ == start + b@.subrange(0, i as int),
        decreases b.len() - i,
    {
        out.push(b[i]);
        assert(b@.subrange(0, i + 1) =~= b@.subrange(0, i as int).push(b@[i as int]));
        i = i + 1;
    }
    assert(b@.subrange(0, b@.len() as int) =~= b@);
}

// ---------------------------------------------------------------------
// Headers
// ---------------------------------------------------------------------
impl CmdHeader {
    /// A header for the second protocol version with no key or value.
    pub fn new(op: OpCode, seq: u32) -> (r: CmdHeader)
        ensures
            r == (CmdHeader { op: op.code(), flags: 0, version: PROTOCOL_V2, reserved: 0, seq, key_len: 0, val_len: 0, extra: 0 }),
    {
        CmdHeader { op: op.to_u8(), flags: 0, version: PROTOCOL_V2, reserved: 0, seq, key_len: 0, val_len: 0, extra: 0 }
    }

    /// A header for the first protocol version with no key or value.
    pub fn new_v1(op: OpCode, seq: u32) -> (r: CmdHeader)
        ensures
            r == (CmdHeader { op: op.code(), flags: 0, version: PROTOCOL_V1, reserved: 0, seq, key_len: 0, val_len: 0, extra: 0 }),
    {
        CmdHeader { op: op.to_u8(), flags: 0, version: PROTOCOL_V1, reserved: 0, seq, key_len: 0, val_len: 0, extra: 0 }
    }

    /// Sets the key and value lengths.
    pub fn with_key_val(self, key_len: u32, val_len: u32) -> (r: CmdHeader)
        ensures
            r == (CmdHeader { key_len, val_len, ..self }),
    {
        CmdHeader { key_len, val_len, ..self }
    }

    /// Sets the flags.
    pub fn with_flags(self, flags: u8) -> (r: CmdHeader)
        ensures
            r == (CmdHeader { flags, ..self }),
    {
        CmdHeader { flags, ..self }
    }

    /// The operation code, if the byte names one.
    pub fn opcode(&self) -> (r: Result<OpCode, ()>)
        ensures
            match r {
                Ok(op) => op.code() == self.op,
                Err(_) => forall|op: OpCode| #[trigger] op.code() != self.op,
            },
    {
        OpCode::try_from(self.op)
    }

    /// Key length plus value length; the sum must fit in `usize`, as it
    /// always does where `usize` has 64 bits.
    pub fn total_payload_len(&self) -> (r: usize)
        requires
            self.key_len + self.val_len <= usize::MAX,
        ensures
            r == self.key_len + self.val_len,
    {
        self.key_len as usize + self.val_len as usize
    }

    /// Whether all bits of `flag` are set (any, for a single-bit flag).
    pub fn has_flag(&self, flag: u8) -> (r: bool)
        ensures
            r == (self.flags & flag != 0),
    {
        (self.flags & flag) != 0
    }

    /// The 24 wire bytes.
    pub fn to_bytes(&self) -> (r: Vec<u8>)
        ensures
            r@ == cmd_header_bytes(*self),
    {
        let mut out: Vec<u8> = Vec::new();
        out.push(self.op);
        out.push(self.flags);
        out.push(self.version);
        out.push(self.reserved);
        let a = u32_to_le_bytes(self.seq);
        append_bytes(&mut out, a.as_slice());
        let b = u32_to_le_bytes(self.key_len);
        append_bytes(&mut out, b.as_slice());
        let c = u32_to_le_bytes(self.val_len);
        append_bytes(&mut out, c.as_slice());
        let d = u64_to_le_bytes(self.extra);
        append_bytes(&mut out, d.as_slice());
        assert(out@ =~= cmd_header_bytes(*self));
        out
    }

    /// Reads a header from the first 24 bytes.
    pub fn from_slice(bytes: &[u8]) -> (r: CmdHeader)
        requires
            bytes@.len() >= 24,
        ensures
            r == cmd_header_from(bytes@),
    {
        CmdHeader {
            op: bytes[0],
            flags: bytes[1],
            version: bytes[2],
            reserved: bytes[3],
            seq: u32_from_le_bytes(slice_subrange(bytes, 4, 8)),
            key_len: u32_from_le_bytes(slice_subrange(bytes, 8, 12)),
            val_len: u32_from_le_bytes(slice_subrange(bytes, 12, 16)),
            extra: u64_from_le_bytes(slice_subrange(bytes, 16, 24)),
        }
    }
}

impl RespHeader {
    /// A header with the given status and no payload.
    pub fn new(status: Status, seq: u32) -> (r: RespHeader)
        ensures
            r == (RespHeader { status: status.code(), flags: 0, reserved: 0, seq, payload_len: 0, padding: 0 }),
    {
        RespHeader { status: status.to_u8(), flags: 0, reserved: 0, seq, payload_len: 0, padding: 0 }
    }

    /// Sets the payload length.
    pub fn with_payload(self, len: u32) -> (r: RespHeader)
        ensures
            r == (RespHeader { payload_len: len, ..self }),
    {
        RespHeader { payload_len: len, ..self }
    }

    /// The status, if the byte names one.
    pub fn status(&self) -> (r: Result<Status, ()>)
        ensures
            match r {
                Ok(s) => s.code() == self.status,
                Err(_) => forall|s: Status| #[trigger] s.code() != self.status,
            },
    {
        Status::try_from(self.status)
    }

    /// The 16 wire bytes.
    pub fn to_bytes(&self) -> (r: Vec<u8>)
        ensures
            r@ == resp_header_bytes(*self),
    {
        let mut out: Vec<u8> = Vec::new();
        out.push(self.status);
        out.push(self.flags);
        let a = u16_to_le_bytes(self.reserved);
        append_bytes(&mut out, a.as_slice());
        let b = u32_to_le_bytes(self.seq);
        append_bytes(&mut out, b.as_slice());
        let c = u32_to_le_bytes(self.payload_len);
        append_bytes(&mut out, c.as_slice());
        let d = u32_to_le_bytes(self.padding);
        append_bytes(&mut out, d.as_slice());
        assert(out@ =~= resp_header_bytes(*self));
        out
    }

    /// Reads a header from the first 16 bytes.
    pub fn from_slice(bytes: &[u8]) -> (r: RespHeader)
        requires
            bytes@.len() >= 16,
        ensures
            r == resp_header_from(bytes@),
    {
        RespHeader {
            status: bytes[0],
            flags: bytes[1],
            reserved: u16_from_le_bytes(slice_subrange(bytes, 2, 4)),
            seq: u32_from_le_bytes(slice_subrange(bytes, 4, 8)),
            payload_len: u32_from_le_bytes(slice_subrange(bytes, 8, 12)),
            padding: u32_from_le_bytes(slice_subrange(bytes, 12, 16)),
        }
    }
}

// ---------------------------------------------------------------------
// Commands and responses
// ---------------------------------------------------------------------
impl Command {
    /// A second-version command whose header records the key and value lengths.
    pub fn new(op: OpCode, seq: u32, key: Vec<u8>, value: Vec<u8>) -> (r: Command)
        ensures
            r.header == (CmdHeader {
                op: op.code(),
                flags: 0,
                version: PROTOCOL_V2,
                reserved: 0,
                seq,
                key_len: key@.len() as u32,
                val_len: value@.len() as u32,
                extra: 0,
            }),
            r.key == key,
            r.value == value,
    {
        let header = CmdHeader::new(op, seq).with_key_val(key.len() as u32, value.len() as u32);
        Command { header, key, value }
    }

    /// `PING`.
    pub fn ping(seq: u32) -> (r: Command)
        ensures
            r.header == v2_header(OpCode::Ping, seq, 0, 0),
            r.key@.len() == 0,
            r.value@.len() == 0,
    {
        Command::new(OpCode::Ping, seq, Vec::new(), Vec::new())
    }

    /// `GET key`.
    pub fn get(seq: u32, key: Vec<u8>) -> (r: Command)
        ensures
            r.header == v2_header(OpCode::Get, seq, key@.len() as u32, 0),
            r.key == key,
            r.value@.len() == 0,
    {
        Command::new(OpCode::Get, seq, key, Vec::new())
    }

    /// `SET key value`.
    pub fn set(seq: u32, key: Vec<u8>, value: Vec<u8>) -> (r: Command)
        ensures
            r.header == v2_header(OpCode::SetKey, seq, key@.len() as u32, value@.len() as u32),
            r.key == key,
            r.value == value,
    {
        Command::new(OpCode::SetKey, seq, key, value)
    }

    /// `DEL key`.
    pub fn del(seq: u32, key: Vec<u8>) -> (r: Command)
        ensures
            r.header == v2_header(OpCode::Del, seq, key@.len() as u32, 0),
            r.key == key,
            r.value@.len() == 0,
    {
        Command::new(OpCode::Del, seq, key, Vec::new())
    }

    /// Compare-and-swap: a `SET`-like command flagged as carrying an
    /// expected version, which travels in the payload ahead of the new
    /// value, as eight little-endian bytes.
    pub fn cas(seq: u32, key: Vec<u8>, value: Vec<u8>, expected_version: u64) -> (r: Command)
        ensures
            r.header == (CmdHeader {
                flags: flags::CAS_VERSION,
                ..v2_header(OpCode::Cas, seq, key@.len() as u32, (8 + value@.len()) as u32)
            }),
            r.key == key,
            r.value@ == spec_u64_to_le_bytes(expected_version) + value@,
            crate::protocol::compatibility::cas_version(r.value@) == expected_version,
    {
        let mut payload = u64_to_le_bytes(expected_version);
        proof { lemma_auto_spec_u64_to_from_le_bytes(); }
        append_bytes(&mut payload, value.as_slice());
        let ghost p = payload@;
        let mut cmd = Command::new(OpCode::Cas, seq, key, payload);
        cmd.header.flags = cmd.header.flags | flags::CAS_VERSION;
        assert(0u8 | 8u8 == 8u8) by (bit_vector);
        assert(p.take(8) =~= spec_u64_to_le_bytes(expected_version));
        cmd
    }

    /// A command with no key whose value is an already-encoded request.
    pub fn with_payload(op: OpCode, seq: u32, payload: Vec<u8>) -> (r: Command)
        ensures
            r.header == v2_header(op, seq, 0, payload@.len() as u32),
            r.key@.len() == 0,
            r.value == payload,
    {
        Command::new(op, seq, Vec::new(), payload)
    }

    /// Header bytes, then key, then value.
    pub fn to_bytes(&self) -> (r: Vec<u8>)
        ensures
            r@ == cmd_header_bytes(self.header) + self.key@ + self.value@,
    {
        let mut out = self.header.to_bytes();
        append_bytes(&mut out, self.key.as_slice());
        append_bytes(&mut out, self.value.as_slice());
        out
    }

    /// Reads a command: a header, then as many key and value bytes as the
    /// header announces; bytes after them are ignored.
    pub fn from_bytes(bytes: &[u8]) -> (r: Result<Command, &'static str>)
        ensures
            bytes@.len() < 24 ==> (r matches Err(e) && e@ == "Buffer too small for header"@),
            bytes@.len() >= 24 ==> {
                let h = cmd_header_from(bytes@);
                if bytes@.len() < 24 + h.key_len + h.val_len {
                    r matches Err(e) && e@ == "Buffer too small for payload"@
                } else {
                    r matches Ok(c) && c.header == h && c.key@ == bytes@.subrange(24, 24 + h.key_len)
                        && c.value@ == bytes@.subrange(24 + h.key_len, 24 + h.key_len + h.val_len)
                }
            },
    {
        if bytes.len() < 24 {
            return Err("Buffer too small for header");
        }
        let header = CmdHeader::from_slice(bytes);
        let total: u64 = header.key_len as u64 + header.val_len as u64;
        if ((bytes.len() - 24) as u64) < total {
            return Err("Buffer too small for payload");
        }
        let key_end = 24 + header.key_len as usize;
        let val_end = key_end + header.val_len as usize;
        let key = slice_to_vec(slice_subrange(bytes, 24, key_end));
        let value = slice_to_vec(slice_subrange(bytes, key_end, val_end));
        Ok(Command { header, key, value })
    }
}

impl Response {
    /// A response whose header records the payload length.
    pub fn new(status: Status, seq: u32, payload: Vec<u8>) -> (r: Response)
        ensures
            r.header == resp_header(status, seq, payload@.len() as u32),
            r.payload == payload,
    {
        let header = RespHeader::new(status, seq).with_payload(payload.len() as u32);
        Response { header, payload }
    }

    /// `Ok` with a payload.
    pub fn ok(seq: u32, payload: Vec<u8>) -> (r: Response)
        ensures
            r.header == resp_header(Status::Success, seq, payload@.len() as u32),
            r.payload == payload,
    {
        Response::new(Status::Success, seq, payload)
    }

    /// `Error` with no payload.
    pub fn error(seq: u32) -> (r: Response)
        ensures
            r.header == resp_header(Status::Error, seq, 0),
            r.payload@.len() == 0,
    {
        Response::new(Status::Error, seq, Vec::new())
    }

    /// `NotFound` with no payload.
    pub fn not_found(seq: u32) -> (r: Response)
        ensures
            r.header == resp_header(Status::NotFound, seq, 0),
            r.payload@.len() == 0,
    {
        Response::new(Status::NotFound, seq, Vec::new())
    }

    /// Header bytes, then payload.
    pub fn to_bytes(&self) -> (r: Vec<u8>)
        ensures
            r@ == resp_header_bytes(self.header) + self.payload@,
    {
        let mut out = self.header.to_bytes();
        append_bytes(&mut out, self.payload.as_slice());
        out
    }

    /// Reads a response: a header, then as many payload bytes as it announces.
    pub fn from_bytes(bytes: &[u8]) -> (r: Result<Response, &'static str>)
        ensures
            bytes@.len() < 16 ==> (r matches Err(e) && e@ == "Buffer too small for header"@),
            bytes@.len() >= 16 ==> {
                let h = resp_header_from(bytes@);
                if bytes@.len() < 16 + h.payload_len {
                    r matches Err(e) && e@ == "Buffer too small for payload"@
                } else {
                    r matches Ok(resp) && resp.header == h && resp.payload@ == bytes@.subrange(16, 16 + h.payload_len)
                }
            },
    {
        if bytes.len() < 16 {
            return Err("Buffer too small for header");
        }
        let header = RespHeader::from_slice(bytes);
        if bytes.len() - 16 < header.payload_len as usize {
            return Err("Buffer too small for payload");
        }
        let end = 16 + header.payload_len as usize;
        let payload = slice_to_vec(slice_subrange(bytes, 16, end));
        Ok(Response { header, payload })
    }
}

} // verus!

//! The checks a connection makes on each command before it is handled:
//! the size of its payload, and authentication.
use vstd::prelude::*;
use super::{CmdHeader, Command, OpCode, Response, Status, resp_header};

verus! {

/// The most connections served at once.
pub const MAX_CONNECTIONS: usize = 10000;
/// The largest payload (key and value) a command may carry: 16 MiB.
pub const MAX_PAYLOAD_BYTES: usize = 16777216;

/// Errors of a client connection.
#[derive(Debug, Clone, PartialEq, Eq)]
pub enum ConnectionError {
    /// An input or output operation failed; the text describes it.
    IoError(String),
    ReadTimeout,
    WriteTimeout,
    ProtocolError(String),
    PayloadTooLarge,
    TlsError(String),
    AuthError(String),
    ConnectionNotFound,
}

/// The payload length a command header announces, refused above 16 MiB.
pub fn check_payload_size(header: &CmdHeader) -> (r: Result<usize, ConnectionError>)
    ensures
        header.key_len + header.val_len > MAX_PAYLOAD_BYTES
            ==> r == Err::<usize, ConnectionError>(ConnectionError::PayloadTooLarge),
        header.key_len + header.val_len <= MAX_PAYLOAD_BYTES
            ==> r == Ok::<usize, ConnectionError>((header.key_len + header.val_len) as usize),
{
    let n: u64 = header.key_len as u64 + header.val_len as u64;
    if n > MAX_PAYLOAD_BYTES as u64 {
        Err(ConnectionError::PayloadTooLarge)
    } else {
        Ok(n as usize)
    }
}

/// What happens to a command before it is handled.
#[derive(Debug)]
pub enum Admission {
    /// Handle the command, whose operation is this.
    Dispatch(OpCode),
    /// Answer at once with this response.
    Respond(Response),
}

/// The error text for a header whose operation byte names no operation.
pub open spec fn invalid_opcode_text() -> Seq<char> {
    "Invalid opcode"@
}

/// What happens to a (translated) command: an unknown operation is a protocol
/// error; any operation but `AUTH` on a connection that has not
/// authenticated is answered `AuthRequired` with no payload; the rest is
/// handled.
pub fn admit_command(command: &Command, authenticated: bool) -> (r: Result<Admission, ConnectionError>)
    ensures
        (forall|op: OpCode| #[trigger] op.code() != command.header.op)
            ==> (r matches Err(ConnectionError::ProtocolError(m)) && m@ == invalid_opcode_text()),
        forall|op: OpCode| #[trigger] op.code() == command.header.op ==> {
            if op != OpCode::Auth && !authenticated {
                r matches Ok(Admission::Respond(resp))
                    && resp.header == resp_header(Status::AuthRequired, command.header.seq, 0)
                    && resp.payload@.len() == 0
            } else {
                r == Ok::<Admission, ConnectionError>(Admission::Dispatch(op))
            }
        },
{
    match command.header.opcode() {
        Err(_) => {
            let m = String::from_str("Invalid opcode");
            proof { reveal_strlit("Invalid opcode"); }
            Err(ConnectionError::ProtocolError(m))
        },
        Ok(op) => {
            proof {
                assert forall|o: OpCode| #[trigger] o.code() == command.header.op implies o == op by {
                    OpCode::lemma_code_injective(o, op);
                }
            }
            let is_auth = match op {
                OpCode::Auth => true,
                _ => false,
            };
            if !is_auth && !authenticated {
                Ok(Admission::Respond(Response::new(Status::AuthRequired, command.header.seq, Vec::new())))
            } else {
                Ok(Admission::Dispatch(op))
            }
        },
    }
}

} // verus!

//! How replication messages travel on a connection: the message's bytes
//! behind their length as four little-endian bytes, and a limit on the
//! length a receiver accepts.
use vstd::prelude::*;
use vstd::bytes::{spec_u32_to_le_bytes, spec_u32_from_le_bytes, u32_to_le_bytes, u32_from_le_bytes, lemma_auto_spec_u32_to_from_le_bytes};
use crate::protocol::append_bytes;
use crate::util::{concat_str, decimal, decimal_text};
use super::ReplicationError;

verus! {

/// The longest message a receiver accepts: 100 MiB.
pub const MAX_MESSAGE_BYTES: usize = 104857600;

/// A message's bytes behind their length (cut to 32 bits).
pub open spec fn framed_message(bytes: Seq<u8>) -> Seq<u8> {
    spec_u32_to_le_bytes(bytes.len() as u32) + bytes
}

/// The bytes sent for a message.
pub fn frame_message(bytes: &[u8]) -> (r: Vec<u8>)
    ensures
        r@ == framed_message(bytes@),
{
    let mut out = u32_to_le_bytes(bytes.len() as u32);
    append_bytes(&mut out, bytes);
    out
}

/// The error text for an announced length over the limit.
pub open spec fn too_large_text(n: nat) -> Seq<char> {
    "Message too large: "@ + decimal(n) + " bytes"@
}

/// The length a received prefix announces, refused over 100 MiB.
pub fn message_length(prefix: &[u8]) -> (r: Result<usize, ReplicationError>)
    requires
        prefix@.len() == 4,
    ensures
        spec_u32_from_le_bytes(prefix@) <= MAX_MESSAGE_BYTES
            ==> r == Ok::<usize, ReplicationError>(spec_u32_from_le_bytes(prefix@) as usize),
        spec_u32_from_le_bytes(prefix@) > MAX_MESSAGE_BYTES
            ==> (r matches Err(ReplicationError::IoError(m)) && m@ == too_large_text(spec_u32_from_le_bytes(prefix@) as nat)),
{
    let n = u32_from_le_bytes(prefix);
    if n as usize > MAX_MESSAGE_BYTES {
        let digits = decimal_text(n as u64);
        let head = concat_str("Message too large: ", digits.as_str());
        let text = concat_str(head.as_str(), " bytes");
        return Err(ReplicationError::IoError(text));
    }
    Ok(n as usize)
}

/// The length read back from a message's frame is the message's length,
/// for a message of at most 100 MiB.
pub proof fn lemma_frame_round_trip(bytes: Seq<u8>)
    requires
        bytes.len() <= MAX_MESSAGE_BYTES,
    ensures
        framed_message(bytes).take(4).len() == 4,
        spec_u32_from_le_bytes(framed_message(bytes).take(4)) == bytes.len(),
        framed_message(bytes).skip(4) == bytes,
{
    lemma_auto_spec_u32_to_from_le_bytes();
    assert(framed_message(bytes).take(4) =~= spec_u32_to_le_bytes(bytes.len() as u32));
    assert(framed_message(bytes).skip(4) =~= bytes);
}

} // verus!

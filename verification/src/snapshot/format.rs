//! Records of the snapshot file format and the checks made on them.
use vstd::prelude::*;
use vstd::bytes::{spec_u32_to_le_bytes, spec_u64_to_le_bytes, u32_to_le_bytes, u64_to_le_bytes};
use vstd::string::StringExecFns;
use sha2::Digest;
use crate::clock::utc_now_or_epoch;

verus! {

/// The first bytes of every snapshot file: `VEDDB` and three zero bytes.
pub open spec fn snapshot_magic_spec() -> Seq<u8> {
    seq![0x56u8, 0x45u8, 0x44u8, 0x44u8, 0x42u8, 0u8, 0u8, 0u8]
}

/// The last marker of every snapshot file: `VEDDB_END` and a zero byte.
pub open spec fn end_marker_spec() -> Seq<u8> {
    seq![0x56u8, 0x45u8, 0x44u8, 0x44u8, 0x42u8, 0x5fu8, 0x45u8, 0x4eu8, 0x44u8, 0u8]
}

/// The snapshot file magic.
pub fn snapshot_magic() -> (r: [u8; 8])
    ensures
        r@ == snapshot_magic_spec(),
{
    let r: [u8; 8] = [0x56u8, 0x45u8, 0x44u8, 0x44u8, 0x42u8, 0u8, 0u8, 0u8];
    assert(r@ =~= snapshot_magic_spec());
    r
}

/// The snapshot end marker.
pub fn snapshot_end_marker() -> (r: [u8; 10])
    ensures
        r@ == end_marker_spec(),
{
    let r: [u8; 10] = [0x56u8, 0x45u8, 0x44u8, 0x44u8, 0x42u8, 0x5fu8, 0x45u8, 0x4eu8, 0x44u8, 0u8];
    assert(r@ =~= end_marker_spec());
    r
}

/// The current snapshot format version.
pub const SNAPSHOT_VERSION: u32 = 1;
/// The first snapshot format version.
pub const SNAPSHOT_VERSION_V1: u32 = 1;

/// What the SHA-256 hash function gives for `data`.
pub uninterp spec fn sha256_digest(data: Seq<u8>) -> Seq<u8>;

/// The SHA-256 digest of `data`, computed by the `sha2` crate's
/// `Sha256::digest`. The contract names the result: it is a function of the
/// bytes alone.
#[verifier::external_body]
pub(crate) fn sha256(data: &[u8]) -> (r: [u8; 32])
    ensures
        r@ == sha256_digest(data@),
{
    let d = sha2::Sha256::digest(data);
    let mut out = [0u8; 32];
    out.copy_from_slice(&d);
    out
}

/// The checksum algorithm of a snapshot.
#[derive(Debug, Clone, Copy, PartialEq, Eq, Structural)]
pub enum ChecksumAlgo {
    SHA256,
}

impl Default for ChecksumAlgo {
    fn default() -> (r: ChecksumAlgo)
        ensures
            r == ChecksumAlgo::SHA256,
    {
        ChecksumAlgo::SHA256
    }
}

/// The snapshot header.
#[derive(Debug, Clone)]
pub struct SnapshotHeader {
    pub magic: [u8; 8],
    pub version: u32,
    /// Creation time: whole seconds since the Unix epoch.
    pub timestamp: i64,
    /// Creation time: nanoseconds past the second.
    pub timestamp_nanos: u32,
    /// Log sequence number at snapshot time.
    pub sequence: u64,
    pub checksum_algo: ChecksumAlgo,
    pub checksum: [u8; 32],
}

/// The bytes a header's checksum covers: the magic, then the version, the
/// creation second and the sequence number, each little-endian.
pub open spec fn checksummed_bytes(h: SnapshotHeader) -> Seq<u8> {
    h.magic@ + spec_u32_to_le_bytes(h.version) + spec_u64_to_le_bytes(h.timestamp as u64)
        + spec_u64_to_le_bytes(h.sequence)
}

/// The checksum a header should carry.
pub open spec fn header_checksum(h: SnapshotHeader) -> Seq<u8> {
    sha256_digest(checksummed_bytes(h))
}

impl SnapshotHeader {
    /// A header for a snapshot at log position `sequence`, made at the given
    /// time, with the current magic and version and a zero checksum.
    pub fn at(sequence: u64, timestamp: i64, timestamp_nanos: u32) -> (h: SnapshotHeader)
        ensures
            h.magic@ == snapshot_magic_spec(),
            h.version == SNAPSHOT_VERSION,
            h.timestamp == timestamp,
            h.timestamp_nanos == timestamp_nanos,
            h.sequence == sequence,
            h.checksum_algo == ChecksumAlgo::SHA256,
            h.checksum@ == Seq::new(32, |i: int| 0u8),
    {
        let checksum = [0u8; 32];
        assert(checksum@ =~= Seq::new(32, |i: int| 0u8));
        SnapshotHeader {
            magic: snapshot_magic(),
            version: SNAPSHOT_VERSION,
            timestamp,
            timestamp_nanos,
            sequence,
            checksum_algo: ChecksumAlgo::default(),
            checksum,
        }
    }

    /// A header for a snapshot at log position `sequence`, made now.
    pub fn new(sequence: u64) -> (h: SnapshotHeader)
        ensures
            h.magic@ == snapshot_magic_spec(),
            h.version == SNAPSHOT_VERSION,
            h.sequence == sequence,
            h.checksum_algo == ChecksumAlgo::SHA256,
            h.checksum@ == Seq::new(32, |i: int| 0u8),
    {
        let (secs, nanos) = utc_now_or_epoch();
        SnapshotHeader::at(sequence, secs, nanos)
    }

    pub fn verify_magic(&self) -> (b: bool)
        ensures
            b == (self.magic@ == snapshot_magic_spec()),
    {
        let m = snapshot_magic();
        crate::document::bytes_eq(self.magic.as_slice(), m.as_slice())
    }

    /// The SHA-256 digest of the magic, version, creation second and
    /// sequence number.
    pub fn compute_checksum(&self) -> (r: [u8; 32])
        ensures
            r@ == header_checksum(*self),
    {
        let mut data: Vec<u8> = Vec::new();
        let mut i: usize = 0;
        while i < 8
            invariant
                i <= 8,
                data@ == self.magic@.take(i as int),
            decreases 8 - i,
        {
            data.push(self.magic[i]);
            i = i + 1;
            proof { assert(data@ =~= self.magic@.take(i as int)); }
        }
        proof { assert(self.magic@.take(8) =~= self.magic@); }
        let mut v = u32_to_le_bytes(self.version);
        data.append(&mut v);
        let mut t = u64_to_le_bytes(self.timestamp as u64);
        data.append(&mut t);
        let mut s = u64_to_le_bytes(self.sequence);
        data.append(&mut s);
        proof { assert(data@ =~= checksummed_bytes(*self)); }
        sha256(data.as_slice())
    }

    /// Whether the stored checksum is the one the header should carry.
    pub fn verify_checksum(&self) -> (b: bool)
        ensures
            b == (self.checksum@ == header_checksum(*self)),
    {
        let computed = self.compute_checksum();
        crate::document::bytes_eq(computed.as_slice(), self.checksum.as_slice())
    }
}

/// The outcome of checking a header read from a file: the magic, then the
/// version, then the checksum.
pub open spec fn header_check(h: SnapshotHeader) -> Result<(), SnapshotError> {
    if h.magic@ != snapshot_magic_spec() {
        Err(SnapshotError::InvalidMagic)
    } else if h.version != SNAPSHOT_VERSION {
        Err(SnapshotError::InvalidVersion(h.version))
    } else if h.checksum@ != header_checksum(h) {
        Err(SnapshotError::ChecksumMismatch)
    } else {
        Ok(())
    }
}

/// Checks a header read from a file, in the order the reader does.
pub fn check_header(h: &SnapshotHeader) -> (r: Result<(), SnapshotError>)
    ensures
        r == header_check(*h),
{
    if !h.verify_magic() {
        return Err(SnapshotError::InvalidMagic);
    }
    if h.version != SNAPSHOT_VERSION {
        return Err(SnapshotError::InvalidVersion(h.version));
    }
    if !h.verify_checksum() {
        return Err(SnapshotError::ChecksumMismatch);
    }
    Ok(())
}

/// A header whose checksum was set from its own contents passes the checks.
pub proof fn lemma_sealed_header_checks(h: SnapshotHeader)
    requires
        h.magic@ == snapshot_magic_spec(),
        h.version == SNAPSHOT_VERSION,
        h.checksum@ == header_checksum(h),
    ensures
        header_check(h) == Ok::<(), SnapshotError>(()),
{
}

/// The length of the header's text in a fixed-size header block: up to the
/// first zero byte, or the whole block.
pub open spec fn text_len(block: Seq<u8>) -> int
    decreases block.len(),
{
    if block.len() == 0 {
        0
    } else if block[0] == 0 {
        0
    } else {
        1 + text_len(block.drop_first())
    }
}

/// Finds where the header's text ends in a header block.
pub fn header_text_len(block: &[u8]) -> (r: usize)
    ensures
        r == text_len(block@),
{
    let mut i: usize = 0;
    assert(block@.skip(0) =~= block@);
    while i < block.len()
        invariant
            i <= block@.len(),
            text_len(block@) == i + text_len(block@.skip(i as int)),
        decreases block@.len() - i,
    {
        if block[i] == 0 {
            return i;
        }
        proof { assert(block@.skip(i as int).drop_first() =~= block@.skip(i + 1)); }
        i = i + 1;
    }
    i
}

/// The metadata section of a snapshot.
#[derive(Debug, Clone)]
pub struct SnapshotMetadata {
    pub collections_count: u32,
    pub users_count: u32,
    /// Server configuration, as JSON text.
    pub config: String,
}

impl Default for SnapshotMetadata {
    fn default() -> (m: SnapshotMetadata)
        ensures
            m.collections_count == 0,
            m.users_count == 0,
            m.config@ == seq!['{', '}'],
    {
        let config = String::from_str("{}");
        proof { reveal_strlit("{}"); }
        SnapshotMetadata { collections_count: 0, users_count: 0, config }
    }
}

/// The header of one collection in a snapshot.
#[derive(Debug, Clone)]
pub struct CollectionHeader {
    pub name: String,
    /// The collection's schema, as JSON text.
    pub schema_json: String,
    pub document_count: u64,
    pub index_count: u32,
}

/// The snapshot footer.
#[derive(Debug, Clone)]
pub struct SnapshotFooter {
    pub end_marker: [u8; 10],
    /// SHA-256 digest of everything before the footer.
    pub total_checksum: [u8; 32],
}

impl SnapshotFooter {
    pub fn new(total_checksum: [u8; 32]) -> (f: SnapshotFooter)
        ensures
            f.end_marker@ == end_marker_spec(),
            f.total_checksum == total_checksum,
    {
        SnapshotFooter { end_marker: snapshot_end_marker(), total_checksum }
    }

    pub fn verify_end_marker(&self) -> (b: bool)
        ensures
            b == (self.end_marker@ == end_marker_spec()),
    {
        let m = snapshot_end_marker();
        crate::document::bytes_eq(self.end_marker.as_slice(), m.as_slice())
    }
}

/// Errors of snapshot creation and loading.
#[derive(Debug, Clone, PartialEq, Eq)]
pub enum SnapshotError {
    /// An input or output operation failed; the text describes it.
    IoError(String),
    SerializationError(String),
    DeserializationError(String),
    InvalidMagic,
    InvalidVersion(u32),
    ChecksumMismatch,
    InvalidEndMarker,
    NotFound(String),
    Corrupted,
}

} // verus!

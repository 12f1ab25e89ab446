//! The byte layout of a snapshot: a 256-byte block holding the header's
//! text, then length-prefixed records (metadata, collection headers,
//! documents, index definitions), then a 64-byte footer holding the end
//! marker and the SHA-256 digest of every byte before it.
//!
//! The records' text is produced and parsed elsewhere; this module frames
//! it, checks the frame and keeps the checksum.
use vstd::prelude::*;
use vstd::bytes::{spec_u32_to_le_bytes, spec_u32_from_le_bytes, u32_to_le_bytes, u32_from_le_bytes, lemma_auto_spec_u32_to_from_le_bytes};
use vstd::string::StringExecFns;
use vstd::slice::slice_subrange;
use crate::protocol::append_bytes;
use super::format::{
    SnapshotError, SnapshotFooter, end_marker_spec, sha256_digest, sha256, snapshot_end_marker,
    text_len, header_text_len,
};

verus! {

/// Length of the block that holds the header's text.
pub const HEADER_BLOCK_LEN: usize = 256;
/// Length of the footer.
pub const FOOTER_LEN: usize = 64;

/// `n` zero bytes.
pub open spec fn zeros(n: nat) -> Seq<u8> {
    Seq::new(n, |i: int| 0u8)
}

/// The header block: the header's text followed by zero bytes up to 256.
pub open spec fn header_block(text: Seq<u8>) -> Seq<u8> {
    text + zeros((256 - text.len()) as nat)
}

/// A framed record: its length as four little-endian bytes (cut to 32
/// bits), then the record itself.
pub open spec fn framed(record: Seq<u8>) -> Seq<u8> {
    spec_u32_to_le_bytes(record.len() as u32) + record
}

/// The footer: the end marker, the checksum and 22 zero bytes.
pub open spec fn footer_block(checksum: Seq<u8>) -> Seq<u8> {
    end_marker_spec() + checksum + zeros(22)
}

/// The text of the error given when the image ends before a read does.
pub open spec fn short_read_text() -> Seq<char> {
    "failed to fill whole buffer"@
}

/// Whether `e` is the error of a read past the end of the image.
pub open spec fn is_short_read(e: SnapshotError) -> bool {
    e matches SnapshotError::IoError(m) && m@ == short_read_text()
}

/// The header text at the start of `rest`, when a whole block is there.
pub open spec fn header_text_at(rest: Seq<u8>) -> Option<Seq<u8>> {
    if rest.len() < 256 {
        None
    } else {
        let block = rest.take(256);
        Some(block.take(text_len(block)))
    }
}

/// The length a record's prefix announces.
pub open spec fn announced_len(rest: Seq<u8>) -> int {
    spec_u32_from_le_bytes(rest.take(4)) as int
}

/// The record at the start of `rest`, when its prefix and all its bytes
/// are there.
pub open spec fn record_at(rest: Seq<u8>) -> Option<Seq<u8>> {
    if rest.len() < 4 || rest.len() < 4 + announced_len(rest) {
        None
    } else {
        Some(rest.subrange(4, 4 + announced_len(rest)))
    }
}

/// What reading the footer at `pos` in `image` gives: a short read, a bad
/// end marker, a checksum that differs from the digest of the bytes before
/// `pos`, or the footer's marker and checksum.
pub open spec fn footer_at(image: Seq<u8>, pos: int) -> Result<(Seq<u8>, Seq<u8>), SnapshotError> {
    let rest = image.skip(pos);
    if rest.len() < 64 {
        Err(SnapshotError::IoError(arbitrary()))
    } else if rest.take(10) != end_marker_spec() {
        Err(SnapshotError::InvalidEndMarker)
    } else if rest.subrange(10, 42) != sha256_digest(image.take(pos)) {
        Err(SnapshotError::ChecksumMismatch)
    } else {
        Ok((rest.take(10), rest.subrange(10, 42)))
    }
}

proof fn lemma_text_len_bounded(b: Seq<u8>)
    ensures
        0 <= text_len(b) <= b.len(),
    decreases b.len(),
{
    if b.len() > 0 && b[0] != 0 {
        lemma_text_len_bounded(b.drop_first());
    }
}

fn short_read() -> (e: SnapshotError)
    ensures
        is_short_read(e),
{
    let m = String::from_str("failed to fill whole buffer");
    proof { reveal_strlit("failed to fill whole buffer"); }
    SnapshotError::IoError(m)
}

fn push_zeros(out: &mut Vec<u8>, n: usize)
    ensures
        final(out)@ == old(out)@ + zeros(n as nat),
{
    let mut i: usize = 0;
    while i < n
        invariant
            i <= n,
            out@ == old(out)@ + zeros(i as nat),
        decreases n - i,
    {
        out.push(0u8);
        assert(old(out)@ + zeros((i + 1) as nat) =~= (old(out)@ + zeros(i as nat)).push(0u8));
        i = i + 1;
    }
}

/// Builds a snapshot image in memory, keeping every byte written so far;
/// the checksum in the footer covers all of them.
pub struct SnapshotWriter {
    buf: Vec<u8>,
}

impl View for SnapshotWriter {
    type V = Seq<u8>;

    closed spec fn view(&self) -> Seq<u8> {
        self.buf@
    }
}

impl SnapshotWriter {
    /// A writer with nothing written.
    pub fn new() -> (w: SnapshotWriter)
        ensures
            w@ == Seq::<u8>::empty(),
    {
        SnapshotWriter { buf: Vec::new() }
    }

    /// Writes the header block: the header's text, padded with zero bytes
    /// to 256. The text must fit in the block.
    pub fn write_header(&mut self, header_text: &[u8])
        requires
            header_text@.len() <= 256,
        ensures
            final(self)@ == old(self)@ + header_block(header_text@),
    {
        append_bytes(&mut self.buf, header_text);
        push_zeros(&mut self.buf, 256 - header_text.len());
        proof {
            assert(self.buf@ =~= old(self)@ + header_block(header_text@));
        }
    }

    /// Writes one record behind its four-byte little-endian length.
    pub fn write_record(&mut self, record: &[u8])
        ensures
            final(self)@ == old(self)@ + framed(record@),
    {
        let len = record.len() as u32;
        let prefix = u32_to_le_bytes(len);
        append_bytes(&mut self.buf, prefix.as_slice());
        append_bytes(&mut self.buf, record);
        proof {
            assert(self.buf@ =~= old(self)@ + framed(record@));
        }
    }

    /// Writes the metadata record.
    pub fn write_metadata(&mut self, metadata_text: &[u8])
        ensures
            final(self)@ == old(self)@ + framed(metadata_text@),
    {
        self.write_record(metadata_text)
    }

    /// Writes the header record of a collection.
    pub fn write_collection_header(&mut self, header_text: &[u8])
        ensures
            final(self)@ == old(self)@ + framed(header_text@),
    {
        self.write_record(header_text)
    }

    /// Writes one document record.
    pub fn write_document(&mut self, document_text: &[u8])
        ensures
            final(self)@ == old(self)@ + framed(document_text@),
    {
        self.write_record(document_text)
    }

    /// Writes one index-definition record.
    pub fn write_index(&mut self, index_text: &[u8])
        ensures
            final(self)@ == old(self)@ + framed(index_text@),
    {
        self.write_record(index_text)
    }

    /// The number of bytes written so far (the footer is not counted).
    pub fn bytes_written(&self) -> (n: u64)
        ensures
            n == self@.len(),
    {
        self.buf.len() as u64
    }

    /// The finished image: everything written, then the footer with the
    /// SHA-256 digest of everything written.
    pub fn finalize(self) -> (image: Vec<u8>)
        ensures
            sha256_digest(self@).len() == 32,
            image@ == self@ + footer_block(sha256_digest(self@)),
    {
        let ghost body = self.buf@;
        let checksum = sha256(self.buf.as_slice());
        let mut out = self.buf;
        let marker = snapshot_end_marker();
        append_bytes(&mut out, marker.as_slice());
        append_bytes(&mut out, checksum.as_slice());
        push_zeros(&mut out, 22);
        proof {
            assert(out@ =~= body + footer_block(sha256_digest(body)));
        }
        out
    }
}

/// Reads a snapshot image from the front, keeping its place; the checksum
/// in the footer is checked against every byte before the footer.
pub struct SnapshotReader {
    bytes: Vec<u8>,
    pos: usize,
}

impl SnapshotReader {
    #[verifier::type_invariant]
    spec fn in_bounds(self) -> bool {
        self.pos <= self.bytes@.len()
    }

    /// The whole image.
    pub closed spec fn image(&self) -> Seq<u8> {
        self.bytes@
    }

    /// How many bytes have been read.
    pub closed spec fn position(&self) -> int {
        self.pos as int
    }

    /// The bytes not read yet.
    pub open spec fn rest(&self) -> Seq<u8> {
        self.image().skip(self.position())
    }

    /// A reader at the start of `image`.
    pub fn new(image: Vec<u8>) -> (r: SnapshotReader)
        ensures
            r.image() == image@,
            r.position() == 0,
    {
        SnapshotReader { bytes: image, pos: 0 }
    }

    /// How many bytes have been read.
    pub fn bytes_read(&self) -> (n: usize)
        ensures
            n == self.position(),
    {
        self.pos
    }

    /// Reads the header block and gives the header's text: the block up to
    /// its first zero byte.
    pub fn read_header_text(&mut self) -> (r: Result<Vec<u8>, SnapshotError>)
        ensures
            final(self).image() == old(self).image(),
            match header_text_at(old(self).rest()) {
                None => r matches Err(e) && is_short_read(e) && final(self).position() == old(self).position(),
                Some(text) => r matches Ok(t) && t@ == text && final(self).position() == old(self).position() + 256,
            },
    {
        proof { use_type_invariant(&*self); }
        if self.bytes.len() - self.pos < 256 {
            return Err(short_read());
        }
        let block = slice_subrange(self.bytes.as_slice(), self.pos, self.pos + 256);
        let n = header_text_len(block);
        proof { lemma_text_len_bounded(block@); }
        let text = slice_subrange(block, 0, n);
        let mut out: Vec<u8> = Vec::new();
        append_bytes(&mut out, text);
        proof {
            assert(block@ =~= old(self).rest().take(256));
            assert(out@ =~= block@.take(n as int));
        }
        self.pos = self.pos + 256;
        Ok(out)
    }

    /// Reads one record: a four-byte little-endian length, then that many
    /// bytes.
    pub fn read_record(&mut self) -> (r: Result<Vec<u8>, SnapshotError>)
        ensures
            final(self).image() == old(self).image(),
            match record_at(old(self).rest()) {
                None => r matches Err(e) && is_short_read(e) && final(self).position() == old(self).position(),
                Some(rec) => r matches Ok(v) && v@ == rec
                    && final(self).position() == old(self).position() + 4 + rec.len(),
            },
    {
        proof { use_type_invariant(&*self); }
        let avail = self.bytes.len() - self.pos;
        if avail < 4 {
            return Err(short_read());
        }
        let prefix = slice_subrange(self.bytes.as_slice(), self.pos, self.pos + 4);
        proof { assert(prefix@ =~= old(self).rest().take(4)); }
        let n = u32_from_le_bytes(prefix) as usize;
        if avail - 4 < n {
            return Err(short_read());
        }
        let start = self.pos + 4;
        let body = slice_subrange(self.bytes.as_slice(), start, start + n);
        let mut out: Vec<u8> = Vec::new();
        append_bytes(&mut out, body);
        proof {
            assert(out@ =~= old(self).rest().subrange(4, 4 + n as int));
        }
        self.pos = start + n;
        Ok(out)
    }

    /// Reads the 64-byte footer and checks its end marker, then its
    /// checksum against the SHA-256 digest of every byte read before it.
    pub fn read_footer(&mut self) -> (r: Result<SnapshotFooter, SnapshotError>)
        ensures
            final(self).image() == old(self).image(),
            match footer_at(old(self).image(), old(self).position()) {
                Err(SnapshotError::IoError(_)) => r matches Err(e) && is_short_read(e)
                    && final(self).position() == old(self).position(),
                Err(e) => r == Err::<SnapshotFooter, SnapshotError>(e)
                    && final(self).position() == old(self).position() + 64,
                Ok((marker, checksum)) => r matches Ok(f) && f.end_marker@ == marker
                    && f.total_checksum@ == checksum
                    && final(self).position() == old(self).position() + 64,
            },
    {
        proof { use_type_invariant(&*self); }
        if self.bytes.len() - self.pos < 64 {
            return Err(short_read());
        }
        let ghost rest = old(self).rest();
        let p = self.pos;
        let marker_bytes = slice_subrange(self.bytes.as_slice(), p, p + 10);
        let sum_bytes = slice_subrange(self.bytes.as_slice(), p + 10, p + 42);
        let mut end_marker = [0u8; 10];
        let mut i: usize = 0;
        while i < 10
            invariant
                i <= 10,
                marker_bytes@.len() == 10,
                forall|k: int| 0 <= k < i ==> end_marker@[k] == marker_bytes@[k],
            decreases 10 - i,
        {
            end_marker.set(i, marker_bytes[i]);
            i = i + 1;
        }
        let mut total_checksum = [0u8; 32];
        let mut j: usize = 0;
        while j < 32
            invariant
                j <= 32,
                sum_bytes@.len() == 32,
                forall|k: int| 0 <= k < j ==> total_checksum@[k] == sum_bytes@[k],
            decreases 32 - j,
        {
            total_checksum.set(j, sum_bytes[j]);
            j = j + 1;
        }
        proof {
            assert(end_marker@ =~= rest.take(10));
            assert(total_checksum@ =~= rest.subrange(10, 42));
        }
        self.pos = p + 64;
        let footer = SnapshotFooter { end_marker, total_checksum };
        if !footer.verify_end_marker() {
            return Err(SnapshotError::InvalidEndMarker);
        }
        let read_part = slice_subrange(self.bytes.as_slice(), 0, p);
        proof { assert(read_part@ =~= old(self).image().take(p as int)); }
        let computed = sha256(read_part);
        if !crate::document::bytes_eq(computed.as_slice(), footer.total_checksum.as_slice()) {
            return Err(SnapshotError::ChecksumMismatch);
        }
        Ok(footer)
    }
}

proof fn lemma_text_len_prefix(t: Seq<u8>, z: Seq<u8>)
    requires
        forall|i: int| 0 <= i < t.len() ==> t[i] != 0,
        z.len() == 0 || z[0] == 0,
    ensures
        text_len(t + z) == t.len(),
    decreases t.len(),
{
    if t.len() == 0 {
        assert(t + z =~= z);
    } else {
        assert((t + z).drop_first() =~= t.drop_first() + z);
        lemma_text_len_prefix(t.drop_first(), z);
    }
}

/// A header block read back gives the header's text, wherever the block
/// stands and whatever follows it, when the text fits the block and holds
/// no zero byte.
pub proof fn lemma_header_round_trip(before: Seq<u8>, text: Seq<u8>, after: Seq<u8>)
    requires
        text.len() <= 256,
        forall|i: int| 0 <= i < text.len() ==> text[i] != 0,
    ensures
        header_text_at((before + header_block(text) + after).skip(before.len() as int)) == Some(text),
{
    let image = before + header_block(text) + after;
    let rest = image.skip(before.len() as int);
    assert(rest =~= header_block(text) + after);
    let block = rest.take(256);
    assert(block =~= header_block(text));
    lemma_text_len_prefix(text, zeros((256 - text.len()) as nat));
    assert(block.take(text.len() as int) =~= text);
}

/// A framed record read back gives the record, wherever it stands and
/// whatever follows it, when its length fits in 32 bits.
pub proof fn lemma_record_round_trip(before: Seq<u8>, record: Seq<u8>, after: Seq<u8>)
    requires
        record.len() <= u32::MAX,
    ensures
        record_at((before + framed(record) + after).skip(before.len() as int)) == Some(record),
{
    lemma_auto_spec_u32_to_from_le_bytes();
    let image = before + framed(record) + after;
    let rest = image.skip(before.len() as int);
    assert(rest =~= framed(record) + after);
    assert(rest.take(4) =~= spec_u32_to_le_bytes(record.len() as u32));
    assert(announced_len(rest) == record.len());
    assert(rest.subrange(4, 4 + record.len() as int) =~= record);
}

/// The footer that finishes an image is accepted when read right after the
/// bytes it covers, whatever follows it.
pub proof fn lemma_footer_round_trip(body: Seq<u8>, after: Seq<u8>)
    requires
        sha256_digest(body).len() == 32,
    ensures
        footer_at(body + footer_block(sha256_digest(body)) + after, body.len() as int)
            == Ok::<(Seq<u8>, Seq<u8>), SnapshotError>((end_marker_spec(), sha256_digest(body))),
{
    let image = body + footer_block(sha256_digest(body)) + after;
    let rest = image.skip(body.len() as int);
    assert(rest =~= footer_block(sha256_digest(body)) + after);
    assert(rest.take(10) =~= end_marker_spec());
    assert(rest.subrange(10, 42) =~= sha256_digest(body));
    assert(image.take(body.len() as int) =~= body);
}

} // verus!

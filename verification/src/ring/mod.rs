//! Bounded ring buffers of fixed-size slots.
//!
//! A [`Slot`] holds either up to eight bytes inline, packed little-endian into
//! one word, or the length and offset of a payload stored elsewhere; it
//! records which of the two it holds.
pub mod atomic;
pub mod spsc;
pub mod mpmc;

use vstd::prelude::*;
use vstd::bytes::{spec_u64_to_le_bytes, spec_u64_from_le_bytes, u64_to_le_bytes, u64_from_le_bytes, lemma_auto_spec_u64_to_from_le_bytes};
use vstd::slice::{slice_subrange, slice_to_vec};

pub use atomic::AlignedAtomicU64;
pub use spsc::{SpscRing, SpscRingBuffer, is_pow2};
pub use mpmc::{MpmcRing, MpmcRingBuffer};



verus! {

/// The largest payload, in bytes, that a slot stores inline.
pub const INLINE_SIZE: usize = 8;

/// One ring entry: a length (0 for an empty slot) and either the payload
/// itself, packed little-endian, or the offset of the payload, as
/// `in_arena` tells.
#[derive(Debug, Clone, Copy)]
pub struct Slot {
    pub len: u32,
    pub data_or_offset: u64,
    /// Whether `data_or_offset` is the offset of a payload stored elsewhere.
    pub in_arena: bool,
}

/// `data` followed by zero bytes up to eight bytes.
pub open spec fn padded(data: Seq<u8>) -> Seq<u8> {
    data + Seq::new((8 - data.len()) as nat, |i: int| 0u8)
}

/// The slot that stores `data` inline.
pub open spec fn inline_slot(data: Seq<u8>) -> Slot {
    Slot { len: data.len() as u32, data_or_offset: spec_u64_from_le_bytes(padded(data)), in_arena: false }
}

/// Whether a slot holds a payload inline.
pub open spec fn slot_is_inline(s: Slot) -> bool {
    !s.in_arena && 0 < s.len <= 8
}

/// The inline payload of a slot, if it holds one.
pub open spec fn inline_bytes(s: Slot) -> Option<Seq<u8>> {
    if slot_is_inline(s) {
        Some(spec_u64_to_le_bytes(s.data_or_offset).take(s.len as int))
    } else {
        None
    }
}

/// The payload offset of a slot, if it refers to a payload stored elsewhere.
pub open spec fn offset_of(s: Slot) -> Option<u64> {
    if s.in_arena {
        Some(s.data_or_offset)
    } else {
        None
    }
}

/// The empty slot.
pub open spec fn empty_slot() -> Slot {
    Slot { len: 0, data_or_offset: 0, in_arena: false }
}

impl Slot {
    pub fn empty() -> (s: Slot)
        ensures
            s == empty_slot(),
    {
        Slot { len: 0, data_or_offset: 0, in_arena: false }
    }

    /// Packs `data` into a slot when it is at most eight bytes long.
    pub fn inline_data(data: &[u8]) -> (r: Option<Slot>)
        ensures
            data@.len() <= 8 ==> r == Some(inline_slot(data@)),
            data@.len() > 8 ==> r is None,
    {
        if data.len() <= INLINE_SIZE {
            let mut bytes: Vec<u8> = Vec::new();
            let mut i: usize = 0;
            while i < 8
                invariant
                    i <= 8,
                    data@.len() <= 8,
                    bytes@ =~= padded(data@).take(i as int),
                decreases 8 - i,
            {
                if i < data.len() {
                    bytes.push(data[i]);
                } else {
                    bytes.push(0u8);
                }
                i = i + 1;
            }
            assert(bytes@ =~= padded(data@));
            let word = u64_from_le_bytes(bytes.as_slice());
            Some(Slot { len: data.len() as u32, data_or_offset: word, in_arena: false })
        } else {
            None
        }
    }

    /// A slot referring to a payload of `len` bytes stored at `offset`.
    pub fn arena_offset(len: u32, offset: u64) -> (s: Slot)
        ensures
            s.len == len,
            s.data_or_offset == offset,
            s.in_arena,
    {
        Slot { len, data_or_offset: offset, in_arena: true }
    }

    pub fn is_empty(&self) -> (b: bool)
        ensures
            b == (self.len == 0),
    {
        self.len == 0
    }

    pub fn is_inline(&self) -> (b: bool)
        ensures
            b == slot_is_inline(*self),
    {
        !self.in_arena && self.len > 0 && (self.len as usize) <= INLINE_SIZE
    }

    /// The inline payload, or `None` for an empty slot or one that refers
    /// to a payload stored elsewhere.
    pub fn get_inline_data(&self) -> (r: Option<Vec<u8>>)
        ensures
            match r {
                Some(v) => inline_bytes(*self) == Some(v@),
                None => inline_bytes(*self) is None,
            },
    {
        if self.is_inline() {
            let bytes = u64_to_le_bytes(self.data_or_offset);
            let n = self.len as usize;
            let out = slice_to_vec(slice_subrange(bytes.as_slice(), 0, n));
            assert(out@ =~= spec_u64_to_le_bytes(self.data_or_offset).take(self.len as int));
            Some(out)
        } else {
            None
        }
    }

    /// The payload offset, or `None` for a slot that holds no payload
    /// stored elsewhere.
    pub fn get_arena_offset(&self) -> (r: Option<u64>)
        ensures
            r == offset_of(*self),
    {
        if self.in_arena {
            Some(self.data_or_offset)
        } else {
            None
        }
    }
}

/// Packing one to eight bytes into a slot and reading them back gives the
/// same bytes.
pub proof fn lemma_inline_roundtrip(data: Seq<u8>)
    requires
        1 <= data.len() <= 8,
    ensures
        inline_bytes(inline_slot(data)) == Some(data),
{
    lemma_auto_spec_u64_to_from_le_bytes();
    let p = padded(data);
    assert(p.len() == 8);
    assert(spec_u64_to_le_bytes(spec_u64_from_le_bytes(p)) == p);
    assert(p.take(data.len() as int) =~= data);
}

/// A slot built for a stored payload gives back its offset, whatever the
/// payload's length, and holds nothing inline.
pub proof fn lemma_offset_roundtrip(len: u32, offset: u64)
    ensures
        offset_of(Slot { len, data_or_offset: offset, in_arena: true }) == Some(offset),
        inline_bytes(Slot { len, data_or_offset: offset, in_arena: true }) is None,
{
}

} // verus!

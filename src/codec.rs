//! Handles: an (offset, length) pair naming a buffer in guest memory, carried
//! either as two words or packed into one.
use vstd::prelude::*;

use crate::error::WasmError;

verus! {

/// An offset into guest linear memory.
pub type GuestPtr = u32;

/// The byte length of a buffer in guest memory.
pub type Len = u32;

/// The number of distinct 32-bit values; the packed form puts the offset in
/// the high half of a 64-bit word.
pub const HALF: u64 = 0x1_0000_0000;

/// The two conventions a guest build may use to pass a buffer.
#[derive(Debug, Clone, Copy, PartialEq, Eq)]
pub enum Codec {
    Pair,
    Packed,
}

/// A buffer handle as it crosses the boundary.
#[derive(Debug, Clone, Copy, PartialEq, Eq)]
pub enum Handle {
    Pair(GuestPtr, Len),
    Packed(u64),
}

/// The packed word of an (offset, length) pair.
pub open spec fn packed_of(offset: int, len: int) -> int {
    offset * HALF + len
}

/// Whether a value is representable in 32 bits.
pub open spec fn fits32(x: int) -> bool {
    0 <= x < HALF
}

/// The (offset, length) pair that a handle stands for.
pub open spec fn handle_pair(h: Handle) -> (int, int) {
    match h {
        Handle::Pair(o, l) => (o as int, l as int),
        Handle::Packed(w) => (w as int / HALF as int, w as int % HALF as int),
    }
}

/// Whether a handle uses the given convention.
pub open spec fn uses(h: Handle, c: Codec) -> bool {
    match c {
        Codec::Pair => h is Pair,
        Codec::Packed => h is Packed,
    }
}

/// Packs an offset and a length, each of 32 bits, into one word.
pub fn pack(offset: GuestPtr, len: Len) -> (r: u64)
    ensures
        r == packed_of(offset as int, len as int),
{
    assert(offset as int * HALF as int <= 0xffff_ffff * HALF as int) by (nonlinear_arith)
        requires offset <= 0xffff_ffff;
    offset as u64 * HALF + len as u64
}

/// Splits a packed word into its offset (high half) and length (low half).
pub fn unpack(word: u64) -> (r: (GuestPtr, Len))
    ensures
        r.0 as int == word as int / HALF as int,
        r.1 as int == word as int % HALF as int,
{
    assert(word as int / HALF as int <= 0xffff_ffff) by (nonlinear_arith)
        requires word <= 0xffff_ffff_ffff_ffff;
    ((word / HALF) as u32, (word % HALF) as u32)
}

/// Encodes an (offset, length) pair under a convention. Both values must fit
/// in 32 bits, else the pair cannot name guest memory.
pub fn encode(codec: Codec, offset: u64, len: u64) -> (r: Result<Handle, WasmError>)
    ensures
        r is Ok <==> fits32(offset as int) && fits32(len as int),
        r is Ok ==> uses(r->Ok_0, codec) && handle_pair(r->Ok_0) == (offset as int, len as int),
        r is Err ==> r->Err_0 is Memory,
{
    if offset >= HALF || len >= HALF {
        return Err(WasmError::Memory(String::from_str("handle does not fit in 32 bits")));
    }
    let o = offset as u32;
    let l = len as u32;
    match codec {
        Codec::Pair => Ok(Handle::Pair(o, l)),
        Codec::Packed => {
            let w = pack(o, l);
            proof {
                lemma_packed_split(o as int, l as int);
            }
            Ok(Handle::Packed(w))
        },
    }
}

/// The handle of a buffer whose offset and length are already 32-bit.
pub fn handle_for(codec: Codec, offset: GuestPtr, len: Len) -> (r: Handle)
    ensures
        uses(r, codec),
        handle_pair(r) == (offset as int, len as int),
{
    match codec {
        Codec::Pair => Handle::Pair(offset, len),
        Codec::Packed => {
            let w = pack(offset, len);
            proof {
                lemma_packed_split(offset as int, len as int);
            }
            Handle::Packed(w)
        },
    }
}

/// Decodes a handle into the (offset, length) pair it stands for.
pub fn decode(h: Handle) -> (r: (GuestPtr, Len))
    ensures
        (r.0 as int, r.1 as int) == handle_pair(h),
{
    match h {
        Handle::Pair(o, l) => (o, l),
        Handle::Packed(w) => unpack(w),
    }
}

/// The high and low halves of a packed word are the offset and the length.
pub proof fn lemma_packed_split(offset: int, len: int)
    requires
        fits32(offset),
        fits32(len),
    ensures
        packed_of(offset, len) / HALF as int == offset,
        packed_of(offset, len) % HALF as int == len,
{
    let h = HALF as int;
    assert((offset * h + len) / h == offset && (offset * h + len) % h == len) by (nonlinear_arith)
        requires 0 <= len < h, h > 0, 0 <= offset;
}

/// Decoding an encoded pair gives the pair back, under either convention, for
/// every offset and length of 32 bits.
pub proof fn lemma_codec_round_trip(codec: Codec, offset: int, len: int)
    requires
        fits32(offset),
        fits32(len),
    ensures
        handle_pair(
            match codec {
                Codec::Pair => Handle::Pair(offset as u32, len as u32),
                Codec::Packed => Handle::Packed(packed_of(offset, len) as u64),
            },
        ) == (offset, len),
{
    lemma_packed_split(offset, len);
    assert(packed_of(offset, len) < 0x1_0000_0000_0000_0000) by (nonlinear_arith)
        requires fits32(offset), fits32(len);
}

} // verus!

//! Byte-level building blocks of the wire format: alignment and little-endian integers.

use vstd::prelude::*;

verus! {

/// Size of the fixed message header, in bytes.
pub const HEADER_LEN: usize = 16;

/// Number of padding bytes that bring `n` up to a multiple of four.
pub open spec fn pad_len(n: nat) -> nat {
    ((4 - n % 4) % 4) as nat
}

/// `n` rounded up to a multiple of four.
pub open spec fn aligned(n: nat) -> nat {
    n + pad_len(n)
}

pub open spec fn zeros(n: nat) -> Seq<u8> {
    Seq::new(n, |i: int| 0u8)
}

/// Little-endian bytes of a 16-bit value.
pub open spec fn le16(v: u16) -> Seq<u8> {
    seq![(v & 0xff) as u8, (v >> 8) as u8]
}

pub open spec fn le32(v: u32) -> Seq<u8> {
    seq![(v & 0xff) as u8, ((v >> 8) & 0xff) as u8, ((v >> 16) & 0xff) as u8, (v >> 24) as u8]
}

pub open spec fn le64(v: u64) -> Seq<u8> {
    seq![
        (v & 0xff) as u8, ((v >> 8) & 0xff) as u8, ((v >> 16) & 0xff) as u8,
        ((v >> 24) & 0xff) as u8, ((v >> 32) & 0xff) as u8, ((v >> 40) & 0xff) as u8,
        ((v >> 48) & 0xff) as u8, (v >> 56) as u8,
    ]
}

/// The 16-bit value whose little-endian bytes are `b[0..2]`.
pub open spec fn read16(b: Seq<u8>) -> u16 {
    (b[0] as u16) | ((b[1] as u16) << 8)
}

pub open spec fn read32(b: Seq<u8>) -> u32 {
    (b[0] as u32) | ((b[1] as u32) << 8) | ((b[2] as u32) << 16) | ((b[3] as u32) << 24)
}

pub open spec fn read64(b: Seq<u8>) -> u64 {
    (b[0] as u64) | ((b[1] as u64) << 8) | ((b[2] as u64) << 16) | ((b[3] as u64) << 24)
        | ((b[4] as u64) << 32) | ((b[5] as u64) << 40) | ((b[6] as u64) << 48) | ((b[7] as u64)
        << 56)
}

pub proof fn lemma_le16_round_trip(v: u16)
    ensures
        read16(le16(v)) == v,
{
    assert(((v & 0xff) as u8 as u16) | (((v >> 8) as u8 as u16) << 8) == v) by (bit_vector);
}

pub proof fn lemma_le32_round_trip(v: u32)
    ensures
        read32(le32(v)) == v,
{
    assert(((v & 0xff) as u8 as u32) | ((((v >> 8) & 0xff) as u8 as u32) << 8) | ((((v >> 16)
        & 0xff) as u8 as u32) << 16) | (((v >> 24) as u8 as u32) << 24) == v) by (bit_vector);
}

pub proof fn lemma_le64_round_trip(v: u64)
    ensures
        read64(le64(v)) == v,
{
    assert(((v & 0xff) as u8 as u64) | ((((v >> 8) & 0xff) as u8 as u64) << 8) | ((((v >> 16)
        & 0xff) as u8 as u64) << 16) | ((((v >> 24) & 0xff) as u8 as u64) << 24) | ((((v >> 32)
        & 0xff) as u8 as u64) << 32) | ((((v >> 40) & 0xff) as u8 as u64) << 40) | ((((v >> 48)
        & 0xff) as u8 as u64) << 48) | (((v >> 56) as u8 as u64) << 56) == v) by (bit_vector);
}

} // verus!

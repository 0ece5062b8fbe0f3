//! Little-endian integers, as every multi-byte field of the container is
//! written.

use vstd::prelude::*;
use byteorder::{ByteOrder, LittleEndian};

verus! {

/// The two bytes of a 16-bit field, low byte first.
pub open spec fn le_u16(n: u16) -> Seq<u8> {
    seq![(n % 256) as u8, (n / 256) as u8]
}

/// The four bytes of a 32-bit field, low byte first.
pub open spec fn le_u32(n: u32) -> Seq<u8> {
    seq![
        (n % 256) as u8,
        (n / 256 % 256) as u8,
        (n / 65536 % 256) as u8,
        (n / 16777216) as u8,
    ]
}

/// What a reader makes of the two bytes at `at`.
pub open spec fn u16_at(bytes: Seq<u8>, at: int) -> int
    recommends
        0 <= at,
        at + 2 <= bytes.len(),
{
    bytes[at] + 256 * bytes[at + 1]
}

/// What a reader makes of the four bytes at `at`.
pub open spec fn u32_at(bytes: Seq<u8>, at: int) -> int
    recommends
        0 <= at,
        at + 4 <= bytes.len(),
{
    bytes[at] + 256 * bytes[at + 1] + 65536 * bytes[at + 2] + 16777216 * bytes[at + 3]
}

/// `byteorder::LittleEndian::write_u16` on a buffer of two bytes, which it
/// fills with the little-endian bytes of `n`. Trusted: the returned buffer
/// holds the low byte of `n` first, then the high byte.
#[verifier::external_body]
fn u16_le_bytes(n: u16) -> (buf: [u8; 2])
    ensures
        buf@ == le_u16(n),
{
    let mut buf: [u8; 2] = [0u8; 2];
    LittleEndian::write_u16(&mut buf, n);
    buf
}

/// `byteorder::LittleEndian::write_u32` on a buffer of four bytes, which it
/// fills with the little-endian bytes of `n`. Trusted: the returned buffer
/// holds the four bytes of `n` from the lowest to the highest.
#[verifier::external_body]
fn u32_le_bytes(n: u32) -> (buf: [u8; 4])
    ensures
        buf@ == le_u32(n),
{
    let mut buf: [u8; 4] = [0u8; 4];
    LittleEndian::write_u32(&mut buf, n);
    buf
}

/// Appends a 16-bit field to `out`.
pub fn put_u16(out: &mut Vec<u8>, n: u16)
    ensures
        final(out)@ == old(out)@ + le_u16(n),
{
    let buf: [u8; 2] = u16_le_bytes(n);
    out.push(buf[0]);
    out.push(buf[1]);
}

/// Appends a 32-bit field to `out`.
pub fn put_u32(out: &mut Vec<u8>, n: u32)
    ensures
        final(out)@ == old(out)@ + le_u32(n),
{
    let buf: [u8; 4] = u32_le_bytes(n);
    out.push(buf[0]);
    out.push(buf[1]);
    out.push(buf[2]);
    out.push(buf[3]);
}

/// A 16-bit field reads back as the number that was written, wherever in a
/// byte string it stands.
pub proof fn lemma_u16_reads_back(bytes: Seq<u8>, at: int, n: u16)
    requires
        0 <= at,
        at + 2 <= bytes.len(),
        bytes.subrange(at, at + 2) == le_u16(n),
    ensures
        u16_at(bytes, at) == n,
{
}

/// A 32-bit field reads back as the number that was written, wherever in a
/// byte string it stands.
pub proof fn lemma_u32_reads_back(bytes: Seq<u8>, at: int, n: u32)
    requires
        0 <= at,
        at + 4 <= bytes.len(),
        bytes.subrange(at, at + 4) == le_u32(n),
    ensures
        u32_at(bytes, at) == n,
{
}

} // verus!

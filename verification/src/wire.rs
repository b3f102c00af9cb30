//! Little-endian integers on the wire.
use byteorder::{ByteOrder, LittleEndian};
use vstd::prelude::*;

verus! {

/// The two bytes of `n`, least significant first.
pub open spec fn le_u16(n: u16) -> Seq<u8> {
    seq![(n % 256) as u8, (n / 256) as u8]
}

/// The four bytes of `n`, least significant first.
pub open spec fn le_u32(n: u32) -> Seq<u8> {
    seq![(n % 256) as u8, (n / 256 % 256) as u8, (n / 65536 % 256) as u8, (n / 16777216) as u8]
}

/// A signed 16-bit integer is written as its two's-complement bits.
pub open spec fn le_i16(n: i16) -> Seq<u8> {
    le_u16(n as u16)
}

/// A signed 32-bit integer is written as its two's-complement bits.
pub open spec fn le_i32(n: i32) -> Seq<u8> {
    le_u32(n as u32)
}

/// `byteorder::LittleEndian::write_u16`: stores the two bytes of `n`, least
/// significant first (the crate copies `n.to_le_bytes()`).
#[verifier::external_body]
fn le_bytes_u16(n: u16) -> (b: [u8; 2])
    ensures
        b@ == le_u16(n),
{
    let mut b = [0u8; 2];
    LittleEndian::write_u16(&mut b, n);
    b
}

/// Appends the little-endian bytes of `n`.
pub fn put_u16(out: &mut Vec<u8>, n: u16)
    ensures
        final(out)@ == old(out)@ + le_u16(n),
{
    let b = le_bytes_u16(n);
    out.push(b[0]);
    out.push(b[1]);
}

/// `byteorder::LittleEndian::write_u32`: stores the four bytes of `n`, least
/// significant first (the crate copies `n.to_le_bytes()`).
#[verifier::external_body]
fn le_bytes_u32(n: u32) -> (b: [u8; 4])
    ensures
        b@ == le_u32(n),
{
    let mut b = [0u8; 4];
    LittleEndian::write_u32(&mut b, n);
    b
}

/// `byteorder::LittleEndian::write_i16`: the crate writes `n as u16` as an
/// unsigned 16-bit integer, least significant byte first.
#[verifier::external_body]
fn le_bytes_i16(n: i16) -> (b: [u8; 2])
    ensures
        b@ == le_i16(n),
{
    let mut b = [0u8; 2];
    LittleEndian::write_i16(&mut b, n);
    b
}

/// `byteorder::LittleEndian::write_i32`: the crate writes `n as u32` as an
/// unsigned 32-bit integer, least significant byte first.
#[verifier::external_body]
fn le_bytes_i32(n: i32) -> (b: [u8; 4])
    ensures
        b@ == le_i32(n),
{
    let mut b = [0u8; 4];
    LittleEndian::write_i32(&mut b, n);
    b
}

/// Appends one byte.
pub fn put_u8(out: &mut Vec<u8>, n: u8)
    ensures
        final(out)@ == old(out)@ + seq![n],
{
    out.push(n);
}

/// Appends the little-endian bytes of `n`.
pub fn put_u32(out: &mut Vec<u8>, n: u32)
    ensures
        final(out)@ == old(out)@ + le_u32(n),
{
    let b = le_bytes_u32(n);
    out.push(b[0]);
    out.push(b[1]);
    out.push(b[2]);
    out.push(b[3]);
}

/// Appends the little-endian two's-complement bytes of `n`.
pub fn put_i16(out: &mut Vec<u8>, n: i16)
    ensures
        final(out)@ == old(out)@ + le_i16(n),
{
    let b = le_bytes_i16(n);
    out.push(b[0]);
    out.push(b[1]);
}

/// Appends the little-endian two's-complement bytes of `n`.
pub fn put_i32(out: &mut Vec<u8>, n: i32)
    ensures
        final(out)@ == old(out)@ + le_i32(n),
{
    let b = le_bytes_i32(n);
    out.push(b[0]);
    out.push(b[1]);
    out.push(b[2]);
    out.push(b[3]);
}

/// Appends every byte of `bytes`, in order.
pub fn put_bytes(out: &mut Vec<u8>, bytes: &[u8])
    ensures
        final(out)@ == old(out)@ + bytes@,
{
    let mut i: usize = 0;
    while i < bytes.len()
        invariant
            i <= bytes@.len(),
            out@ == old(out)@ + bytes@.take(i as int),
        decreases bytes@.len() - i,
    {
        out.push(bytes[i]);
        i = i + 1;
        assert(bytes@.take(i as int) =~= bytes@.take(i - 1) + seq![bytes@[i - 1]]);
    }
    assert(bytes@.take(i as int) =~= bytes@);
}

} // verus!

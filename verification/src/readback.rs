//! Reading numbers back out of written bytes, and the laws that say which
//! number each position of a written record holds.
//!
//! The readers here are defined from byte values and place values alone, so
//! each law below says what a writer's output means independently of how the
//! layout in `format` is phrased.
use crate::wire::{le_i16, le_i32, le_u16, le_u32};
use vstd::prelude::*;

verus! {

/// The unsigned 16-bit number stored least significant byte first at `i`.
pub open spec fn u16_at(b: Seq<u8>, i: int) -> int {
    b[i] as int + 256 * (b[i + 1] as int)
}

/// The unsigned 32-bit number stored least significant byte first at `i`.
pub open spec fn u32_at(b: Seq<u8>, i: int) -> int {
    u16_at(b, i) + 65536 * u16_at(b, i + 2)
}

/// The signed (two's-complement) 16-bit number stored at `i`.
pub open spec fn i16_at(b: Seq<u8>, i: int) -> int {
    if u16_at(b, i) >= 32768 {
        u16_at(b, i) - 65536
    } else {
        u16_at(b, i)
    }
}

/// The signed (two's-complement) 32-bit number stored at `i`.
pub open spec fn i32_at(b: Seq<u8>, i: int) -> int {
    if u32_at(b, i) >= 0x8000_0000 {
        u32_at(b, i) - 0x1_0000_0000
    } else {
        u32_at(b, i)
    }
}

/// Two little-endian bytes read back as the number they were written from.
pub proof fn law_le_u16_reads_back(n: u16)
    ensures
        le_u16(n).len() == 2,
        u16_at(le_u16(n), 0) == n,
{
}

/// Four little-endian bytes read back as the number they were written from.
pub proof fn law_le_u32_reads_back(n: u32)
    ensures
        le_u32(n).len() == 4,
        u32_at(le_u32(n), 0) == n,
{
    let b = le_u32(n);
    assert(u16_at(b, 0) == n % 65536);
    assert(u16_at(b, 2) == n / 65536);
}

/// A signed 16-bit number reads back as itself.
pub proof fn law_le_i16_reads_back(n: i16)
    ensures
        le_i16(n).len() == 2,
        i16_at(le_i16(n), 0) == n,
{
    law_le_u16_reads_back(n as u16);
    assert(n >= 0 ==> n as u16 as i32 == n as i32) by (bit_vector);
    assert(n < 0 ==> n as u16 as i32 == n as i32 + 65536) by (bit_vector);
}

/// A signed 32-bit number reads back as itself.
pub proof fn law_le_i32_reads_back(n: i32)
    ensures
        le_i32(n).len() == 4,
        i32_at(le_i32(n), 0) == n,
{
    law_le_u32_reads_back(n as u32);
    assert(n >= 0 ==> n as u32 as i64 == n as i64) by (bit_vector);
    assert(n < 0 ==> n as u32 as i64 == n as i64 + 0x1_0000_0000) by (bit_vector);
}

/// A number read after a prefix is read in what follows the prefix.
pub proof fn lemma_u16_shift(a: Seq<u8>, b: Seq<u8>, i: int)
    requires
        0 <= i,
        i + 2 <= b.len(),
    ensures
        u16_at(a + b, a.len() + i) == u16_at(b, i),
{
    assert((a + b)[a.len() + i] == b[i]);
    assert((a + b)[a.len() + i + 1] == b[i + 1]);
}

/// A number read inside a prefix is read in the prefix alone.
pub proof fn lemma_u16_prefix(a: Seq<u8>, b: Seq<u8>, i: int)
    requires
        0 <= i,
        i + 2 <= a.len(),
    ensures
        u16_at(a + b, i) == u16_at(a, i),
{
    assert((a + b)[i] == a[i]);
    assert((a + b)[i + 1] == a[i + 1]);
}

/// `lemma_u16_shift` for signed 16-bit numbers and for 32-bit numbers.
pub proof fn lemma_shift(a: Seq<u8>, b: Seq<u8>, i: int)
    requires
        0 <= i,
        i + 2 <= b.len(),
    ensures
        i16_at(a + b, a.len() + i) == i16_at(b, i),
        i + 4 <= b.len() ==> i32_at(a + b, a.len() + i) == i32_at(b, i),
{
    lemma_u16_shift(a, b, i);
    if i + 4 <= b.len() {
        lemma_u16_shift(a, b, i + 2);
    }
}

/// `lemma_u16_prefix` for signed 16-bit numbers and for 32-bit numbers.
pub proof fn lemma_prefix(a: Seq<u8>, b: Seq<u8>, i: int)
    requires
        0 <= i,
        i + 2 <= a.len(),
    ensures
        i16_at(a + b, i) == i16_at(a, i),
        i + 4 <= a.len() ==> i32_at(a + b, i) == i32_at(a, i),
{
    lemma_u16_prefix(a, b, i);
    if i + 4 <= a.len() {
        lemma_u16_prefix(a, b, i + 2);
    }
}

} // verus!

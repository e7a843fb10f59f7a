//! Big-endian integer fields, read and written through `byteorder`.
use vstd::prelude::*;
use byteorder::{BigEndian, ByteOrder};

verus! {

/// The four bytes of `n`, most significant first.
pub open spec fn be_bytes_u32(n: u32) -> Seq<u8> {
    seq![(n >> 24u32) as u8, (n >> 16u32) as u8, (n >> 8u32) as u8, n as u8]
}

/// The eight bytes of `n`, most significant first.
pub open spec fn be_bytes_u64(n: u64) -> Seq<u8> {
    seq![
        (n >> 56u64) as u8,
        (n >> 48u64) as u8,
        (n >> 40u64) as u8,
        (n >> 32u64) as u8,
        (n >> 24u64) as u8,
        (n >> 16u64) as u8,
        (n >> 8u64) as u8,
        n as u8,
    ]
}

/// The number whose big-endian bytes are `b[0..2]`.
pub open spec fn be_value_u16(b: Seq<u8>) -> u16 {
    ((b[0] as u16) << 8u16) | (b[1] as u16)
}

/// The number whose big-endian bytes are `b[0..4]`.
pub open spec fn be_value_u32(b: Seq<u8>) -> u32 {
    ((b[0] as u32) << 24u32) | ((b[1] as u32) << 16u32) | ((b[2] as u32) << 8u32) | (b[3] as u32)
}

/// The number whose big-endian bytes are `b[0..8]`.
pub open spec fn be_value_u64(b: Seq<u8>) -> u64 {
    ((b[0] as u64) << 56u64) | ((b[1] as u64) << 48u64) | ((b[2] as u64) << 40u64) | ((b[3] as u64)
        << 32u64) | ((b[4] as u64) << 24u64) | ((b[5] as u64) << 16u64) | ((b[6] as u64) << 8u64)
        | (b[7] as u64)
}

/// Reading back the bytes of a `u32` gives the number.
pub proof fn lemma_be_u32_value_of_bytes(n: u32)
    ensures
        be_value_u32(be_bytes_u32(n)) == n,
{
    let b = be_bytes_u32(n);
    assert(b[0] == (n >> 24u32) as u8 && b[1] == (n >> 16u32) as u8 && b[2] == (n >> 8u32) as u8
        && b[3] == n as u8);
    assert(((((n >> 24u32) as u8) as u32) << 24u32) | ((((n >> 16u32) as u8) as u32) << 16u32) | ((((
    n >> 8u32) as u8) as u32) << 8u32) | ((n as u8) as u32) == n) by (bit_vector);
}

/// Writing the number read from four bytes gives those bytes back.
pub proof fn lemma_be_u32_bytes_of_value(b: Seq<u8>)
    requires
        b.len() == 4,
    ensures
        be_bytes_u32(be_value_u32(b)) == b,
{
    let b0 = b[0];
    let b1 = b[1];
    let b2 = b[2];
    let b3 = b[3];
    let v = be_value_u32(b);
    assert(v == ((b0 as u32) << 24u32) | ((b1 as u32) << 16u32) | ((b2 as u32) << 8u32) | (
    b3 as u32));
    assert({
        let x = ((b0 as u32) << 24u32) | ((b1 as u32) << 16u32) | ((b2 as u32) << 8u32) | (
        b3 as u32);
        &&& (x >> 24u32) as u8 == b0
        &&& (x >> 16u32) as u8 == b1
        &&& (x >> 8u32) as u8 == b2
        &&& x as u8 == b3
    }) by (bit_vector);
    assert(be_bytes_u32(v) =~= b);
}

/// Reading back the bytes of a `u64` gives the number.
pub proof fn lemma_be_u64_value_of_bytes(n: u64)
    ensures
        be_value_u64(be_bytes_u64(n)) == n,
{
    let b = be_bytes_u64(n);
    assert(b[0] == (n >> 56u64) as u8 && b[1] == (n >> 48u64) as u8 && b[2] == (n >> 40u64) as u8
        && b[3] == (n >> 32u64) as u8 && b[4] == (n >> 24u64) as u8 && b[5] == (n >> 16u64) as u8
        && b[6] == (n >> 8u64) as u8 && b[7] == n as u8);
    assert(((((n >> 56u64) as u8) as u64) << 56u64) | ((((n >> 48u64) as u8) as u64) << 48u64) | ((((
    n >> 40u64) as u8) as u64) << 40u64) | ((((n >> 32u64) as u8) as u64) << 32u64) | ((((n
        >> 24u64) as u8) as u64) << 24u64) | ((((n >> 16u64) as u8) as u64) << 16u64) | ((((n
        >> 8u64) as u8) as u64) << 8u64) | ((n as u8) as u64) == n) by (bit_vector);
}

/// The number read from two big-endian bytes is `256 * b[0] + b[1]`.
pub proof fn lemma_be_u16_arith(b: Seq<u8>)
    requires
        b.len() == 2,
    ensures
        be_value_u16(b) as int == 256 * (b[0] as int) + (b[1] as int),
{
    let b0 = b[0];
    let b1 = b[1];
    assert(((b0 as u16) << 8u16) == (b0 as u16) * 256) by (bit_vector);
    assert(((b0 as u16) << 8u16) | (b1 as u16) == ((b0 as u16) << 8u16) + (b1 as u16)) by (bit_vector);
}
/// The number read from four big-endian bytes is
/// `2^24 * b[0] + 2^16 * b[1] + 2^8 * b[2] + b[3]`.
pub proof fn lemma_be_u32_arith(b: Seq<u8>)
    requires
        b.len() == 4,
    ensures
        be_value_u32(b) as int == 16777216 * (b[0] as int) + 65536 * (b[1] as int) + 256 * (
        b[2] as int) + (b[3] as int),
{
    let b0 = b[0];
    let b1 = b[1];
    let b2 = b[2];
    let b3 = b[3];
    assert(((b0 as u32) << 24u32) == (b0 as u32) * 16777216) by (bit_vector);
    assert(((b1 as u32) << 16u32) == (b1 as u32) * 65536) by (bit_vector);
    assert(((b2 as u32) << 8u32) == (b2 as u32) * 256) by (bit_vector);
    assert(((b0 as u32) << 24u32) | ((b1 as u32) << 16u32) | ((b2 as u32) << 8u32) | (b3 as u32)
        == ((b0 as u32) << 24u32) + ((b1 as u32) << 16u32) + ((b2 as u32) << 8u32) + (b3 as u32))
        by (bit_vector);
}
/// The number read from eight big-endian bytes is the sum of `b[i]` times
/// `2^(8 * (7 - i))`.
pub proof fn lemma_be_u64_arith(b: Seq<u8>)
    requires
        b.len() == 8,
    ensures
        be_value_u64(b) as int == 72057594037927936 * (b[0] as int) + 281474976710656 * (
        b[1] as int) + 1099511627776 * (b[2] as int) + 4294967296 * (b[3] as int) + 16777216 * (
        b[4] as int) + 65536 * (b[5] as int) + 256 * (b[6] as int) + (b[7] as int),
{
    let b0 = b[0];
    let b1 = b[1];
    let b2 = b[2];
    let b3 = b[3];
    let b4 = b[4];
    let b5 = b[5];
    let b6 = b[6];
    let b7 = b[7];
    assert(((b0 as u64) << 56u64) == (b0 as u64) * 72057594037927936) by (bit_vector);
    assert(((b1 as u64) << 48u64) == (b1 as u64) * 281474976710656) by (bit_vector);
    assert(((b2 as u64) << 40u64) == (b2 as u64) * 1099511627776) by (bit_vector);
    assert(((b3 as u64) << 32u64) == (b3 as u64) * 4294967296) by (bit_vector);
    assert(((b4 as u64) << 24u64) == (b4 as u64) * 16777216) by (bit_vector);
    assert(((b5 as u64) << 16u64) == (b5 as u64) * 65536) by (bit_vector);
    assert(((b6 as u64) << 8u64) == (b6 as u64) * 256) by (bit_vector);
    assert(((b0 as u64) << 56u64) | ((b1 as u64) << 48u64) | ((b2 as u64) << 40u64) | ((b3 as u64)
        << 32u64) | ((b4 as u64) << 24u64) | ((b5 as u64) << 16u64) | ((b6 as u64) << 8u64) | (
    b7 as u64) == ((b0 as u64) << 56u64) + ((b1 as u64) << 48u64) + ((b2 as u64) << 40u64) + ((
    b3 as u64) << 32u64) + ((b4 as u64) << 24u64) + ((b5 as u64) << 16u64) + ((b6 as u64)
        << 8u64) + (b7 as u64)) by (bit_vector);
}

/// Writing the number read from eight bytes gives those bytes back.
pub proof fn lemma_be_u64_bytes_of_value(b: Seq<u8>)
    requires
        b.len() == 8,
    ensures
        be_bytes_u64(be_value_u64(b)) == b,
{
    let b0 = b[0];
    let b1 = b[1];
    let b2 = b[2];
    let b3 = b[3];
    let b4 = b[4];
    let b5 = b[5];
    let b6 = b[6];
    let b7 = b[7];
    let v = be_value_u64(b);
    assert(v == ((b0 as u64) << 56u64) | ((b1 as u64) << 48u64) | ((b2 as u64) << 40u64) | ((
    b3 as u64) << 32u64) | ((b4 as u64) << 24u64) | ((b5 as u64) << 16u64) | ((b6 as u64)
        << 8u64) | (b7 as u64));
    assert({
        let x = ((b0 as u64) << 56u64) | ((b1 as u64) << 48u64) | ((b2 as u64) << 40u64) | ((
        b3 as u64) << 32u64) | ((b4 as u64) << 24u64) | ((b5 as u64) << 16u64) | ((b6 as u64)
            << 8u64) | (b7 as u64);
        &&& (x >> 56u64) as u8 == b0
        &&& (x >> 48u64) as u8 == b1
        &&& (x >> 40u64) as u8 == b2
        &&& (x >> 32u64) as u8 == b3
        &&& (x >> 24u64) as u8 == b4
        &&& (x >> 16u64) as u8 == b5
        &&& (x >> 8u64) as u8 == b6
        &&& x as u8 == b7
    }) by (bit_vector);
    assert(be_bytes_u64(v) =~= b);
}

/// Calls `BigEndian::read_u16` on `buf[at..]`: byteorder reads the first two
/// bytes of the slice with `u16::from_be_bytes`.
#[verifier::external_body]
pub(crate) fn read_u16_be(buf: &[u8], at: usize) -> (n: u16)
    requires
        at + 2 <= buf@.len(),
    ensures
        n == be_value_u16(buf@.subrange(at as int, at + 2)),
{
    BigEndian::read_u16(&buf[at..])
}

/// Calls `BigEndian::read_u32` on `buf[at..]`: byteorder reads the first four
/// bytes of the slice with `u32::from_be_bytes`.
#[verifier::external_body]
pub(crate) fn read_u32_be(buf: &[u8], at: usize) -> (n: u32)
    requires
        at + 4 <= buf@.len(),
    ensures
        n == be_value_u32(buf@.subrange(at as int, at + 4)),
{
    BigEndian::read_u32(&buf[at..])
}

/// Calls `BigEndian::read_u64` on `buf[at..]`: byteorder reads the first eight
/// bytes of the slice with `u64::from_be_bytes`.
#[verifier::external_body]
pub(crate) fn read_u64_be(buf: &[u8], at: usize) -> (n: u64)
    requires
        at + 8 <= buf@.len(),
    ensures
        n == be_value_u64(buf@.subrange(at as int, at + 8)),
{
    BigEndian::read_u64(&buf[at..])
}

/// Calls `BigEndian::write_u32` on `buf[at..]`: byteorder copies
/// `n.to_be_bytes()` over the first four bytes of the slice and leaves the
/// rest alone.
#[verifier::external_body]
pub(crate) fn write_u32_be(buf: &mut [u8], at: usize, n: u32)
    requires
        at + 4 <= old(buf)@.len(),
    ensures
        final(buf)@ == old(buf)@.subrange(0, at as int) + be_bytes_u32(n) + old(buf)@.subrange(
            at + 4,
            old(buf)@.len() as int,
        ),
{
    BigEndian::write_u32(&mut buf[at..], n)
}

/// Calls `BigEndian::write_u64` on `buf[at..]`: byteorder copies
/// `n.to_be_bytes()` over the first eight bytes of the slice and leaves the
/// rest alone.
#[verifier::external_body]
pub(crate) fn write_u64_be(buf: &mut [u8], at: usize, n: u64)
    requires
        at + 8 <= old(buf)@.len(),
    ensures
        final(buf)@ == old(buf)@.subrange(0, at as int) + be_bytes_u64(n) + old(buf)@.subrange(
            at + 8,
            old(buf)@.len() as int,
        ),
{
    BigEndian::write_u64(&mut buf[at..], n)
}

} // verus!

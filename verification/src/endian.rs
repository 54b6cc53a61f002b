//! Fixed-width integers as byte sequences, in both byte orders.

use byteorder::{BigEndian, ByteOrder, LittleEndian};
use vstd::prelude::*;

verus! {

/// The number that four bytes spell, least significant byte first.
#[verifier::opaque]
pub open spec fn le_u32(b: Seq<u8>) -> u32
    recommends
        b.len() == 4,
{
    (b[0] as int + 256 * (b[1] as int) + 65536 * (b[2] as int) + 16777216 * (b[3] as int)) as u32
}

/// The number that four bytes spell, most significant byte first.
#[verifier::opaque]
pub open spec fn be_u32(b: Seq<u8>) -> u32
    recommends
        b.len() == 4,
{
    (b[3] as int + 256 * (b[2] as int) + 65536 * (b[1] as int) + 16777216 * (b[0] as int)) as u32
}

/// The four bytes of `n`, least significant first.
#[verifier::opaque]
pub open spec fn le_bytes(n: u32) -> Seq<u8> {
    seq![
        (n % 256) as u8,
        ((n / 256) % 256) as u8,
        ((n / 65536) % 256) as u8,
        (n / 16777216) as u8,
    ]
}

/// The four bytes of `n`, most significant first.
#[verifier::opaque]
pub open spec fn be_bytes(n: u32) -> Seq<u8> {
    seq![
        (n / 16777216) as u8,
        ((n / 65536) % 256) as u8,
        ((n / 256) % 256) as u8,
        (n % 256) as u8,
    ]
}

/// Trusted: `byteorder::LittleEndian::read_u32`. It reads the first four
/// bytes of `buf` as a little-endian number and panics on a shorter buffer.
#[verifier::external_body]
pub(crate) fn read_u32_le(buf: &[u8]) -> (n: u32)
    requires
        buf@.len() >= 4,
    ensures
        n == le_u32(buf@.subrange(0, 4)),
{
    LittleEndian::read_u32(buf)
}

/// Trusted: `byteorder::BigEndian::read_u32`. It reads the first four bytes
/// of `buf` as a big-endian number and panics on a shorter buffer.
#[verifier::external_body]
pub(crate) fn read_u32_be(buf: &[u8]) -> (n: u32)
    requires
        buf@.len() >= 4,
    ensures
        n == be_u32(buf@.subrange(0, 4)),
{
    BigEndian::read_u32(buf)
}

/// Trusted: `byteorder::LittleEndian::write_u32`, on a fresh four-byte
/// buffer. It fills the buffer with the little-endian bytes of `n`.
#[verifier::external_body]
pub(crate) fn write_u32_le(n: u32) -> (buf: [u8; 4])
    ensures
        buf@ == le_bytes(n),
{
    let mut buf = [0u8; 4];
    LittleEndian::write_u32(&mut buf, n);
    buf
}

/// Trusted: `byteorder::BigEndian::write_u32`, on a fresh four-byte buffer.
/// It fills the buffer with the big-endian bytes of `n`.
#[verifier::external_body]
pub(crate) fn write_u32_be(n: u32) -> (buf: [u8; 4])
    ensures
        buf@ == be_bytes(n),
{
    let mut buf = [0u8; 4];
    BigEndian::write_u32(&mut buf, n);
    buf
}

/// Writing a number and reading it back gives the number, in either order.
pub proof fn lemma_write_then_read(n: u32)
    ensures
        le_bytes(n).len() == 4,
        be_bytes(n).len() == 4,
        le_u32(le_bytes(n)) == n,
        be_u32(be_bytes(n)) == n,
{
    reveal(le_u32);
    reveal(be_u32);
    reveal(le_bytes);
    reveal(be_bytes);
}

/// The digits of a number written in base 256 are found again by division.
proof fn lemma_digits(a: int, b: int, c: int, d: int)
    requires
        0 <= a < 256,
        0 <= b < 256,
        0 <= c < 256,
        0 <= d < 256,
    ensures
        0 <= a + 256 * b + 65536 * c + 16777216 * d <= u32::MAX,
        (a + 256 * b + 65536 * c + 16777216 * d) % 256 == a,
        ((a + 256 * b + 65536 * c + 16777216 * d) / 256) % 256 == b,
        ((a + 256 * b + 65536 * c + 16777216 * d) / 65536) % 256 == c,
        (a + 256 * b + 65536 * c + 16777216 * d) / 16777216 == d,
{
    let n = a + 256 * b + 65536 * c + 16777216 * d;
    let hi = b + 256 * c + 65536 * d;
    assert(n == a + 256 * hi);
    assert(n / 256 == hi);
    let hi2 = c + 256 * d;
    assert(hi == b + 256 * hi2);
    assert(n == a + 256 * b + 65536 * hi2);
    assert(n / 65536 == hi2);
    assert(n == a + 256 * b + 65536 * c + 16777216 * d);
    assert(n / 16777216 == d);
}

/// Reading four bytes and writing the number back gives the bytes, in
/// either order.
pub proof fn lemma_read_then_write(b: Seq<u8>)
    requires
        b.len() == 4,
    ensures
        le_bytes(le_u32(b)) == b,
        be_bytes(be_u32(b)) == b,
{
    reveal(le_u32);
    reveal(be_u32);
    reveal(le_bytes);
    reveal(be_bytes);
    lemma_digits(b[0] as int, b[1] as int, b[2] as int, b[3] as int);
    lemma_digits(b[3] as int, b[2] as int, b[1] as int, b[0] as int);
    assert(le_bytes(le_u32(b)) =~= b);
    assert(be_bytes(be_u32(b)) =~= b);
}

} // verus!

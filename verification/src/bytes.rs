//! Numbers in network byte order, written and read with `byteorder`.

use byteorder::{BigEndian, ReadBytesExt, WriteBytesExt};
use vstd::prelude::*;

verus! {

/// The two bytes of `value`, the more significant first.
pub open spec fn be16(value: u16) -> Seq<u8> {
    seq![(value / 0x100) as u8, (value % 0x100) as u8]
}

/// The four bytes of `value`, the most significant first.
pub open spec fn be32(value: u32) -> Seq<u8> {
    seq![
        (value / 0x100_0000) as u8,
        (value / 0x1_0000 % 0x100) as u8,
        (value / 0x100 % 0x100) as u8,
        (value % 0x100) as u8,
    ]
}

/// The number that two bytes stand for, the more significant first.
pub open spec fn from_be16(high: u8, low: u8) -> int {
    high * 0x100 + low
}

/// `bytes` with `part` written over it from position `at` on.
pub open spec fn written(bytes: Seq<u8>, at: int, part: Seq<u8>) -> Seq<u8> {
    bytes.take(at) + part + bytes.skip(at + part.len())
}

/// `byteorder::WriteBytesExt::write_u16::<BigEndian>` into `buffer` from
/// position `at` on.
#[verifier::external_body]
pub(crate) fn write_be16(buffer: &mut [u8], at: usize, value: u16)
    requires
        at + 2 <= old(buffer)@.len(),
    ensures
        final(buffer)@ == written(old(buffer)@, at as int, be16(value)),
{
    (&mut buffer[at..]).write_u16::<BigEndian>(value).unwrap();
}

/// `byteorder::WriteBytesExt::write_u32::<BigEndian>` into `buffer` from
/// position `at` on.
#[verifier::external_body]
pub(crate) fn write_be32(buffer: &mut [u8], at: usize, value: u32)
    requires
        at + 4 <= old(buffer)@.len(),
    ensures
        final(buffer)@ == written(old(buffer)@, at as int, be32(value)),
{
    (&mut buffer[at..]).write_u32::<BigEndian>(value).unwrap();
}

/// `byteorder::ReadBytesExt::read_u16::<BigEndian>` from `buffer` at position
/// `at`.
#[verifier::external_body]
pub(crate) fn read_be16(buffer: &[u8], at: usize) -> (value: u16)
    requires
        at + 2 <= buffer@.len(),
    ensures
        value == from_be16(buffer@[at as int], buffer@[at + 1]),
{
    (&buffer[at..]).read_u16::<BigEndian>().unwrap()
}

/// A number is found again in the bytes that were written for it.
pub proof fn lemma_be16_read_back(value: u16)
    ensures
        be16(value).len() == 2,
        from_be16(be16(value)[0], be16(value)[1]) == value,
{
}

/// Two numbers with the same bytes are the same.
pub proof fn lemma_be32_injective(a: u32, b: u32)
    requires
        be32(a) == be32(b),
    ensures
        a == b,
{
    assert(be32(a)[0] == be32(b)[0]);
    assert(be32(a)[1] == be32(b)[1]);
    assert(be32(a)[2] == be32(b)[2]);
    assert(be32(a)[3] == be32(b)[3]);
}

} // verus!

//! Sixteen-bit integers on the wire, in either byte order.

use vstd::prelude::*;
use byteordered::Endian;
use crate::header::Endianness;

verus! {

/// The integer that the byte pair `b0`, `b1` stands for, `b0` being the first
/// byte on the wire.
pub open spec fn u16_from_bytes(order: Endianness, b0: u8, b1: u8) -> u16 {
    match order {
        Endianness::Big => (b0 as int * 256 + b1 as int) as u16,
        Endianness::Little => (b1 as int * 256 + b0 as int) as u16,
    }
}

/// The two bytes that stand for `v`, in wire order.
pub open spec fn u16_to_bytes(order: Endianness, v: u16) -> Seq<u8> {
    match order {
        Endianness::Big => seq![(v / 256) as u8, (v % 256) as u8],
        Endianness::Little => seq![(v % 256) as u8, (v / 256) as u8],
    }
}

/// Writing an integer and reading the two bytes back gives the integer.
pub proof fn lemma_u16_write_read(order: Endianness, v: u16)
    ensures
        u16_to_bytes(order, v).len() == 2,
        u16_from_bytes(order, u16_to_bytes(order, v)[0], u16_to_bytes(order, v)[1]) == v,
{
}

/// Reading two bytes and writing the integer gives the two bytes back.
pub proof fn lemma_u16_read_write(order: Endianness, b0: u8, b1: u8)
    ensures
        u16_to_bytes(order, u16_from_bytes(order, b0, b1)) == seq![b0, b1],
{
    assert(u16_to_bytes(order, u16_from_bytes(order, b0, b1)) =~= seq![b0, b1]);
}

/// `byteordered::Endian::read_u16` of `byteordered::Endianness`, reading from
/// a byte slice. It takes the first two bytes of the slice and combines them
/// in the given order; a slice shorter than two bytes is an end-of-input
/// error, reported here as `None`.
#[verifier::external_body]
pub(crate) fn read_u16_in(order: Endianness, bytes: &[u8]) -> (r: Option<u16>)
    ensures
        bytes@.len() >= 2 ==> r == Some(u16_from_bytes(order, bytes@[0], bytes@[1])),
        bytes@.len() < 2 ==> r is None,
{
    let e = match order {
        Endianness::Little => byteordered::Endianness::Little,
        Endianness::Big => byteordered::Endianness::Big,
    };
    e.read_u16(bytes).ok()
}

/// `byteordered::Endian::write_u16` of `byteordered::Endianness`, writing to a
/// byte vector. It appends the two bytes of `v` in the given order; writing to
/// a vector cannot fail.
#[verifier::external_body]
pub(crate) fn write_u16_in(order: Endianness, out: &mut Vec<u8>, v: u16)
    ensures
        final(out)@ == old(out)@ + u16_to_bytes(order, v),
{
    let e = match order {
        Endianness::Little => byteordered::Endianness::Little,
        Endianness::Big => byteordered::Endianness::Big,
    };
    let _ = e.write_u16(out, v);
}

} // verus!

//! The declared length that opens the payload of a fixed-size subtype.

use vstd::prelude::*;
use crate::cursor::Cursor;
use crate::error::{DecodeError, Field};
use crate::header::Header;
use crate::wire::u16_from_bytes;

verus! {

/// Checking the two-byte declared length at the front of `input` against the
/// length that a subtype requires.
pub open spec fn spec_declared_length(header: Header, input: Seq<u8>, required: u16) -> Result<
    (),
    DecodeError,
> {
    if input.len() < 2 {
        Err(DecodeError::UnexpectedEof(Field::DeclaredLength))
    } else if u16_from_bytes(header.endianness, input[0], input[1]) != required {
        Err(DecodeError::LengthMismatch)
    } else {
        Ok(())
    }
}

/// Reads a declared length and fails unless it is the required one.
pub fn read_declared_length(header: &Header, reader: &mut Cursor, required: u16) -> (r: Result<
    (),
    DecodeError,
>)
    ensures
        r == spec_declared_length(*header, old(reader).remaining(), required),
        r is Ok ==> final(reader).advanced_from(*old(reader), 2),
        r is Err ==> *final(reader) == *old(reader),
{
    let mut c = *reader;
    match c.read_u16(header.endianness()) {
        Some(len) => {
            if len != required {
                Err(DecodeError::LengthMismatch)
            } else {
                *reader = c;
                Ok(())
            }
        },
        None => Err(DecodeError::UnexpectedEof(Field::DeclaredLength)),
    }
}

} // verus!

//! The Capitalize subtype: no payload at all, not even a declared length.

use vstd::prelude::*;
use crate::cursor::Cursor;
use crate::error::DecodeError;
use crate::header::Header;

verus! {

/// Asks for the next word to be capitalized.
#[derive(Debug, PartialEq, Eq, Clone, Copy, Structural)]
pub struct Control201Capitalize {}

impl Control201Capitalize {
    /// Decoding reads nothing and cannot fail.
    pub open spec fn spec_parse(header: Header, input: Seq<u8>) -> Result<
        (Self, nat),
        DecodeError,
    > {
        Ok((Control201Capitalize {}, 0))
    }

    /// The encoded payload, which is empty.
    pub open spec fn spec_bytes(self, header: Header) -> Seq<u8> {
        Seq::empty()
    }

    /// Decodes the payload at the cursor, which stays where it is.
    pub fn parse(header: &Header, reader: &mut Cursor) -> (r: Result<Self, DecodeError>)
        ensures
            r == Ok::<Self, DecodeError>(Control201Capitalize {}),
            *final(reader) == *old(reader),
    {
        Ok(Control201Capitalize {})
    }

    /// Appends the encoded payload to `writer`, which stays as it is.
    pub fn write(&self, header: &Header, writer: &mut Vec<u8>)
        ensures
            final(writer)@ == old(writer)@,
    {
    }
}

} // verus!

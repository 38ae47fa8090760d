//! The Definite subtype: no data behind a declared length of zero.

use vstd::prelude::*;
use crate::cursor::Cursor;
use crate::declared::{read_declared_length, spec_declared_length};
use crate::error::DecodeError;
use crate::header::Header;
use crate::wire::{u16_to_bytes, write_u16_in};

verus! {

/// Asks for the definite article. The presence of the control is the whole
/// signal.
#[derive(Debug, PartialEq, Eq, Clone, Copy, Structural)]
pub struct Control201Definite {}

impl Control201Definite {
    /// The length that the payload declares.
    pub const LENGTH: u16 = 0;

    /// Decoding from the front of `input`: a declared length that must be 0
    /// and nothing else. The value comes with the number of bytes read.
    pub open spec fn spec_parse(header: Header, input: Seq<u8>) -> Result<
        (Self, nat),
        DecodeError,
    > {
        match spec_declared_length(header, input, Self::LENGTH) {
            Err(e) => Err(e),
            Ok(_) => Ok((Control201Definite {}, 2)),
        }
    }

    /// The encoded payload: the declared length 0.
    pub open spec fn spec_bytes(self, header: Header) -> Seq<u8> {
        u16_to_bytes(header.endianness, Self::LENGTH)
    }

    /// Decodes the payload at the cursor.
    pub fn parse(header: &Header, reader: &mut Cursor) -> (r: Result<Self, DecodeError>)
        ensures
            match Self::spec_parse(*header, old(reader).remaining()) {
                Ok((value, n)) => {
                    &&& r == Ok::<Self, DecodeError>(value)
                    &&& final(reader).advanced_from(*old(reader), n)
                },
                Err(e) => r == Err::<Self, DecodeError>(e) && *final(reader) == *old(reader),
            },
    {
        match read_declared_length(header, reader, Self::LENGTH) {
            Ok(_) => Ok(Control201Definite {}),
            Err(e) => Err(e),
        }
    }

    /// Appends the encoded payload to `writer`.
    pub fn write(&self, header: &Header, writer: &mut Vec<u8>)
        ensures
            final(writer)@ == old(writer)@ + self.spec_bytes(*header),
    {
        write_u16_in(header.endianness(), writer, Self::LENGTH);
    }
}

} // verus!

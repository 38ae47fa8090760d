//! The Info subtype: four grammatical indices of one byte each.

use vstd::prelude::*;
use crate::cursor::Cursor;
use crate::declared::{read_declared_length, spec_declared_length};
use crate::error::{DecodeError, Field};
use crate::header::Header;
use crate::wire::{u16_to_bytes, write_u16_in};

verus! {

/// The grammatical properties of a word: indices for its gender, its definite
/// and indefinite article, and its plural.
#[derive(Debug, PartialEq, Eq, Clone, Copy, Structural)]
pub struct Control201Info {
    pub gender: u8,
    pub definite: u8,
    pub indefinite: u8,
    pub plural: u8,
}

impl Control201Info {
    /// The length that the payload declares, which is its number of fields.
    pub const LENGTH: u16 = 4;

    /// Decoding from the front of `input`: a declared length that must be 4,
    /// then the four bytes. The value comes with the number of bytes read.
    pub open spec fn spec_parse(header: Header, input: Seq<u8>) -> Result<
        (Self, nat),
        DecodeError,
    > {
        match spec_declared_length(header, input, Self::LENGTH) {
            Err(e) => Err(e),
            Ok(_) => if input.len() < 6 {
                Err(DecodeError::UnexpectedEof(Field::Payload))
            } else {
                Ok(
                    (
                        Control201Info {
                            gender: input[2],
                            definite: input[3],
                            indefinite: input[4],
                            plural: input[5],
                        },
                        6,
                    ),
                )
            },
        }
    }

    /// The encoded payload: the declared length 4, then the four bytes.
    pub open spec fn spec_bytes(self, header: Header) -> Seq<u8> {
        u16_to_bytes(header.endianness, Self::LENGTH) + seq![
            self.gender,
            self.definite,
            self.indefinite,
            self.plural,
        ]
    }

    /// Decodes the payload at the cursor.
    pub fn parse(header: &Header, reader: &mut Cursor) -> (r: Result<Self, DecodeError>)
        ensures
            match Self::spec_parse(*header, old(reader).remaining()) {
                Ok((value, n)) => {
                    &&& r == Ok::<Self, DecodeError>(value)
                    &&& final(reader).advanced_from(*old(reader), n)
                },
                Err(e) => r == Err::<Self, DecodeError>(e) && *final(reader) == *old(reader),
            },
    {
        let mut c = *reader;
        match read_declared_length(header, &mut c, Self::LENGTH) {
            Ok(_) => {},
            Err(e) => {
                return Err(e);
            },
        }
        let fields = match c.read_exact(4) {
            Some(bytes) => bytes,
            None => {
                return Err(DecodeError::UnexpectedEof(Field::Payload));
            },
        };
        *reader = c;
        Ok(
            Control201Info {
                gender: fields[0],
                definite: fields[1],
                indefinite: fields[2],
                plural: fields[3],
            },
        )
    }

    /// Appends the encoded payload to `writer`.
    pub fn write(&self, header: &Header, writer: &mut Vec<u8>)
        ensures
            final(writer)@ == old(writer)@ + self.spec_bytes(*header),
    {
        write_u16_in(header.endianness(), writer, Self::LENGTH);
        writer.push(self.gender);
        writer.push(self.definite);
        writer.push(self.indefinite);
        writer.push(self.plural);
        assert(writer@ =~= old(writer)@ + self.spec_bytes(*header));
    }
}

} // verus!

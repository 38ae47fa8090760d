//! The Gender subtype: one index per grammatical gender.

use vstd::prelude::*;
use crate::cursor::Cursor;
use crate::declared::{read_declared_length, spec_declared_length};
use crate::error::{DecodeError, Field};
use crate::header::Header;
use crate::wire::{u16_to_bytes, write_u16_in};

verus! {

/// The form of a word to choose for each grammatical gender, as indices of
/// one byte each.
#[derive(Debug, PartialEq, Eq, Clone, Copy, Structural)]
pub struct Control201Gender {
    pub masculine: u8,
    pub feminine: u8,
    pub neuter: u8,
}

impl Control201Gender {
    /// The length that the payload declares, which is its number of fields.
    pub const LENGTH: u16 = 3;

    /// Decoding from the front of `input`: a declared length that must be 3,
    /// then the three bytes. The value comes with the number of bytes read.
    pub open spec fn spec_parse(header: Header, input: Seq<u8>) -> Result<
        (Self, nat),
        DecodeError,
    > {
        match spec_declared_length(header, input, Self::LENGTH) {
            Err(e) => Err(e),
            Ok(_) => if input.len() < 5 {
                Err(DecodeError::UnexpectedEof(Field::Payload))
            } else {
                Ok(
                    (
                        Control201Gender {
                            masculine: input[2],
                            feminine: input[3],
                            neuter: input[4],
                        },
                        5,
                    ),
                )
            },
        }
    }

    /// The encoded payload: the declared length 3, then the three bytes.
    pub open spec fn spec_bytes(self, header: Header) -> Seq<u8> {
        u16_to_bytes(header.endianness, Self::LENGTH) + seq![
            self.masculine,
            self.feminine,
            self.neuter,
        ]
    }

    /// Decodes the payload at the cursor.
    pub fn parse(header: &Header, reader: &mut Cursor) -> (r: Result<Self, DecodeError>)
        ensures
            match Self::spec_parse(*header, old(reader).remaining()) {
                Ok((value, n)) => {
                    &&& r == Ok::<Self, DecodeError>(value)
                    &&& final(reader).advanced_from(*old(reader), n)
                },
                Err(e) => r == Err::<Self, DecodeError>(e) && *final(reader) == *old(reader),
            },
    {
        let mut c = *reader;
        match read_declared_length(header, &mut c, Self::LENGTH) {
            Ok(_) => {},
            Err(e) => {
                return Err(e);
            },
        }
        let fields = match c.read_exact(3) {
            Some(bytes) => bytes,
            None => {
                return Err(DecodeError::UnexpectedEof(Field::Payload));
            },
        };
        *reader = c;
        Ok(Control201Gender { masculine: fields[0], feminine: fields[1], neuter: fields[2] })
    }

    /// Appends the encoded payload to `writer`.
    pub fn write(&self, header: &Header, writer: &mut Vec<u8>)
        ensures
            final(writer)@ == old(writer)@ + self.spec_bytes(*header),
    {
        write_u16_in(header.endianness(), writer, Self::LENGTH);
        writer.push(self.masculine);
        writer.push(self.feminine);
        writer.push(self.neuter);
        assert(writer@ =~= old(writer)@ + self.spec_bytes(*header));
    }
}

} // verus!

//! The Pluralize subtype: three forms of a word, chosen by number.

use vstd::prelude::*;
use crate::cursor::Cursor;
use crate::error::{DecodeError, Field};
use crate::header::Header;
use crate::text::{
    get_string_bytes, read_string, spec_read_string, spec_string_bytes, spec_string_field,
    spec_string_size, write_string,
};
use crate::wire::{u16_from_bytes, u16_to_bytes, write_u16_in};

verus! {

/// The surface forms of a word for a count of one, of a few and of many.
#[derive(Debug, PartialEq, Eq, Clone)]
pub struct Control201Pluralize {
    pub one: String,
    pub more: String,
    pub many: String,
}

/// A Pluralize control as three texts.
pub struct PluralizeView {
    pub one: Seq<char>,
    pub more: Seq<char>,
    pub many: Seq<char>,
}

impl View for Control201Pluralize {
    type V = PluralizeView;

    open spec fn view(&self) -> PluralizeView {
        PluralizeView { one: self.one@, more: self.more@, many: self.many@ }
    }
}

impl PluralizeView {
    /// The sum of the sizes that the three texts count for when written.
    pub open spec fn spec_size(self, header: Header) -> nat {
        spec_string_size(header, self.one) + spec_string_size(header, self.more)
            + spec_string_size(header, self.many)
    }

    /// The encoded payload: the declared total length, which is the sum of
    /// the three sizes reduced to sixteen bits, then the three text fields in
    /// the order one, more, many.
    pub open spec fn spec_bytes(self, header: Header) -> Seq<u8> {
        u16_to_bytes(header.endianness, (self.spec_size(header) % 0x10000) as u16)
            + spec_string_field(header, spec_string_bytes(header, self.one)) + spec_string_field(
            header,
            spec_string_bytes(header, self.more),
        ) + spec_string_field(header, spec_string_bytes(header, self.many))
    }
}

impl Control201Pluralize {
    /// Decoding from the front of `input`: a declared total length, then the
    /// three text fields. The sizes that the fields count for must add up to
    /// the declared length. The value comes with the number of bytes read.
    pub open spec fn spec_parse(header: Header, input: Seq<u8>) -> Result<
        (PluralizeView, nat),
        DecodeError,
    > {
        if input.len() < 2 {
            Err(DecodeError::UnexpectedEof(Field::DeclaredLength))
        } else {
            let declared = u16_from_bytes(header.endianness, input[0], input[1]) as nat;
            match spec_read_string(header, input.skip(2)) {
                Err(e) => Err(e),
                Ok(one) => match spec_read_string(header, input.skip(2 + one.taken as int)) {
                    Err(e) => Err(e),
                    Ok(more) => match spec_read_string(
                        header,
                        input.skip(2 + one.taken as int + more.taken as int),
                    ) {
                        Err(e) => Err(e),
                        Ok(many) => if one.size + more.size + many.size != declared {
                            Err(DecodeError::LengthMismatch)
                        } else {
                            Ok(
                                (
                                    PluralizeView {
                                        one: one.text,
                                        more: more.text,
                                        many: many.text,
                                    },
                                    2 + one.taken + more.taken + many.taken,
                                ),
                            )
                        },
                    },
                },
            }
        }
    }

    /// Decodes the payload at the cursor.
    pub fn parse(header: &Header, reader: &mut Cursor) -> (r: Result<Self, DecodeError>)
        ensures
            match Self::spec_parse(*header, old(reader).remaining()) {
                Ok((value, n)) => {
                    &&& r is Ok
                    &&& r->Ok_0@ == value
                    &&& final(reader).advanced_from(*old(reader), n)
                },
                Err(e) => r is Err && r->Err_0 == e && *final(reader) == *old(reader),
            },
    {
        let ghost input = reader.remaining();
        let mut c = *reader;
        let len: usize = match c.read_u16(header.endianness()) {
            Some(v) => v as usize,
            None => {
                return Err(DecodeError::UnexpectedEof(Field::DeclaredLength));
            },
        };
        assert(c.remaining() =~= input.skip(2));
        let ghost after_len = c;
        let (one_size, one) = match read_string(header, &mut c) {
            Ok(field) => field,
            Err(e) => {
                return Err(e);
            },
        };
        let ghost one_taken = c.offset() - after_len.offset();
        assert(c.remaining() =~= input.skip(2 + one_taken));
        let ghost after_one = c;
        let (more_size, more) = match read_string(header, &mut c) {
            Ok(field) => field,
            Err(e) => {
                return Err(e);
            },
        };
        let ghost more_taken = c.offset() - after_one.offset();
        assert(c.remaining() =~= input.skip(2 + one_taken + more_taken));
        let (many_size, many) = match read_string(header, &mut c) {
            Ok(field) => field,
            Err(e) => {
                return Err(e);
            },
        };
        if one_size + more_size + many_size != len {
            Err(DecodeError::LengthMismatch)
        } else {
            *reader = c;
            Ok(Control201Pluralize { one, more, many })
        }
    }

    /// Appends the encoded payload to `writer`.
    pub fn write(&self, header: &Header, writer: &mut Vec<u8>)
        ensures
            final(writer)@ == old(writer)@ + self@.spec_bytes(*header),
    {
        let (one_size, one_bytes) = get_string_bytes(header, self.one.as_str());
        let (more_size, more_bytes) = get_string_bytes(header, self.more.as_str());
        let (many_size, many_bytes) = get_string_bytes(header, self.many.as_str());
        let len: u128 = one_size + more_size + many_size;
        write_u16_in(header.endianness(), writer, (len % 0x10000) as u16);
        write_string(header, writer, one_bytes.as_slice());
        write_string(header, writer, more_bytes.as_slice());
        write_string(header, writer, many_bytes.as_slice());
        assert(writer@ =~= old(writer)@ + self@.spec_bytes(*header));
    }
}

} // verus!

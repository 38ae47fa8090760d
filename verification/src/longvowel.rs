//! The locale-variant subtype: an ordered list of alternative texts.

use vstd::prelude::*;
use vstd::arithmetic::div_mod::lemma_add_mod_noop;
use crate::cursor::Cursor;
use crate::error::{DecodeError, Field};
use crate::header::Header;
use crate::text::{
    get_string_bytes, read_string, spec_read_string, spec_string_bytes, spec_string_field,
    spec_string_size, write_string,
};
use crate::wire::{u16_from_bytes, u16_to_bytes, write_u16_in};

verus! {

/// The surface forms among which a renderer chooses by the rules of the
/// target locale, in the order of the wire.
#[derive(Debug, PartialEq, Eq, Clone)]
pub struct Control201LongVowel {
    pub strings: Vec<String>,
}

impl View for Control201LongVowel {
    type V = Seq<Seq<char>>;

    open spec fn view(&self) -> Seq<Seq<char>> {
        texts_of(self.strings@)
    }
}

/// The texts of a sequence of strings.
pub open spec fn texts_of(strings: Seq<String>) -> Seq<Seq<char>> {
    Seq::new(strings.len(), |i: int| strings[i]@)
}

/// The sum of the sizes that the texts count for when written.
pub open spec fn spec_options_size(header: Header, options: Seq<Seq<char>>) -> nat
    decreases options.len(),
{
    if options.len() == 0 {
        0
    } else {
        spec_options_size(header, options.drop_last()) + spec_string_size(header, options.last())
    }
}

/// The text fields of the options, one behind the other.
pub open spec fn spec_options_fields(header: Header, options: Seq<Seq<char>>) -> Seq<u8>
    decreases options.len(),
{
    if options.len() == 0 {
        Seq::empty()
    } else {
        spec_options_fields(header, options.drop_last()) + spec_string_field(
            header,
            spec_string_bytes(header, options.last()),
        )
    }
}

/// The encoded payload: the declared total length, which is the sum of the
/// sizes of the options reduced to sixteen bits, then their text fields.
pub open spec fn spec_options_bytes(header: Header, options: Seq<Seq<char>>) -> Seq<u8> {
    u16_to_bytes(header.endianness, (spec_options_size(header, options) % 0x10000) as u16)
        + spec_options_fields(header, options)
}

/// Reading text fields from the front of `input` until the sizes they count
/// for have used up `budget`. A field that counts for more than is left of
/// the budget is a length mismatch. The texts come with the number of bytes
/// read.
pub open spec fn spec_read_options(header: Header, input: Seq<u8>, budget: nat) -> Result<
    (Seq<Seq<char>>, nat),
    DecodeError,
>
    decreases input.len(),
{
    if budget == 0 {
        Ok((Seq::empty(), 0))
    } else {
        proof {
            reveal(spec_read_string);
        }
        match spec_read_string(header, input) {
            Err(e) => Err(e),
            Ok(read) => if read.size > budget {
                Err(DecodeError::LengthMismatch)
            } else {
                match spec_read_options(
                    header,
                    input.skip(read.taken as int),
                    (budget - read.size) as nat,
                ) {
                    Err(e) => Err(e),
                    Ok((rest, n)) => Ok((seq![read.text] + rest, read.taken + n)),
                }
            },
        }
    }
}

impl Control201LongVowel {
    /// Decoding from the front of `input`: a declared total length, then text
    /// fields for as long as the sizes they count for stay below that length.
    /// The sizes must add up to exactly the declared length.
    pub open spec fn spec_parse(header: Header, input: Seq<u8>) -> Result<
        (Seq<Seq<char>>, nat),
        DecodeError,
    > {
        if input.len() < 2 {
            Err(DecodeError::UnexpectedEof(Field::DeclaredLength))
        } else {
            let declared = u16_from_bytes(header.endianness, input[0], input[1]) as nat;
            match spec_read_options(header, input.skip(2), declared) {
                Err(e) => Err(e),
                Ok((options, n)) => Ok((options, 2 + n)),
            }
        }
    }

    /// Decodes the payload at the cursor.
    pub fn parse(header: &Header, reader: &mut Cursor) -> (r: Result<Self, DecodeError>)
        ensures
            match Self::spec_parse(*header, old(reader).remaining()) {
                Ok((value, n)) => {
                    &&& r is Ok
                    &&& r->Ok_0@ == value
                    &&& final(reader).advanced_from(*old(reader), n)
                },
                Err(e) => r is Err && r->Err_0 == e && *final(reader) == *old(reader),
            },
    {
        let ghost input = reader.remaining();
        let mut c = *reader;
        let len: usize = match c.read_u16(header.endianness()) {
            Some(v) => v as usize,
            None => {
                return Err(DecodeError::UnexpectedEof(Field::DeclaredLength));
            },
        };
        assert(c.remaining() =~= input.skip(2));
        let ghost start = c;
        let ghost whole = spec_read_options(*header, start.remaining(), len as nat);
        let mut strings: Vec<String> = Vec::new();
        let mut total: usize = 0;
        assert(texts_of(strings@) + Seq::<Seq<char>>::empty() =~= Seq::<Seq<char>>::empty());
        while total < len
            invariant
                total <= len <= 0xFFFF,
                *reader == *old(reader),
                input == old(reader).remaining(),
                input.len() >= 2,
                len == u16_from_bytes(header.endianness, input[0], input[1]),
                start.remaining() == input.skip(2),
                c.bytes() == start.bytes(),
                start.offset() <= c.offset() <= c.bytes().len(),
                whole == spec_read_options(*header, start.remaining(), len as nat),
                match spec_read_options(*header, c.remaining(), (len - total) as nat) {
                    Ok((rest, n)) => whole == Ok::<(Seq<Seq<char>>, nat), DecodeError>(
                        (texts_of(strings@) + rest, (c.offset() - start.offset() + n) as nat),
                    ),
                    Err(e) => whole == Err::<(Seq<Seq<char>>, nat), DecodeError>(e),
                },
            decreases c.bytes().len() - c.offset(),
        {
            let ghost before = c;
            let ghost texts = texts_of(strings@);
            let (size, text) = match read_string(header, &mut c) {
                Ok(field) => field,
                Err(e) => {
                    return Err(e);
                },
            };
            if size > len - total {
                return Err(DecodeError::LengthMismatch);
            }
            proof {
                let read = spec_read_string(*header, before.remaining())->Ok_0;
                assert(c.remaining() =~= before.remaining().skip(read.taken as int));
                let tail = spec_read_options(
                    *header,
                    c.remaining(),
                    (len - total - size) as nat,
                );
                if let Ok((rest, n)) = tail {
                    assert(texts + (seq![read.text] + rest) =~= texts.push(text@) + rest);
                }
            }
            strings.push(text);
            assert(texts_of(strings@) =~= texts.push(text@));
            total = total + size;
        }
        assert(texts_of(strings@) + Seq::<Seq<char>>::empty() =~= texts_of(strings@));
        *reader = c;
        Ok(Control201LongVowel { strings })
    }

    /// Appends the encoded payload to `writer`.
    pub fn write(&self, header: &Header, writer: &mut Vec<u8>)
        ensures
            final(writer)@ == old(writer)@ + spec_options_bytes(*header, self@),
    {
        let n: usize = self.strings.len();
        let mut fields: Vec<u8> = Vec::new();
        let mut len: u32 = 0;
        let mut i: usize = 0;
        while i < n
            invariant
                n == self.strings@.len(),
                i <= n,
                len < 0x10000,
                len == spec_options_size(*header, self@.take(i as int)) % 0x10000,
                fields@ == spec_options_fields(*header, self@.take(i as int)),
            decreases n - i,
        {
            let (size, bytes) = get_string_bytes(header, self.strings[i].as_str());
            proof {
                let done = self@.take(i as int);
                let next = self@.take(i + 1);
                assert(next.drop_last() =~= done);
                assert(next.last() == self.strings@[i as int]@);
                lemma_add_mod_noop(
                    spec_options_size(*header, done) as int,
                    size as int,
                    0x10000,
                );
            }
            len = (len + (size % 0x10000) as u32) % 0x10000;
            write_string(header, &mut fields, bytes.as_slice());
            i = i + 1;
        }
        assert(self@.take(n as int) =~= self@);
        write_u16_in(header.endianness(), writer, len as u16);
        writer.extend_from_slice(fields.as_slice());
        assert(writer@ =~= old(writer)@ + spec_options_bytes(*header, self@));
    }
}

} // verus!

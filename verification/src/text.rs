//! Length-prefixed text fields in either encoding.

use vstd::prelude::*;
use vstd::slice::{slice_subrange, slice_to_vec};
use vstd::utf8::{decode_utf8, encode_utf8, valid_utf8};
use crate::cursor::Cursor;
use crate::error::{DecodeError, Field};
use crate::header::{Encoding, Endianness, Header};
use crate::utf16::{
    decode_utf16, encode_utf16, lemma_decode_encode_utf16, lemma_encode_decode_utf16,
    string_from_utf16, str_encode_utf16, valid_utf16,
};
use crate::utf8::{
    drop_terminator, lemma_stripped_bytes, lemma_strip_nul_bytes, string_from_utf8, strip_nul,
    strip_trailing_zeros,
};
use crate::wire::{
    lemma_u16_read_write, lemma_u16_write_read, read_u16_in, u16_from_bytes, u16_to_bytes,
    write_u16_in,
};

verus! {

/// The number of bytes of the length prefix of a text field: two in the wide
/// encoding, one in the byte encoding.
pub open spec fn prefix_width(encoding: Encoding) -> nat {
    match encoding {
        Encoding::Utf16 => 2,
        Encoding::Utf8 => 1,
    }
}

/// The code units that an even number of bytes stand for, pair by pair.
#[verifier::opaque]
pub open spec fn units_from_bytes(order: Endianness, bytes: Seq<u8>) -> Seq<u16> {
    Seq::new(bytes.len() / 2, |i: int| u16_from_bytes(order, bytes[2 * i], bytes[2 * i + 1]))
}

/// The bytes of a sequence of code units, two per unit.
#[verifier::opaque]
pub open spec fn units_to_bytes(order: Endianness, units: Seq<u16>) -> Seq<u8> {
    Seq::new(2 * units.len(), |i: int| u16_to_bytes(order, units[i / 2])[i % 2])
}

/// The text that the payload of a field stands for, or `None` where it stands
/// for none. A wide payload is a whole number of code units that form
/// well-formed UTF-16. A byte payload is UTF-8 once one zero byte at its end,
/// if there is one, is dropped.
#[verifier::opaque]
pub open spec fn decode_text(header: Header, payload: Seq<u8>) -> Option<Seq<char>> {
    match header.encoding {
        Encoding::Utf16 => {
            let units = units_from_bytes(header.endianness, payload);
            if payload.len() % 2 == 0 && valid_utf16(units) {
                Some(decode_utf16(units))
            } else {
                None
            }
        },
        Encoding::Utf8 => {
            let body = drop_terminator(payload);
            if valid_utf8(body) {
                Some(decode_utf8(body))
            } else {
                None
            }
        },
    }
}

/// The value of the length prefix at the front of `input`, which holds at
/// least `prefix_width` bytes.
pub open spec fn declared_text_len(header: Header, input: Seq<u8>) -> nat {
    match header.encoding {
        Encoding::Utf16 => u16_from_bytes(header.endianness, input[0], input[1]) as nat,
        Encoding::Utf8 => input[0] as nat,
    }
}

/// What reading one text field yields.
pub struct TextRead {
    /// The size that the field counts for in a declared total length.
    pub size: nat,
    /// The text of the field.
    pub text: Seq<char>,
    /// The number of bytes that the field occupies in the input.
    pub taken: nat,
}

/// Reading one text field from the front of `input`.
///
/// The prefix gives the number of payload bytes. An empty payload is the empty
/// text and counts for size zero. Any other field counts for its payload
/// length plus two, in both encodings.
#[verifier::opaque]
pub open spec fn spec_read_string(header: Header, input: Seq<u8>) -> Result<TextRead, DecodeError> {
    let width = prefix_width(header.encoding);
    if input.len() < width {
        Err(DecodeError::UnexpectedEof(Field::TextLength))
    } else {
        let len = declared_text_len(header, input);
        if len == 0 {
            Ok(TextRead { size: 0, text: Seq::empty(), taken: width })
        } else if input.len() < width + len {
            Err(DecodeError::UnexpectedEof(Field::Text))
        } else {
            match decode_text(header, input.subrange(width as int, (width + len) as int)) {
                Some(text) => Ok(TextRead { size: len + 2, text, taken: width + len }),
                None => Err(DecodeError::InvalidText),
            }
        }
    }
}

/// Reads the code units of a wide payload, or `None` if its length is odd.
fn read_units(order: Endianness, payload: &[u8]) -> (r: Option<Vec<u16>>)
    ensures
        payload@.len() % 2 == 0 ==> r is Some && r->0@ == units_from_bytes(order, payload@),
        payload@.len() % 2 != 0 ==> r is None,
{
    let mut units: Vec<u16> = Vec::new();
    let mut i: usize = 0;
    while i < payload.len()
        invariant
            i <= payload@.len(),
            i % 2 == 0,
            units@.len() == i / 2,
            forall|k: int|
                0 <= k < units@.len() ==> units@[k] == u16_from_bytes(
                    order,
                    payload@[2 * k],
                    payload@[2 * k + 1],
                ),
        decreases payload@.len() - i,
    {
        let end: usize = if payload.len() - i >= 2 {
            i + 2
        } else {
            payload.len()
        };
        let chunk = slice_subrange(payload, i, end);
        match read_u16_in(order, chunk) {
            Some(unit) => {
                units.push(unit);
            },
            None => {
                return None;
            },
        }
        i = end;
    }
    assert(units@ =~= units_from_bytes(order, payload@)) by {
        reveal(units_from_bytes);
    }
    Some(units)
}

/// Turns the payload of a field into text.
fn text_from_payload(header: &Header, payload: &[u8]) -> (r: Option<String>)
    ensures
        match decode_text(*header, payload@) {
            Some(text) => r is Some && r->0@ == text,
            None => r is None,
        },
{
    reveal(decode_text);
    match header.encoding() {
        Encoding::Utf16 => match read_units(header.endianness(), payload) {
            Some(units) => string_from_utf16(units.as_slice()),
            None => None,
        },
        Encoding::Utf8 => {
            let n: usize = payload.len();
            let body = if n > 0 && payload[n - 1] == 0 {
                slice_subrange(payload, 0, n - 1)
            } else {
                payload
            };
            assert(body@ =~= drop_terminator(payload@));
            string_from_utf8(slice_to_vec(body))
        },
    }
}

/// Reads one length-prefixed text field and returns the size it counts for
/// together with its text.
pub fn read_string(header: &Header, reader: &mut Cursor) -> (r: Result<
    (usize, String),
    DecodeError,
>)
    ensures
        match spec_read_string(*header, old(reader).remaining()) {
            Ok(read) => {
                &&& r is Ok
                &&& r->Ok_0.0 == read.size
                &&& r->Ok_0.1@ == read.text
                &&& final(reader).advanced_from(*old(reader), read.taken)
                &&& read.size <= 0xFFFF + 2
                &&& 1 <= read.taken
            },
            Err(e) => r is Err && r->Err_0 == e && *final(reader) == *old(reader),
        },
{
    reveal(spec_read_string);
    let mut c = *reader;
    let prefix = match header.encoding() {
        Encoding::Utf16 => match c.read_u16(header.endianness()) {
            Some(v) => Some(v as usize),
            None => None,
        },
        Encoding::Utf8 => match c.read_u8() {
            Some(v) => Some(v as usize),
            None => None,
        },
    };
    let str_len: usize = match prefix {
        Some(v) => v,
        None => {
            return Err(DecodeError::UnexpectedEof(Field::TextLength));
        },
    };
    if str_len == 0 {
        *reader = c;
        return Ok((0, String::new()));
    }
    let payload = match c.read_exact(str_len) {
        Some(bytes) => bytes,
        None => {
            return Err(DecodeError::UnexpectedEof(Field::Text));
        },
    };
    let ghost input = old(reader).remaining();
    let ghost width = prefix_width(header.encoding) as int;
    assert(payload@ =~= input.subrange(width, width + str_len));
    match text_from_payload(header, payload) {
        Some(text) => {
            *reader = c;
            Ok((str_len + 2, text))
        },
        None => Err(DecodeError::InvalidText),
    }
}

/// The size that a text counts for in a declared total length when it is
/// written: two more than the bytes of its code units in the wide encoding;
/// in the byte encoding one more than the bytes that are left of the text
/// once the NUL characters at its end are stripped.
pub open spec fn spec_string_size(header: Header, text: Seq<char>) -> nat {
    match header.encoding {
        Encoding::Utf16 => 2 * encode_utf16(text).len() + 2,
        Encoding::Utf8 => encode_utf8(strip_nul(text)).len() + 1,
    }
}

/// The payload bytes of a text: its code units in the header's byte order in
/// the wide encoding; in the byte encoding the bytes of the text without the
/// NUL characters at its end.
pub open spec fn spec_string_bytes(header: Header, text: Seq<char>) -> Seq<u8> {
    match header.encoding {
        Encoding::Utf16 => units_to_bytes(header.endianness, encode_utf16(text)),
        Encoding::Utf8 => encode_utf8(strip_nul(text)),
    }
}

/// A payload behind its length prefix. The prefix holds the payload length
/// reduced to the width of the prefix.
#[verifier::opaque]
pub open spec fn spec_string_field(header: Header, payload: Seq<u8>) -> Seq<u8> {
    match header.encoding {
        Encoding::Utf16 => u16_to_bytes(header.endianness, (payload.len() % 0x10000) as u16)
            + payload,
        Encoding::Utf8 => seq![(payload.len() % 0x100) as u8] + payload,
    }
}

/// Writes code units as bytes in the given order.
fn write_units(order: Endianness, units: &[u16]) -> (bytes: Vec<u8>)
    ensures
        bytes@ == units_to_bytes(order, units@),
{
    let mut bytes: Vec<u8> = Vec::new();
    let mut i: usize = 0;
    assert(bytes@ =~= units_to_bytes(order, units@.take(0))) by {
        reveal(units_to_bytes);
    }
    while i < units.len()
        invariant
            i <= units@.len(),
            bytes@ == units_to_bytes(order, units@.take(i as int)),
        decreases units@.len() - i,
    {
        let ghost before = bytes@;
        write_u16_in(order, &mut bytes, units[i]);
        assert(bytes@ =~= units_to_bytes(order, units@.take(i + 1))) by {
            reveal(units_to_bytes);
            let after = units_to_bytes(order, units@.take(i + 1));
            assert(bytes@.len() == after.len());
            assert forall|k: int| 0 <= k < after.len() implies bytes@[k] == after[k] by {
                if k < 2 * i {
                    assert(bytes@[k] == before[k]);
                    assert(units@.take(i as int)[k / 2] == units@.take(i + 1)[k / 2]);
                } else {
                    assert(k / 2 == i);
                    assert(bytes@[k] == u16_to_bytes(order, units@[i as int])[k - 2 * i]);
                }
            }
        }
        i = i + 1;
    }
    assert(units@.take(i as int) =~= units@);
    bytes
}

/// Computes the payload bytes of a text and the size that the text counts for
/// in a declared total length.
pub fn get_string_bytes(header: &Header, text: &str) -> (r: (u128, Vec<u8>))
    ensures
        r.0 == spec_string_size(*header, text@),
        r.1@ == spec_string_bytes(*header, text@),
        r.0 <= 2 * usize::MAX + 2,
{
    match header.encoding() {
        Encoding::Utf16 => {
            let units = str_encode_utf16(text);
            let size: u128 = 2 * (units.len() as u128) + 2;
            (size, write_units(header.endianness(), units.as_slice()))
        },
        Encoding::Utf8 => {
            let raw = text.as_bytes();
            let mut end: usize = raw.len();
            assert(raw@.take(end as int) =~= raw@);
            while end > 0 && raw[end - 1] == 0
                invariant
                    end <= raw@.len(),
                    strip_trailing_zeros(raw@) == strip_trailing_zeros(raw@.take(end as int)),
                decreases end,
            {
                assert(raw@.take(end as int).drop_last() =~= raw@.take(end - 1));
                end = end - 1;
            }
            proof {
                lemma_strip_nul_bytes(text@);
            }
            let payload = slice_to_vec(slice_subrange(raw, 0, end));
            let size: u128 = end as u128 + 1;
            (size, payload)
        },
    }
}

/// Appends a payload behind its length prefix to `out`.
pub fn write_string(header: &Header, out: &mut Vec<u8>, payload: &[u8])
    ensures
        final(out)@ == old(out)@ + spec_string_field(*header, payload@),
{
    reveal(spec_string_field);
    match header.encoding() {
        Encoding::Utf16 => {
            write_u16_in(header.endianness(), out, (payload.len() % 0x10000) as u16);
        },
        Encoding::Utf8 => {
            out.push((payload.len() % 0x100) as u8);
        },
    }
    out.extend_from_slice(payload);
    assert(out@ =~= old(out)@ + spec_string_field(*header, payload@));
}

/// Code units written as bytes and read back are the same units, and an even
/// number of bytes read as units and written back are the same bytes.
pub proof fn lemma_units_bytes(order: Endianness, units: Seq<u16>, bytes: Seq<u8>)
    ensures
        units_to_bytes(order, units).len() == 2 * units.len(),
        units_from_bytes(order, units_to_bytes(order, units)) == units,
        bytes.len() % 2 == 0 ==> units_to_bytes(order, units_from_bytes(order, bytes)) == bytes,
{
    reveal(units_to_bytes);
    reveal(units_from_bytes);
    let written = units_to_bytes(order, units);
    assert forall|i: int| 0 <= i < units.len() implies units_from_bytes(order, written)[i]
        == units[i] by {
        lemma_u16_write_read(order, units[i]);
        assert((2 * i) / 2 == i && (2 * i) % 2 == 0);
        assert((2 * i + 1) / 2 == i && (2 * i + 1) % 2 == 1);
    }
    assert(units_from_bytes(order, written) =~= units);
    if bytes.len() % 2 == 0 {
        let read = units_from_bytes(order, bytes);
        let back = units_to_bytes(order, read);
        assert forall|k: int| 0 <= k < bytes.len() implies back[k] == bytes[k] by {
            let i = k / 2;
            lemma_u16_read_write(order, bytes[2 * i], bytes[2 * i + 1]);
        }
        assert(back =~= bytes);
    }
}

/// Whether a text written in the wide encoding is read back as it was written:
/// it is not empty, and the bytes of its code units can be counted in the
/// sixteen bits of the length prefix.
pub open spec fn wide_text_fits(text: Seq<char>) -> bool {
    1 <= encode_utf16(text).len() && 2 * encode_utf16(text).len() <= 0xFFFF
}

/// The payload of a text in the wide encoding holds two bytes per code unit
/// and stands for the text.
pub proof fn lemma_wide_payload(header: Header, text: Seq<char>)
    requires
        header.encoding == Encoding::Utf16,
    ensures
        spec_string_bytes(header, text).len() == 2 * encode_utf16(text).len(),
        decode_text(header, spec_string_bytes(header, text)) == Some(text),
{
    reveal(decode_text);
    lemma_units_bytes(header.endianness, encode_utf16(text), Seq::empty());
    lemma_encode_decode_utf16(text);
}

proof fn lemma_read_field(header: Header, payload: Seq<u8>, tail: Seq<u8>)
    requires
        1 <= payload.len(),
        payload.len() < match header.encoding {
            Encoding::Utf16 => 0x10000nat,
            Encoding::Utf8 => 0x100nat,
        },
    ensures
        spec_read_string(header, spec_string_field(header, payload) + tail) == match decode_text(
            header,
            payload,
        ) {
            Some(text) => Ok::<TextRead, DecodeError>(
                TextRead {
                    size: payload.len() + 2,
                    text,
                    taken: prefix_width(header.encoding) + payload.len(),
                },
            ),
            None => Err::<TextRead, DecodeError>(DecodeError::InvalidText),
        },
        spec_string_field(header, payload).len() == prefix_width(header.encoding) + payload.len(),
{
    reveal(spec_read_string);
    reveal(spec_string_field);
    let input = spec_string_field(header, payload) + tail;
    let width = prefix_width(header.encoding);
    match header.encoding {
        Encoding::Utf16 => {
            lemma_u16_write_read(header.endianness, payload.len() as u16);
        },
        Encoding::Utf8 => {},
    }
    assert(declared_text_len(header, input) == payload.len());
    assert(input.subrange(width as int, (width + payload.len()) as int) =~= payload);
}

/// The values that the length prefix of a field can hold lie below this
/// limit.
pub open spec fn prefix_limit(encoding: Encoding) -> nat {
    match encoding {
        Encoding::Utf16 => 0x10000,
        Encoding::Utf8 => 0x100,
    }
}

/// The text that a written text is read back as: the text itself in the wide
/// encoding, the text without the NUL characters at its end in the byte
/// encoding.
pub open spec fn spec_read_back_text(header: Header, text: Seq<char>) -> Seq<char> {
    match header.encoding {
        Encoding::Utf16 => text,
        Encoding::Utf8 => strip_nul(text),
    }
}

/// The size that a written text counts for when it is read back: zero for an
/// empty payload, else two more than the payload.
pub open spec fn spec_read_back_size(header: Header, text: Seq<char>) -> nat {
    let n = spec_string_bytes(header, text).len();
    if n == 0 {
        0
    } else {
        n + 2
    }
}

/// A text written as a field and followed by anything is read back, where the
/// prefix can hold the length of its payload. In the byte encoding it comes
/// back without the NUL characters at its end. The read takes exactly the
/// field and counts it for zero or for two more than the payload, whatever it
/// was written as counting for.
pub proof fn lemma_text_read_back(header: Header, text: Seq<char>, tail: Seq<u8>)
    requires
        spec_string_bytes(header, text).len() < prefix_limit(header.encoding),
    ensures
        spec_read_string(
            header,
            spec_string_field(header, spec_string_bytes(header, text)) + tail,
        ) == Ok::<TextRead, DecodeError>(
            TextRead {
                size: spec_read_back_size(header, text),
                text: spec_read_back_text(header, text),
                taken: spec_string_field(header, spec_string_bytes(header, text)).len(),
            },
        ),
        spec_string_field(header, spec_string_bytes(header, text)).len() == prefix_width(
            header.encoding,
        ) + spec_string_bytes(header, text).len(),
{
    let payload = spec_string_bytes(header, text);
    match header.encoding {
        Encoding::Utf16 => {
            lemma_wide_payload(header, text);
            lemma_encode_decode_utf16(text);
        },
        Encoding::Utf8 => {
            reveal(decode_text);
            lemma_stripped_bytes(text);
        },
    }
    if payload.len() == 0 {
        reveal(spec_read_string);
        reveal(spec_string_field);
        lemma_u16_write_read(header.endianness, 0);
        assert(spec_read_back_text(header, text) =~= Seq::<char>::empty());
    } else {
        lemma_read_field(header, payload, tail);
    }
}

/// A text that fits, written as a field in the wide encoding and followed by
/// anything, is read back as the same text. It counts for the size that it
/// was written with, and the read takes exactly the field.
pub proof fn lemma_wide_text_round_trip(header: Header, text: Seq<char>, tail: Seq<u8>)
    requires
        header.encoding == Encoding::Utf16,
        wide_text_fits(text),
    ensures
        spec_read_string(
            header,
            spec_string_field(header, spec_string_bytes(header, text)) + tail,
        ) == Ok::<TextRead, DecodeError>(
            TextRead {
                size: spec_string_size(header, text),
                text,
                taken: spec_string_field(header, spec_string_bytes(header, text)).len(),
            },
        ),
        spec_string_field(header, spec_string_bytes(header, text)).len() == 2 + 2 * encode_utf16(
            text,
        ).len(),
{
    lemma_wide_payload(header, text);
    lemma_text_read_back(header, text, tail);
}

/// What holds of every field that can be read: it lies within the input and
/// takes its prefix at least; and it counts for size zero exactly when the
/// prefix is all that it takes, and then its text is empty.
pub proof fn lemma_read_string_bounds(header: Header, input: Seq<u8>)
    requires
        spec_read_string(header, input) is Ok,
    ensures
        ({
            let read = spec_read_string(header, input)->Ok_0;
            let width = prefix_width(header.encoding);
            &&& width <= read.taken <= input.len()
            &&& read.size == 0 <==> read.taken == width
            &&& read.size == 0 ==> read.text.len() == 0
            &&& read.size > 0 ==> read.size == read.taken - width + 2
            &&& read.size <= 0xFFFF + 2
        }),
{
    reveal(spec_read_string);
}

proof fn lemma_field_of_read(header: Header, input: Seq<u8>)
    requires
        spec_read_string(header, input) is Ok,
        spec_read_string(header, input)->Ok_0.size > 0,
    ensures
        ({
            let read = spec_read_string(header, input)->Ok_0;
            let width = prefix_width(header.encoding);
            let payload = input.subrange(width as int, read.taken as int);
            &&& width < read.taken <= input.len()
            &&& read.size == payload.len() + 2
            &&& read.size <= 0xFFFF + 2
            &&& decode_text(header, payload) == Some(read.text)
            &&& spec_string_field(header, payload) == input.take(read.taken as int)
        }),
{
    reveal(spec_read_string);
    reveal(spec_string_field);
    let read = spec_read_string(header, input)->Ok_0;
    let width = prefix_width(header.encoding);
    let len = declared_text_len(header, input);
    let payload = input.subrange(width as int, read.taken as int);
    assert(read.taken == width + len && payload.len() == len);
    match header.encoding {
        Encoding::Utf16 => {
            let declared = u16_from_bytes(header.endianness, input[0], input[1]);
            lemma_u16_read_write(header.endianness, input[0], input[1]);
            assert(len % 0x10000 == declared);
            assert(seq![input[0], input[1]] + payload =~= input.take(read.taken as int));
        },
        Encoding::Utf8 => {
            assert(len % 0x100 == input[0]);
            assert(seq![input[0]] + payload =~= input.take(read.taken as int));
        },
    }
}

proof fn lemma_wide_payload_canonical(header: Header, payload: Seq<u8>)
    requires
        header.encoding == Encoding::Utf16,
        decode_text(header, payload) is Some,
    ensures
        spec_string_bytes(header, decode_text(header, payload)->0) == payload,
        2 * encode_utf16(decode_text(header, payload)->0).len() == payload.len(),
{
    reveal(decode_text);
    let units = units_from_bytes(header.endianness, payload);
    lemma_decode_encode_utf16(units);
    lemma_units_bytes(header.endianness, units, payload);
}

/// A field that was read in the wide encoding and is not empty is the field
/// that writing its text gives: the same bytes, counting for the same size.
pub proof fn lemma_wide_text_canonical(header: Header, input: Seq<u8>)
    requires
        header.encoding == Encoding::Utf16,
        spec_read_string(header, input) is Ok,
        spec_read_string(header, input)->Ok_0.size > 0,
    ensures
        ({
            let read = spec_read_string(header, input)->Ok_0;
            &&& wide_text_fits(read.text)
            &&& spec_string_size(header, read.text) == read.size
            &&& spec_string_field(header, spec_string_bytes(header, read.text)) == input.take(
                read.taken as int,
            )
        }),
{
    let read = spec_read_string(header, input)->Ok_0;
    lemma_field_of_read(header, input);
    lemma_wide_payload_canonical(header, input.subrange(2, read.taken as int));
}

} // verus!

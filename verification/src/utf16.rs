//! UTF-16 as a relation between text and sixteen-bit code units, and the
//! conversions of the standard library that realise it.

use vstd::prelude::*;

verus! {

/// A unit in the range reserved for the first half of a surrogate pair.
pub open spec fn is_high_surrogate(unit: u16) -> bool {
    0xD800 <= unit <= 0xDBFF
}

/// A unit in the range reserved for the second half of a surrogate pair.
pub open spec fn is_low_surrogate(unit: u16) -> bool {
    0xDC00 <= unit <= 0xDFFF
}

/// The one or two units that stand for a character: the character's own value
/// below `0x10000`, and above it a surrogate pair that splits the value less
/// `0x10000` into its upper and lower ten bits.
pub open spec fn encode_utf16_char(c: char) -> Seq<u16> {
    let v = c as u32;
    if v < 0x10000 {
        seq![v as u16]
    } else {
        seq![
            (0xD800 + (v - 0x10000) / 0x400) as u16,
            (0xDC00 + (v - 0x10000) % 0x400) as u16,
        ]
    }
}

/// The units of a text: those of its characters, in order.
pub open spec fn encode_utf16(text: Seq<char>) -> Seq<u16>
    decreases text.len(),
{
    if text.len() == 0 {
        Seq::empty()
    } else {
        encode_utf16_char(text[0]) + encode_utf16(text.drop_first())
    }
}

/// How many units the character at the front of `units` takes: one for a unit
/// outside the surrogate ranges, two for a high surrogate followed by a low
/// one, and zero where the front is neither.
pub open spec fn first_char_width(units: Seq<u16>) -> nat {
    if units.len() == 0 {
        0
    } else if !is_high_surrogate(units[0]) && !is_low_surrogate(units[0]) {
        1
    } else if is_high_surrogate(units[0]) && units.len() >= 2 && is_low_surrogate(units[1]) {
        2
    } else {
        0
    }
}

/// The character at the front of `units`, where `first_char_width` is not zero.
pub open spec fn first_char(units: Seq<u16>) -> char {
    if first_char_width(units) == 1 {
        units[0] as char
    } else {
        (0x10000 + (units[0] - 0xD800) * 0x400 + (units[1] - 0xDC00)) as char
    }
}

/// Whether `units` is well-formed UTF-16: every surrogate is part of a pair of
/// a high one followed by a low one.
pub open spec fn valid_utf16(units: Seq<u16>) -> bool
    decreases units.len(),
{
    units.len() == 0 || (first_char_width(units) > 0 && valid_utf16(
        units.skip(first_char_width(units) as int),
    ))
}

/// The text that well-formed `units` stand for.
pub open spec fn decode_utf16(units: Seq<u16>) -> Seq<char>
    decreases units.len(),
{
    if units.len() == 0 || first_char_width(units) == 0 {
        Seq::empty()
    } else {
        seq![first_char(units)] + decode_utf16(units.skip(first_char_width(units) as int))
    }
}

proof fn lemma_encode_char(c: char)
    ensures
        first_char_width(encode_utf16_char(c)) == encode_utf16_char(c).len(),
        1 <= encode_utf16_char(c).len() <= 2,
        first_char(encode_utf16_char(c)) == c,
{
    let v = c as u32;
    assert(v <= 0x10FFFF && !(0xD800 <= v <= 0xDFFF));
    if v >= 0x10000 {
        let hi = (0xD800 + (v - 0x10000) / 0x400) as u16;
        let lo = (0xDC00 + (v - 0x10000) % 0x400) as u16;
        assert(0x10000 + (hi - 0xD800) * 0x400 + (lo - 0xDC00) == v);
    }
}

proof fn lemma_first_char(units: Seq<u16>)
    requires
        first_char_width(units) > 0,
    ensures
        encode_utf16_char(first_char(units)) == units.take(first_char_width(units) as int),
{
    if first_char_width(units) == 1 {
        let v = units[0] as u32;
        assert((v as char) as u32 == v);
        assert(encode_utf16_char(first_char(units)) =~= units.take(1));
    } else {
        let v = (0x10000 + (units[0] - 0xD800) * 0x400 + (units[1] - 0xDC00)) as u32;
        assert(0x10000 <= v <= 0x10FFFF);
        assert((v as char) as u32 == v);
        assert(encode_utf16_char(first_char(units)) =~= units.take(2));
    }
}

/// Encoding yields well-formed units, between one and two per character, and
/// decoding them gives the text back.
pub proof fn lemma_encode_decode_utf16(text: Seq<char>)
    ensures
        valid_utf16(encode_utf16(text)),
        decode_utf16(encode_utf16(text)) == text,
        text.len() <= encode_utf16(text).len() <= 2 * text.len(),
    decreases text.len(),
{
    if text.len() > 0 {
        let head = encode_utf16_char(text[0]);
        let units = encode_utf16(text);
        lemma_encode_char(text[0]);
        lemma_encode_decode_utf16(text.drop_first());
        assert(first_char_width(units) == head.len());
        assert(units.skip(head.len() as int) =~= encode_utf16(text.drop_first()));
        assert(first_char(units) == text[0]) by {
            assert(units.take(head.len() as int) =~= head);
        }
        assert(decode_utf16(units) =~= text);
    }
}

/// Decoding well-formed units and encoding the text gives the units back.
pub proof fn lemma_decode_encode_utf16(units: Seq<u16>)
    requires
        valid_utf16(units),
    ensures
        encode_utf16(decode_utf16(units)) == units,
    decreases units.len(),
{
    if units.len() > 0 {
        let w = first_char_width(units) as int;
        let text = decode_utf16(units);
        lemma_first_char(units);
        lemma_decode_encode_utf16(units.skip(w));
        assert(text.drop_first() =~= decode_utf16(units.skip(w)));
        assert(units =~= units.take(w) + units.skip(w));
    }
}

/// `String::from_utf16`: the text that the units stand for, or `None` where
/// they are not well-formed UTF-16.
#[verifier::external_body]
pub(crate) fn string_from_utf16(units: &[u16]) -> (r: Option<String>)
    ensures
        valid_utf16(units@) ==> r is Some && r->0@ == decode_utf16(units@),
        !valid_utf16(units@) ==> r is None,
{
    String::from_utf16(units).ok()
}

/// `str::encode_utf16`: the UTF-16 units of the text, collected in order.
#[verifier::external_body]
pub(crate) fn str_encode_utf16(text: &str) -> (r: Vec<u16>)
    ensures
        r@ == encode_utf16(text@),
{
    text.encode_utf16().collect()
}

} // verus!

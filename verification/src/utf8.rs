//! Zero bytes at the end of UTF-8 text, and the standard library's check of
//! UTF-8.

use vstd::prelude::*;
use vstd::utf8::{
    char_u32_cast, decode_utf8, encode_scalar, encode_utf8, encode_utf8_decode_utf8,
    encode_utf8_valid_utf8, has_width_1_encoding, last_continuation_byte, leading_byte_width_1,
    valid_utf8,
};

verus! {

/// `bytes` without the zero bytes at its end.
pub open spec fn strip_trailing_zeros(bytes: Seq<u8>) -> Seq<u8>
    decreases bytes.len(),
{
    if bytes.len() > 0 && bytes.last() == 0 {
        strip_trailing_zeros(bytes.drop_last())
    } else {
        bytes
    }
}

/// `bytes` without one zero byte at its end, if it ends in one.
pub open spec fn drop_terminator(bytes: Seq<u8>) -> Seq<u8> {
    if bytes.len() > 0 && bytes.last() == 0 {
        bytes.drop_last()
    } else {
        bytes
    }
}

/// Stripping yields a prefix that ends in no zero byte, followed by zero
/// bytes only.
pub proof fn lemma_strip_trailing_zeros(bytes: Seq<u8>)
    ensures
        strip_trailing_zeros(bytes).len() <= bytes.len(),
        strip_trailing_zeros(bytes) == bytes.take(strip_trailing_zeros(bytes).len() as int),
        strip_trailing_zeros(bytes).len() > 0 ==> strip_trailing_zeros(bytes).last() != 0,
        forall|i: int| strip_trailing_zeros(bytes).len() <= i < bytes.len() ==> bytes[i] == 0,
    decreases bytes.len(),
{
    if bytes.len() > 0 && bytes.last() == 0 {
        lemma_strip_trailing_zeros(bytes.drop_last());
        let n = strip_trailing_zeros(bytes).len() as int;
        assert(bytes.drop_last().take(n) =~= bytes.take(n));
        assert forall|i: int| n <= i < bytes.len() implies bytes[i] == 0 by {
            if i < bytes.len() - 1 {
                assert(bytes.drop_last()[i] == bytes[i]);
            }
        }
    } else {
        assert(bytes.take(bytes.len() as int) =~= bytes);
    }
}

/// `text` without the NUL characters at its end.
pub open spec fn strip_nul(text: Seq<char>) -> Seq<char>
    decreases text.len(),
{
    if text.len() > 0 && text.last() == '\0' {
        strip_nul(text.drop_last())
    } else {
        text
    }
}

proof fn lemma_encode_utf8_push(text: Seq<char>, c: char)
    ensures
        encode_utf8(text.push(c)) == encode_utf8(text) + encode_scalar(c as u32),
    decreases text.len(),
{
    if text.len() == 0 {
        assert(text.push(c).drop_first() =~= Seq::<char>::empty());
        assert(text.push(c)[0] == c);
        assert(encode_utf8(text.push(c)) == encode_scalar(c as u32) + encode_utf8(
            Seq::<char>::empty(),
        ));
        assert(encode_utf8(text.push(c)) =~= encode_scalar(c as u32));
        assert(encode_utf8(text) + encode_scalar(c as u32) =~= encode_scalar(c as u32));
    } else {
        lemma_encode_utf8_push(text.drop_first(), c);
        assert(text.push(c).drop_first() =~= text.drop_first().push(c));
        assert(encode_utf8(text.push(c)) =~= encode_utf8(text) + encode_scalar(c as u32));
    }
}

proof fn lemma_last_byte_of_scalar(v: u32)
    ensures
        encode_scalar(v).len() >= 1,
        encode_scalar(v).last() == 0 <==> v == 0,
        v == 0 ==> encode_scalar(v) == seq![0u8],
{
    if has_width_1_encoding(v) {
        assert(leading_byte_width_1(v) == v) by (bit_vector)
            requires
                v <= 0x7F,
        ;
    } else {
        assert(last_continuation_byte(v) != 0) by (bit_vector);
    }
}

/// The bytes of a text end in as many zero bytes as the text ends in NUL
/// characters: stripping either gives the same bytes.
pub proof fn lemma_strip_nul_bytes(text: Seq<char>)
    ensures
        strip_trailing_zeros(encode_utf8(text)) == encode_utf8(strip_nul(text)),
    decreases text.len(),
{
    if text.len() > 0 {
        let c = text.last();
        let front = text.drop_last();
        assert(text =~= front.push(c));
        lemma_encode_utf8_push(front, c);
        lemma_last_byte_of_scalar(c as u32);
        let bytes = encode_utf8(text);
        assert(bytes.last() == encode_scalar(c as u32).last());
        if c == '\0' {
            assert(bytes.drop_last() =~= encode_utf8(front));
            lemma_strip_nul_bytes(front);
        } else {
            assert(c as u32 != 0) by {
                if c as u32 == 0 {
                    char_u32_cast(c, 0);
                    char_u32_cast('\0', 0);
                }
            }
        }
    }
}

/// The bytes of a text without NUL characters at its end are UTF-8 that ends
/// in no zero byte and stands for that text; they are empty only if the text
/// is.
pub proof fn lemma_stripped_bytes(text: Seq<char>)
    ensures
        valid_utf8(encode_utf8(strip_nul(text))),
        decode_utf8(encode_utf8(strip_nul(text))) == strip_nul(text),
        drop_terminator(encode_utf8(strip_nul(text))) == encode_utf8(strip_nul(text)),
        encode_utf8(strip_nul(text)).len() == 0 ==> strip_nul(text).len() == 0,
{
    let stripped = strip_nul(text);
    encode_utf8_valid_utf8(stripped);
    encode_utf8_decode_utf8(stripped);
    lemma_strip_nul_bytes(text);
    lemma_strip_trailing_zeros(encode_utf8(text));
    if stripped.len() > 0 {
        lemma_last_byte_of_scalar(stripped[0] as u32);
    }
}

/// `String::from_utf8`: the text that the bytes stand for, or `None` where
/// they are not well-formed UTF-8.
#[verifier::external_body]
pub(crate) fn string_from_utf8(bytes: Vec<u8>) -> (r: Option<String>)
    ensures
        valid_utf8(bytes@) ==> r is Some && r->0@ == decode_utf8(bytes@),
        !valid_utf8(bytes@) ==> r is None,
{
    String::from_utf8(bytes).ok()
}

} // verus!

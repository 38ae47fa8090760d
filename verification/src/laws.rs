//! What holds between decoding and encoding.
//!
//! Decoding what was encoded gives the value back, and encoding what was
//! decoded gives the bytes back, for every subtype of fixed size without
//! condition. For the subtypes that carry text this holds where reading and
//! writing count a text field for the same size: in the wide encoding, for
//! texts that are not empty. In every other case an encoded Pluralize whose
//! prefixes hold the lengths of its payloads fails to decode, so that it
//! never decodes as anything but itself. A declared length is checked: a
//! payload decodes under one declared length at most.

use vstd::prelude::*;
use crate::capitalize::Control201Capitalize;
use crate::definite::Control201Definite;
use crate::downcase::Control201Downcase;
use crate::error::{ControlError, DecodeError};
use crate::gender::Control201Gender;
use crate::header::{Encoding, Header};
use crate::indefinite::Control201Indefinite;
use crate::info::Control201Info;
use crate::longvowel::{
    spec_options_bytes, spec_options_fields, spec_options_size, spec_read_options,
    Control201LongVowel,
};
use crate::pluralize::{Control201Pluralize, PluralizeView};
use crate::text::{
    lemma_read_string_bounds, lemma_text_read_back, lemma_wide_payload,
    lemma_wide_text_canonical, lemma_wide_text_round_trip, prefix_limit, spec_read_back_size,
    spec_read_back_text, spec_read_string, spec_string_bytes, spec_string_field,
    spec_string_size, wide_text_fits,
};
use crate::two_hundred_one::{
    spec_parse, spec_parse_payload, Control201View, ControlView, KIND_LONG_VOWEL_FIRST,
    KIND_LONG_VOWEL_LAST,
};
use crate::wire::{lemma_u16_read_write, lemma_u16_write_read, u16_from_bytes};

verus! {

/// Decoding an encoded Info, whatever follows it, gives the same Info and
/// reads exactly its six bytes.
pub proof fn lemma_info_round_trip(header: Header, value: Control201Info, tail: Seq<u8>)
    ensures
        Control201Info::spec_parse(header, value.spec_bytes(header) + tail) == Ok::<
            (Control201Info, nat),
            DecodeError,
        >((value, 6)),
        value.spec_bytes(header).len() == 6,
{
    lemma_u16_write_read(header.endianness, Control201Info::LENGTH);
}

/// Encoding a decoded Info gives the bytes that were read.
pub proof fn lemma_info_canonical(header: Header, input: Seq<u8>)
    requires
        Control201Info::spec_parse(header, input) is Ok,
    ensures
        ({
            let (value, n) = Control201Info::spec_parse(header, input)->Ok_0;
            &&& n <= input.len()
            &&& value.spec_bytes(header) == input.take(n as int)
        }),
{
    let (value, n) = Control201Info::spec_parse(header, input)->Ok_0;
    lemma_u16_read_write(header.endianness, input[0], input[1]);
    assert(value.spec_bytes(header) =~= input.take(n as int));
}

/// Where the input holds the six bytes of an Info payload, decoding fails if
/// and only if the declared length is not 4.
pub proof fn lemma_info_fails_iff_length_differs(header: Header, input: Seq<u8>)
    requires
        input.len() >= 6,
    ensures
        Control201Info::spec_parse(header, input) is Err <==> u16_from_bytes(
            header.endianness,
            input[0],
            input[1],
        ) != 4,
        Control201Info::spec_parse(header, input) is Err ==> Control201Info::spec_parse(
            header,
            input,
        ) == Err::<(Control201Info, nat), DecodeError>(DecodeError::LengthMismatch),
{
}

/// Decoding an encoded Gender, whatever follows it, gives the same Gender and
/// reads exactly its five bytes.
pub proof fn lemma_gender_round_trip(header: Header, value: Control201Gender, tail: Seq<u8>)
    ensures
        Control201Gender::spec_parse(header, value.spec_bytes(header) + tail) == Ok::<
            (Control201Gender, nat),
            DecodeError,
        >((value, 5)),
        value.spec_bytes(header).len() == 5,
{
    lemma_u16_write_read(header.endianness, Control201Gender::LENGTH);
}

/// Encoding a decoded Gender gives the bytes that were read.
pub proof fn lemma_gender_canonical(header: Header, input: Seq<u8>)
    requires
        Control201Gender::spec_parse(header, input) is Ok,
    ensures
        ({
            let (value, n) = Control201Gender::spec_parse(header, input)->Ok_0;
            &&& n <= input.len()
            &&& value.spec_bytes(header) == input.take(n as int)
        }),
{
    let (value, n) = Control201Gender::spec_parse(header, input)->Ok_0;
    lemma_u16_read_write(header.endianness, input[0], input[1]);
    assert(value.spec_bytes(header) =~= input.take(n as int));
}

/// Where the input holds the five bytes of a Gender payload, decoding fails
/// if and only if the declared length is not 3.
pub proof fn lemma_gender_fails_iff_length_differs(header: Header, input: Seq<u8>)
    requires
        input.len() >= 5,
    ensures
        Control201Gender::spec_parse(header, input) is Err <==> u16_from_bytes(
            header.endianness,
            input[0],
            input[1],
        ) != 3,
{
}

/// Decoding an encoded Definite, whatever follows it, gives Definite and
/// reads exactly its two bytes.
pub proof fn lemma_definite_round_trip(header: Header, value: Control201Definite, tail: Seq<u8>)
    ensures
        Control201Definite::spec_parse(header, value.spec_bytes(header) + tail) == Ok::<
            (Control201Definite, nat),
            DecodeError,
        >((value, 2)),
        value.spec_bytes(header).len() == 2,
{
    lemma_u16_write_read(header.endianness, Control201Definite::LENGTH);
}

/// Encoding a decoded Definite gives the bytes that were read.
pub proof fn lemma_definite_canonical(header: Header, input: Seq<u8>)
    requires
        Control201Definite::spec_parse(header, input) is Ok,
    ensures
        ({
            let (value, n) = Control201Definite::spec_parse(header, input)->Ok_0;
            &&& n <= input.len()
            &&& value.spec_bytes(header) == input.take(n as int)
        }),
{
    let (value, n) = Control201Definite::spec_parse(header, input)->Ok_0;
    lemma_u16_read_write(header.endianness, input[0], input[1]);
    assert(value.spec_bytes(header) =~= input.take(n as int));
}

/// Where the input holds the two bytes of a declared length, decoding a
/// Definite fails if and only if that length is not 0.
pub proof fn lemma_definite_fails_iff_length_differs(header: Header, input: Seq<u8>)
    requires
        input.len() >= 2,
    ensures
        Control201Definite::spec_parse(header, input) is Err <==> u16_from_bytes(
            header.endianness,
            input[0],
            input[1],
        ) != 0,
        Control201Definite::spec_parse(header, input) is Err ==> Control201Definite::spec_parse(
            header,
            input,
        ) == Err::<(Control201Definite, nat), DecodeError>(DecodeError::LengthMismatch),
{
}

/// Decoding an encoded Indefinite, whatever follows it, gives Indefinite and
/// reads exactly its two bytes.
pub proof fn lemma_indefinite_round_trip(
    header: Header,
    value: Control201Indefinite,
    tail: Seq<u8>,
)
    ensures
        Control201Indefinite::spec_parse(header, value.spec_bytes(header) + tail) == Ok::<
            (Control201Indefinite, nat),
            DecodeError,
        >((value, 2)),
        value.spec_bytes(header).len() == 2,
{
    lemma_u16_write_read(header.endianness, Control201Indefinite::LENGTH);
}

/// Encoding a decoded Indefinite gives the bytes that were read.
pub proof fn lemma_indefinite_canonical(header: Header, input: Seq<u8>)
    requires
        Control201Indefinite::spec_parse(header, input) is Ok,
    ensures
        ({
            let (value, n) = Control201Indefinite::spec_parse(header, input)->Ok_0;
            &&& n <= input.len()
            &&& value.spec_bytes(header) == input.take(n as int)
        }),
{
    let (value, n) = Control201Indefinite::spec_parse(header, input)->Ok_0;
    lemma_u16_read_write(header.endianness, input[0], input[1]);
    assert(value.spec_bytes(header) =~= input.take(n as int));
}

/// Where the input holds the two bytes of a declared length, decoding an
/// Indefinite fails if and only if that length is not 0.
pub proof fn lemma_indefinite_fails_iff_length_differs(header: Header, input: Seq<u8>)
    requires
        input.len() >= 2,
    ensures
        Control201Indefinite::spec_parse(header, input) is Err <==> u16_from_bytes(
            header.endianness,
            input[0],
            input[1],
        ) != 0,
{
}

/// Whether a Pluralize is decoded as it was encoded: the encoding is the wide
/// one, none of its texts is empty, and the sizes that they count for add up
/// to a length that sixteen bits can hold.
pub open spec fn pluralize_round_trips(header: Header, value: PluralizeView) -> bool {
    &&& header.encoding == Encoding::Utf16
    &&& wide_text_fits(value.one)
    &&& wide_text_fits(value.more)
    &&& wide_text_fits(value.many)
    &&& value.spec_size(header) <= 0xFFFF
}

/// Whether the length prefix of each of the three fields can hold the length
/// of its payload.
pub open spec fn pluralize_fields_fit(header: Header, value: PluralizeView) -> bool {
    &&& spec_string_bytes(header, value.one).len() < prefix_limit(header.encoding)
    &&& spec_string_bytes(header, value.more).len() < prefix_limit(header.encoding)
    &&& spec_string_bytes(header, value.many).len() < prefix_limit(header.encoding)
}

/// The three texts as they are read back.
spec fn pluralize_read_back(header: Header, value: PluralizeView) -> PluralizeView {
    PluralizeView {
        one: spec_read_back_text(header, value.one),
        more: spec_read_back_text(header, value.more),
        many: spec_read_back_text(header, value.many),
    }
}

/// The sum of the sizes that the three texts count for when they are read
/// back.
spec fn pluralize_read_back_size(header: Header, value: PluralizeView) -> nat {
    spec_read_back_size(header, value.one) + spec_read_back_size(header, value.more)
        + spec_read_back_size(header, value.many)
}

proof fn lemma_pluralize_read_back(header: Header, value: PluralizeView, tail: Seq<u8>)
    requires
        pluralize_fields_fit(header, value),
    ensures
        Control201Pluralize::spec_parse(header, value.spec_bytes(header) + tail) == (
        if pluralize_read_back_size(header, value) == value.spec_size(header) % 0x10000 {
            Ok::<(PluralizeView, nat), DecodeError>(
                (pluralize_read_back(header, value), value.spec_bytes(header).len()),
            )
        } else {
            Err::<(PluralizeView, nat), DecodeError>(DecodeError::LengthMismatch)
        }),
{
    let declared = (value.spec_size(header) % 0x10000) as u16;
    let one = spec_string_field(header, spec_string_bytes(header, value.one));
    let more = spec_string_field(header, spec_string_bytes(header, value.more));
    let many = spec_string_field(header, spec_string_bytes(header, value.many));
    let input = value.spec_bytes(header) + tail;
    lemma_u16_write_read(header.endianness, declared);
    lemma_text_read_back(header, value.one, more + many + tail);
    lemma_text_read_back(header, value.more, many + tail);
    lemma_text_read_back(header, value.many, tail);
    assert(input.skip(2) =~= one + (more + many + tail));
    assert(input.skip(2 + one.len() as int) =~= more + (many + tail));
    assert(input.skip(2 + one.len() as int + more.len() as int) =~= many + tail);
}

/// What decoding an encoded Pluralize gives, whatever follows it, where the
/// prefixes can hold the lengths of the payloads: the same three texts, read
/// from exactly the encoded bytes, or a length mismatch. It gives the texts
/// where reading counts every field for what writing counted it for, which
/// is in the wide encoding, for texts that are not empty and sizes that add
/// up to a length that sixteen bits can hold. Everywhere else it fails: a
/// field of the byte encoding counts for one more than its payload when
/// written and for two more when read, and an empty field counts for nothing
/// when read.
pub proof fn lemma_pluralize_decodes_only_as_written(
    header: Header,
    value: PluralizeView,
    tail: Seq<u8>,
)
    requires
        pluralize_fields_fit(header, value),
    ensures
        Control201Pluralize::spec_parse(header, value.spec_bytes(header) + tail) == (
        if pluralize_round_trips(header, value) {
            Ok::<(PluralizeView, nat), DecodeError>((value, value.spec_bytes(header).len()))
        } else {
            Err::<(PluralizeView, nat), DecodeError>(DecodeError::LengthMismatch)
        }),
{
    lemma_pluralize_read_back(header, value, tail);
    if header.encoding == Encoding::Utf16 {
        lemma_wide_payload(header, value.one);
        lemma_wide_payload(header, value.more);
        lemma_wide_payload(header, value.many);
    }
}

/// Decoding an encoded Pluralize, whatever follows it, gives the same three
/// texts and reads exactly the encoded bytes, in the wide encoding and for
/// texts that are not empty.
pub proof fn lemma_pluralize_round_trip(header: Header, value: PluralizeView, tail: Seq<u8>)
    requires
        pluralize_round_trips(header, value),
    ensures
        Control201Pluralize::spec_parse(header, value.spec_bytes(header) + tail) == Ok::<
            (PluralizeView, nat),
            DecodeError,
        >((value, value.spec_bytes(header).len())),
{
    lemma_wide_payload(header, value.one);
    lemma_wide_payload(header, value.more);
    lemma_wide_payload(header, value.many);
    lemma_pluralize_decodes_only_as_written(header, value, tail);
}

/// Encoding a decoded Pluralize gives the bytes that were read, in the wide
/// encoding and where none of the texts is empty.
pub proof fn lemma_pluralize_canonical(header: Header, input: Seq<u8>)
    requires
        header.encoding == Encoding::Utf16,
        Control201Pluralize::spec_parse(header, input) is Ok,
        Control201Pluralize::spec_parse(header, input)->Ok_0.0.one.len() > 0,
        Control201Pluralize::spec_parse(header, input)->Ok_0.0.more.len() > 0,
        Control201Pluralize::spec_parse(header, input)->Ok_0.0.many.len() > 0,
    ensures
        ({
            let (value, n) = Control201Pluralize::spec_parse(header, input)->Ok_0;
            &&& n <= input.len()
            &&& pluralize_round_trips(header, value)
            &&& value.spec_bytes(header) == input.take(n as int)
        }),
{
    let (value, n) = Control201Pluralize::spec_parse(header, input)->Ok_0;
    let first = input.skip(2);
    let one = spec_read_string(header, first)->Ok_0;
    let at_more = 2 + one.taken as int;
    let second = input.skip(at_more);
    let more = spec_read_string(header, second)->Ok_0;
    let at_many = at_more + more.taken as int;
    let third = input.skip(at_many);
    let many = spec_read_string(header, third)->Ok_0;
    lemma_read_string_bounds(header, first);
    lemma_read_string_bounds(header, second);
    lemma_read_string_bounds(header, third);
    lemma_wide_text_canonical(header, first);
    lemma_wide_text_canonical(header, second);
    lemma_wide_text_canonical(header, third);
    lemma_u16_read_write(header.endianness, input[0], input[1]);
    assert(value.spec_bytes(header) =~= input.take(n as int)) by {
        assert(first.take(one.taken as int) =~= input.subrange(2, at_more));
        assert(second.take(more.taken as int) =~= input.subrange(at_more, at_many));
        assert(third.take(many.taken as int) =~= input.subrange(
            at_many,
            at_many + many.taken as int,
        ));
    }
}

/// A Pluralize payload decodes under one declared length at most: where it
/// decodes, the same payload with any other declared length in its first two
/// bytes, such as one more or one less, fails with a length mismatch.
pub proof fn lemma_pluralize_declared_length_is_checked(
    header: Header,
    input: Seq<u8>,
    corrupted: Seq<u8>,
)
    requires
        Control201Pluralize::spec_parse(header, input) is Ok,
        corrupted.len() == input.len(),
        corrupted.skip(2) == input.skip(2),
        u16_from_bytes(header.endianness, corrupted[0], corrupted[1]) != u16_from_bytes(
            header.endianness,
            input[0],
            input[1],
        ),
    ensures
        Control201Pluralize::spec_parse(header, corrupted) == Err::<
            (PluralizeView, nat),
            DecodeError,
        >(DecodeError::LengthMismatch),
{
    let one = spec_read_string(header, input.skip(2))->Ok_0;
    let at_more = 2 + one.taken as int;
    let more = spec_read_string(header, input.skip(at_more))->Ok_0;
    let at_many = at_more + more.taken as int;
    lemma_read_string_bounds(header, input.skip(2));
    lemma_read_string_bounds(header, input.skip(at_more));
    assert(corrupted.skip(at_more) =~= corrupted.skip(2).skip(at_more - 2));
    assert(input.skip(at_more) =~= input.skip(2).skip(at_more - 2));
    assert(corrupted.skip(at_many) =~= corrupted.skip(2).skip(at_many - 2));
    assert(input.skip(at_many) =~= input.skip(2).skip(at_many - 2));
}

/// Whether a list of options is decoded as it was encoded: the encoding is
/// the wide one, no option is empty, and the sizes that the options count for
/// add up to a length that sixteen bits can hold.
pub open spec fn options_round_trip(header: Header, options: Seq<Seq<char>>) -> bool {
    &&& header.encoding == Encoding::Utf16
    &&& forall|i: int| 0 <= i < options.len() ==> wide_text_fits(#[trigger] options[i])
    &&& spec_options_size(header, options) <= 0xFFFF
}

proof fn lemma_options_front(header: Header, options: Seq<Seq<char>>)
    requires
        options.len() > 0,
    ensures
        spec_options_size(header, options) == spec_string_size(header, options[0])
            + spec_options_size(header, options.drop_first()),
        spec_options_fields(header, options) == spec_string_field(
            header,
            spec_string_bytes(header, options[0]),
        ) + spec_options_fields(header, options.drop_first()),
    decreases options.len(),
{
    let field = spec_string_field(header, spec_string_bytes(header, options[0]));
    if options.len() == 1 {
        assert(options.drop_last() =~= Seq::<Seq<char>>::empty());
        assert(options.drop_first() =~= Seq::<Seq<char>>::empty());
        assert(spec_options_fields(header, options) =~= field + spec_options_fields(
            header,
            options.drop_first(),
        ));
    } else {
        lemma_options_front(header, options.drop_last());
        assert(options.drop_last().drop_first() =~= options.drop_first().drop_last());
        assert(spec_options_fields(header, options) =~= field + spec_options_fields(
            header,
            options.drop_first(),
        ));
    }
}

proof fn lemma_options_read_back(header: Header, options: Seq<Seq<char>>, tail: Seq<u8>)
    requires
        header.encoding == Encoding::Utf16,
        forall|i: int| 0 <= i < options.len() ==> wide_text_fits(#[trigger] options[i]),
    ensures
        spec_read_options(
            header,
            spec_options_fields(header, options) + tail,
            spec_options_size(header, options),
        ) == Ok::<(Seq<Seq<char>>, nat), DecodeError>(
            (options, spec_options_fields(header, options).len()),
        ),
    decreases options.len(),
{
    if options.len() > 0 {
        let rest = options.drop_first();
        let field = spec_string_field(header, spec_string_bytes(header, options[0]));
        let input = spec_options_fields(header, options) + tail;
        lemma_options_front(header, options);
        assert(wide_text_fits(options[0]));
        assert forall|i: int| 0 <= i < rest.len() implies wide_text_fits(#[trigger] rest[i]) by {
            assert(rest[i] == options[i + 1]);
        }
        lemma_wide_text_round_trip(header, options[0], spec_options_fields(header, rest) + tail);
        lemma_options_read_back(header, rest, tail);
        assert(input =~= field + (spec_options_fields(header, rest) + tail));
        assert(input.skip(field.len() as int) =~= spec_options_fields(header, rest) + tail);
        assert(seq![options[0]] + rest =~= options);
        assert(spec_string_size(header, options[0]) > 0);
        assert(spec_read_string(header, input) is Ok);
    } else {
        assert(options =~= Seq::<Seq<char>>::empty());
    }
}

/// Decoding an encoded list of options, whatever follows it, gives the same
/// options and reads exactly the encoded bytes, in the wide encoding and for
/// options that are not empty.
pub proof fn lemma_long_vowel_round_trip(header: Header, options: Seq<Seq<char>>, tail: Seq<u8>)
    requires
        options_round_trip(header, options),
    ensures
        Control201LongVowel::spec_parse(header, spec_options_bytes(header, options) + tail) == Ok::<
            (Seq<Seq<char>>, nat),
            DecodeError,
        >((options, spec_options_bytes(header, options).len())),
{
    let input = spec_options_bytes(header, options) + tail;
    lemma_u16_write_read(header.endianness, spec_options_size(header, options) as u16);
    lemma_options_read_back(header, options, tail);
    assert(input.skip(2) =~= spec_options_fields(header, options) + tail);
}

proof fn lemma_options_canonical(header: Header, input: Seq<u8>, budget: nat)
    requires
        header.encoding == Encoding::Utf16,
        spec_read_options(header, input, budget) is Ok,
        forall|i: int|
            0 <= i < spec_read_options(header, input, budget)->Ok_0.0.len() ==> (
            #[trigger] spec_read_options(header, input, budget)->Ok_0.0[i]).len() > 0,
    ensures
        ({
            let (options, n) = spec_read_options(header, input, budget)->Ok_0;
            &&& n <= input.len()
            &&& spec_options_size(header, options) == budget
            &&& spec_options_fields(header, options) == input.take(n as int)
            &&& forall|i: int| 0 <= i < options.len() ==> wide_text_fits(#[trigger] options[i])
        }),
    decreases input.len(),
{
    let (options, n) = spec_read_options(header, input, budget)->Ok_0;
    if budget == 0 {
        assert(spec_options_fields(header, options) =~= input.take(n as int));
    } else {
        let read = spec_read_string(header, input)->Ok_0;
        let after = input.skip(read.taken as int);
        let left = (budget - read.size) as nat;
        let (rest, m) = spec_read_options(header, after, left)->Ok_0;
        lemma_read_string_bounds(header, input);
        assert(options =~= seq![read.text] + rest);
        assert(options[0] == read.text);
        assert(options.drop_first() =~= rest);
        assert forall|i: int| 0 <= i < rest.len() implies (#[trigger] rest[i]).len() > 0 by {
            assert(rest[i] == options[i + 1]);
        }
        lemma_wide_text_canonical(header, input);
        lemma_options_canonical(header, after, left);
        lemma_options_front(header, options);
        assert(spec_options_fields(header, options) =~= input.take(n as int)) by {
            assert(after.take(m as int) =~= input.subrange(
                read.taken as int,
                read.taken as int + m as int,
            ));
        }
        assert forall|i: int| 0 <= i < options.len() implies wide_text_fits(
            #[trigger] options[i],
        ) by {
            if i > 0 {
                assert(options[i] == rest[i - 1]);
            }
        }
    }
}

/// Encoding a decoded list of options gives the bytes that were read, in the
/// wide encoding and where none of the options is empty.
pub proof fn lemma_long_vowel_canonical(header: Header, input: Seq<u8>)
    requires
        header.encoding == Encoding::Utf16,
        Control201LongVowel::spec_parse(header, input) is Ok,
        forall|i: int|
            0 <= i < Control201LongVowel::spec_parse(header, input)->Ok_0.0.len() ==> (
            #[trigger] Control201LongVowel::spec_parse(header, input)->Ok_0.0[i]).len() > 0,
    ensures
        ({
            let (options, n) = Control201LongVowel::spec_parse(header, input)->Ok_0;
            &&& n <= input.len()
            &&& options_round_trip(header, options)
            &&& spec_options_bytes(header, options) == input.take(n as int)
        }),
{
    let (options, n) = Control201LongVowel::spec_parse(header, input)->Ok_0;
    let declared = u16_from_bytes(header.endianness, input[0], input[1]);
    lemma_options_canonical(header, input.skip(2), declared as nat);
    lemma_u16_read_write(header.endianness, input[0], input[1]);
    assert(spec_options_bytes(header, options) =~= input.take(n as int)) by {
        assert(input.skip(2).take(n - 2) =~= input.subrange(2, n as int));
    }
}

/// A kind above 8 selects no subtype: decoding fails and reports the kind.
pub proof fn lemma_unknown_kind(header: Header, kind: u16, payload: Seq<u8>)
    requires
        kind > KIND_LONG_VOWEL_LAST,
    ensures
        spec_parse_payload(header, kind, payload) == Err::<(ControlView, nat), DecodeError>(
            DecodeError::UnknownKind(kind),
        ),
{
}

/// Whether an encoded control can be decoded again: the texts that it
/// carries, if any, are read back as written, and a locale-variant control
/// carries one of the two kinds that select its subtype.
pub open spec fn control_round_trips(header: Header, value: Control201View) -> bool {
    match value {
        Control201View::Pluralize(_, c) => pluralize_round_trips(header, c),
        Control201View::LongVowel(kind, options) => KIND_LONG_VOWEL_FIRST <= kind
            <= KIND_LONG_VOWEL_LAST && options_round_trip(header, options),
        _ => true,
    }
}

/// Decoding an encoded control, whatever follows it, gives the control back
/// under the kind of its variant, the locale-variant subtype as the result
/// that stands beside the group, and reads exactly the payload behind the
/// kind. A control that carries a kind of its variant comes back as it is,
/// and any other comes back as a control that encodes to the same bytes.
pub proof fn lemma_control_round_trip(header: Header, value: Control201View, tail: Seq<u8>)
    requires
        control_round_trips(header, value),
    ensures
        spec_parse(header, value.spec_bytes(header) + tail) == Ok::<
            (ControlView, nat),
            ControlError,
        >((value.normalized().decoded(), value.spec_payload(header).len())),
        value.normalized().well_formed(),
        value.normalized().spec_bytes(header) == value.spec_bytes(header),
        value.well_formed() ==> value.normalized() == value,
{
    let buf = value.spec_bytes(header) + tail;
    lemma_u16_write_read(header.endianness, value.discriminant());
    assert(buf.skip(2) =~= value.spec_payload(header) + tail);
    match value {
        Control201View::Info(_, c) => lemma_info_round_trip(header, c, tail),
        Control201View::Definite(_, c) => lemma_definite_round_trip(header, c, tail),
        Control201View::Indefinite(_, c) => lemma_indefinite_round_trip(header, c, tail),
        Control201View::Capitalize(_, c) => {
            assert(Control201Capitalize::spec_parse(header, buf.skip(2)) is Ok);
        },
        Control201View::Downcase(_, c) => {
            assert(Control201Downcase::spec_parse(header, buf.skip(2)) is Ok);
        },
        Control201View::Gender(_, c) => lemma_gender_round_trip(header, c, tail),
        Control201View::Pluralize(_, c) => lemma_pluralize_round_trip(header, c, tail),
        Control201View::LongVowel(_, options) => lemma_long_vowel_round_trip(
            header,
            options,
            tail,
        ),
    }
}

proof fn lemma_options_within(header: Header, input: Seq<u8>, budget: nat)
    requires
        spec_read_options(header, input, budget) is Ok,
    ensures
        spec_read_options(header, input, budget)->Ok_0.1 <= input.len(),
    decreases input.len(),
{
    if budget > 0 {
        let read = spec_read_string(header, input)->Ok_0;
        lemma_read_string_bounds(header, input);
        lemma_options_within(
            header,
            input.skip(read.taken as int),
            (budget - read.size) as nat,
        );
    }
}

/// What holds of every control that decoding yields: it carries a kind of its
/// variant, it is the result of decoding the control that encodes it, and the
/// bytes that were read lie within the buffer.
pub proof fn lemma_decoded_control(header: Header, buf: Seq<u8>)
    requires
        spec_parse(header, buf) is Ok,
    ensures
        ({
            let (value, n) = spec_parse(header, buf)->Ok_0;
            &&& value.control().well_formed()
            &&& value.control().decoded() == value
            &&& 2 + n <= buf.len()
        }),
{
    let (value, n) = spec_parse(header, buf)->Ok_0;
    let payload = buf.skip(2);
    match value.control() {
        Control201View::Pluralize(_, c) => {
            let one = spec_read_string(header, payload.skip(2))->Ok_0;
            let at_more = 2 + one.taken as int;
            let more = spec_read_string(header, payload.skip(at_more))->Ok_0;
            let at_many = at_more + more.taken as int;
            lemma_read_string_bounds(header, payload.skip(2));
            lemma_read_string_bounds(header, payload.skip(at_more));
            lemma_read_string_bounds(header, payload.skip(at_many));
        },
        Control201View::LongVowel(_, options) => {
            let declared = u16_from_bytes(header.endianness, payload[0], payload[1]);
            lemma_options_within(header, payload.skip(2), declared as nat);
        },
        _ => {},
    }
}

/// Whether a decoding result carries no empty text.
pub open spec fn texts_present(value: ControlView) -> bool {
    match value {
        ControlView::Raw(Control201View::Pluralize(_, c)) => c.one.len() > 0 && c.more.len() > 0
            && c.many.len() > 0,
        ControlView::Raw(Control201View::LongVowel(_, options)) => forall|i: int|
            0 <= i < options.len() ==> (#[trigger] options[i]).len() > 0,
        ControlView::LongVowel { options, .. } => forall|i: int|
            0 <= i < options.len() ==> (#[trigger] options[i]).len() > 0,
        _ => true,
    }
}

/// Whether a decoding result carries text.
pub open spec fn carries_text(value: ControlView) -> bool {
    match value {
        ControlView::Raw(c) => c is Pluralize || c is LongVowel,
        ControlView::LongVowel { .. } => true,
    }
}

/// Encoding a decoded control gives the bytes that were read, kind included,
/// and the control is one that is decoded as it was encoded. Where the
/// control carries text, this holds in the wide encoding and where none of
/// the texts is empty.
pub proof fn lemma_control_canonical(header: Header, buf: Seq<u8>)
    requires
        spec_parse(header, buf) is Ok,
        carries_text(spec_parse(header, buf)->Ok_0.0) ==> header.encoding == Encoding::Utf16
            && texts_present(spec_parse(header, buf)->Ok_0.0),
    ensures
        ({
            let (value, n) = spec_parse(header, buf)->Ok_0;
            &&& control_round_trips(header, value.control())
            &&& value.control().well_formed()
            &&& value.control().decoded() == value
            &&& value.control().spec_bytes(header) == buf.take(2 + n as int)
        }),
{
    let (value, n) = spec_parse(header, buf)->Ok_0;
    let payload = buf.skip(2);
    lemma_u16_read_write(header.endianness, buf[0], buf[1]);
    match value.control() {
        Control201View::Info(_, c) => lemma_info_canonical(header, payload),
        Control201View::Definite(_, c) => lemma_definite_canonical(header, payload),
        Control201View::Indefinite(_, c) => lemma_indefinite_canonical(header, payload),
        Control201View::Capitalize(_, c) => {},
        Control201View::Downcase(_, c) => {},
        Control201View::Gender(_, c) => lemma_gender_canonical(header, payload),
        Control201View::Pluralize(_, c) => lemma_pluralize_canonical(header, payload),
        Control201View::LongVowel(_, options) => lemma_long_vowel_canonical(header, payload),
    }
    assert(value.control().spec_bytes(header) =~= buf.take(2 + n as int)) by {
        assert(payload.take(n as int) =~= buf.subrange(2, 2 + n as int));
    }
}

} // verus!

use control201::text::{get_string_bytes, read_string, write_string};
use control201::{
    Control, Control201, Control201LongVowel, Control201Pluralize, ControlError, Cursor,
    DecodeError, Encoding, Endianness, Field, Header,
};

fn wide(endianness: Endianness) -> Header {
    Header::new(endianness, Encoding::Utf16)
}

fn byte() -> Header {
    Header::new(Endianness::Big, Encoding::Utf8)
}

#[test]
fn cursor_reads_in_both_byte_orders() {
    let bytes = [0x01u8, 0x02, 0x03];
    let mut reader = Cursor::new(&bytes);
    assert_eq!(reader.read_u16(Endianness::Big), Some(0x0102));
    assert_eq!(reader.position(), 2);
    let mut reader = Cursor::new(&bytes);
    assert_eq!(reader.read_u16(Endianness::Little), Some(0x0201));
    assert_eq!(reader.read_u8(), Some(0x03));
    assert_eq!(reader.position(), 3);
}

#[test]
fn cursor_stays_where_a_read_fails() {
    let bytes = [0x01u8, 0x02, 0x03];
    let mut reader = Cursor::new(&bytes);
    assert_eq!(reader.read_u16(Endianness::Big), Some(0x0102));
    assert_eq!(reader.read_u16(Endianness::Big), None);
    assert_eq!(reader.position(), 2);
    assert_eq!(reader.read_exact(2), None);
    assert_eq!(reader.position(), 2);
    assert_eq!(reader.read_exact(1), Some(&bytes[2..]));
    assert_eq!(reader.read_u8(), None);
    assert_eq!(reader.read_exact(0), Some(&bytes[3..]));
    assert_eq!(reader.position(), 3);
}

#[test]
fn wide_text_counts_two_per_unit_plus_two() {
    let (size, bytes) = get_string_bytes(&wide(Endianness::Big), "h\u{00E9}");
    assert_eq!(size, 6);
    assert_eq!(bytes, vec![0x00, b'h', 0x00, 0xE9]);
    let (size, bytes) = get_string_bytes(&wide(Endianness::Little), "h\u{00E9}");
    assert_eq!(size, 6);
    assert_eq!(bytes, vec![b'h', 0x00, 0xE9, 0x00]);
    let (size, bytes) = get_string_bytes(&wide(Endianness::Big), "");
    assert_eq!(size, 2);
    assert_eq!(bytes, Vec::<u8>::new());
}

#[test]
fn wide_text_outside_the_basic_plane_takes_a_surrogate_pair() {
    let (size, bytes) = get_string_bytes(&wide(Endianness::Big), "\u{1F600}");
    assert_eq!(size, 6);
    assert_eq!(bytes, vec![0xD8, 0x3D, 0xDE, 0x00]);
    let (size, bytes) = get_string_bytes(&wide(Endianness::Little), "a\u{10000}\u{10FFFF}");
    assert_eq!(size, 12);
    assert_eq!(bytes, vec![b'a', 0x00, 0x00, 0xD8, 0x00, 0xDC, 0xFF, 0xDB, 0xFF, 0xDF]);
}

#[test]
fn byte_text_counts_one_more_than_what_is_left_of_it() {
    let (size, bytes) = get_string_bytes(&byte(), "cat");
    assert_eq!(size, 4);
    assert_eq!(bytes, vec![0x63, 0x61, 0x74]);
    let (size, bytes) = get_string_bytes(&byte(), "cat\0");
    assert_eq!(size, 4);
    assert_eq!(bytes, vec![0x63, 0x61, 0x74]);
    let (size, bytes) = get_string_bytes(&byte(), "ab\0\0");
    assert_eq!(size, 3);
    assert_eq!(bytes, b"ab".to_vec());
    let (size, bytes) = get_string_bytes(&byte(), "a\0b");
    assert_eq!(size, 4);
    assert_eq!(bytes, b"a\0b".to_vec());
    let (size, bytes) = get_string_bytes(&byte(), "\0\0");
    assert_eq!(size, 1);
    assert_eq!(bytes, Vec::<u8>::new());
    let (size, bytes) = get_string_bytes(&byte(), "");
    assert_eq!(size, 1);
    assert_eq!(bytes, Vec::<u8>::new());
    let (size, bytes) = get_string_bytes(&byte(), "\u{00E9}");
    assert_eq!(size, 3);
    assert_eq!(bytes, vec![0xC3, 0xA9]);
}

#[test]
fn field_prefix_has_the_width_of_the_encoding() {
    let mut out = vec![0x7Fu8];
    write_string(&wide(Endianness::Big), &mut out, &[1, 2, 3, 4]);
    assert_eq!(out, vec![0x7F, 0x00, 0x04, 1, 2, 3, 4]);
    let mut out = Vec::new();
    write_string(&wide(Endianness::Little), &mut out, &[1, 2, 3, 4]);
    assert_eq!(out, vec![0x04, 0x00, 1, 2, 3, 4]);
    let mut out = Vec::new();
    write_string(&byte(), &mut out, &[1, 2, 3, 4]);
    assert_eq!(out, vec![0x04, 1, 2, 3, 4]);
}

#[test]
fn field_prefix_keeps_the_low_bits_of_a_long_payload() {
    let payload = vec![b'x'; 300];
    let mut out = Vec::new();
    write_string(&byte(), &mut out, &payload);
    assert_eq!(out.len(), 301);
    assert_eq!(out[0], 44);
    let payload = vec![0u8; 65538];
    let mut out = Vec::new();
    write_string(&wide(Endianness::Big), &mut out, &payload);
    assert_eq!(out.len(), 65540);
    assert_eq!(&out[..2], &[0x00, 0x02]);
}

#[test]
fn declared_length_keeps_the_low_sixteen_bits() {
    let long = "a".repeat(40000);
    let pluralize =
        Control201Pluralize { one: long, more: "b".to_string(), many: "c".to_string() };
    let mut out = Vec::new();
    pluralize.write(&wide(Endianness::Big), &mut out);
    assert_eq!(&out[..2], &[0x38, 0x8A]);
    assert_eq!(&out[2..4], &[0x38, 0x80]);
    assert_eq!(out.len(), 2 + 2 + 80000 + 4 + 4);
}

#[test]
fn wide_field_reads_units_in_the_header_order() {
    let bytes = [0x00u8, 0x04, 0x00, b'h', 0x00, 0xE9, 0xFF];
    let mut reader = Cursor::new(&bytes);
    assert_eq!(read_string(&wide(Endianness::Big), &mut reader), Ok((6, "h\u{00E9}".to_string())));
    assert_eq!(reader.position(), 6);
    let bytes = [0x04u8, 0x00, b'h', 0x00, 0xE9, 0x00];
    let mut reader = Cursor::new(&bytes);
    assert_eq!(
        read_string(&wide(Endianness::Little), &mut reader),
        Ok((6, "h\u{00E9}".to_string()))
    );
}

#[test]
fn wide_field_joins_a_surrogate_pair() {
    let bytes = [0x00u8, 0x04, 0xD8, 0x3D, 0xDE, 0x00];
    let mut reader = Cursor::new(&bytes);
    assert_eq!(
        read_string(&wide(Endianness::Big), &mut reader),
        Ok((6, "\u{1F600}".to_string()))
    );
}

#[test]
fn wide_field_with_a_lone_surrogate_is_invalid() {
    for unit in [[0xD8u8, 0x3D], [0xDE, 0x00]] {
        let bytes = [0x00u8, 0x04, unit[0], unit[1], 0x00, b'a'];
        let mut reader = Cursor::new(&bytes);
        assert_eq!(
            read_string(&wide(Endianness::Big), &mut reader),
            Err(DecodeError::InvalidText)
        );
        assert_eq!(reader.position(), 0);
    }
    let reversed = [0x00u8, 0x04, 0xDE, 0x00, 0xD8, 0x3D];
    let mut reader = Cursor::new(&reversed);
    assert_eq!(read_string(&wide(Endianness::Big), &mut reader), Err(DecodeError::InvalidText));
}

#[test]
fn wide_field_of_odd_length_is_invalid() {
    let bytes = [0x00u8, 0x03, 0x00, b'a', 0x00, 0x00];
    let mut reader = Cursor::new(&bytes);
    assert_eq!(read_string(&wide(Endianness::Big), &mut reader), Err(DecodeError::InvalidText));
    assert_eq!(reader.position(), 0);
}

#[test]
fn byte_field_drops_one_trailing_zero_only() {
    let bytes = b"\x04ab\0\0";
    let mut reader = Cursor::new(bytes);
    assert_eq!(read_string(&byte(), &mut reader), Ok((6, "ab\0".to_string())));
    assert_eq!(reader.position(), 5);
    let bytes = b"\x04a\0bc";
    let mut reader = Cursor::new(bytes);
    assert_eq!(read_string(&byte(), &mut reader), Ok((6, "a\0bc".to_string())));
    let bytes = b"\x01\0";
    let mut reader = Cursor::new(bytes);
    assert_eq!(read_string(&byte(), &mut reader), Ok((3, String::new())));
    assert_eq!(reader.position(), 2);
}

#[test]
fn byte_field_reads_text_of_several_bytes_per_character() {
    let bytes = [0x05u8, 0xC3, 0xA9, 0xE2, 0x82, 0xAC];
    let mut reader = Cursor::new(&bytes);
    assert_eq!(read_string(&byte(), &mut reader), Ok((7, "\u{00E9}\u{20AC}".to_string())));
}

#[test]
fn byte_field_that_is_not_utf8_is_invalid() {
    for bytes in [[0x02u8, 0xFF, b'a'], [0x02, 0xC3, b'a'], [0x02, b'a', 0xA9]] {
        let mut reader = Cursor::new(&bytes);
        assert_eq!(read_string(&byte(), &mut reader), Err(DecodeError::InvalidText));
        assert_eq!(reader.position(), 0);
    }
}

#[test]
fn byte_empty_field_counts_for_nothing() {
    let bytes = [0x00u8, b'a'];
    let mut reader = Cursor::new(&bytes);
    assert_eq!(read_string(&byte(), &mut reader), Ok((0, String::new())));
    assert_eq!(reader.position(), 1);
}

#[test]
fn truncated_field_is_an_unexpected_end() {
    for (header, bytes, field) in [
        (byte(), vec![], Field::TextLength),
        (byte(), vec![0x03u8, b'a', b'b'], Field::Text),
        (wide(Endianness::Big), vec![0x00], Field::TextLength),
        (wide(Endianness::Big), vec![0x00, 0x04, 0x00, b'a', 0x00], Field::Text),
    ] {
        let mut reader = Cursor::new(&bytes);
        assert_eq!(read_string(&header, &mut reader), Err(DecodeError::UnexpectedEof(field)));
        assert_eq!(reader.position(), 0);
    }
}

#[test]
fn byte_texts_are_written_alike_with_and_without_terminators() {
    let header = byte();
    let plain = Control201Pluralize {
        one: "a".to_string(),
        more: "b".to_string(),
        many: "c".to_string(),
    };
    let terminated = Control201Pluralize {
        one: "a".to_string(),
        more: "b\0\0".to_string(),
        many: "c\0".to_string(),
    };
    let mut expected = Vec::new();
    plain.write(&header, &mut expected);
    assert_eq!(expected, vec![0x00, 0x06, 0x01, b'a', 0x01, b'b', 0x01, b'c']);
    let mut out = Vec::new();
    terminated.write(&header, &mut out);
    assert_eq!(out, expected);
}

#[test]
fn byte_pluralize_never_decodes_what_was_encoded() {
    let header = byte();
    let cases =
        [["cat", "cats", "cats"], ["cat\0", "cats\0", "cats\0"], ["", "", ""], ["a", "", "\0"]];
    for texts in cases {
        let pluralize = Control201Pluralize {
            one: texts[0].to_string(),
            more: texts[1].to_string(),
            many: texts[2].to_string(),
        };
        let mut out = Vec::new();
        pluralize.write(&header, &mut out);
        let mut reader = Cursor::new(&out);
        assert_eq!(
            Control201Pluralize::parse(&header, &mut reader),
            Err(DecodeError::LengthMismatch)
        );
        assert_eq!(reader.position(), 0);
    }
}

#[test]
fn truncated_controls_name_the_field_and_the_kind() {
    let header = wide(Endianness::Big);
    let cases: Vec<(Vec<u8>, Option<u16>, Field)> = vec![
        (vec![], None, Field::Kind),
        (vec![0x00], None, Field::Kind),
        (vec![0x00, 0x00, 0x00], Some(0), Field::DeclaredLength),
        (vec![0x00, 0x00, 0x00, 0x04, 1, 2, 3], Some(0), Field::Payload),
        (vec![0x00, 0x01, 0x00], Some(1), Field::DeclaredLength),
        (vec![0x00, 0x02], Some(2), Field::DeclaredLength),
        (vec![0x00, 0x05, 0x00, 0x03, 1, 2], Some(5), Field::Payload),
        (vec![0x00, 0x06, 0x00], Some(6), Field::DeclaredLength),
        (vec![0x00, 0x06, 0x00, 0x08, 0x00], Some(6), Field::TextLength),
        (vec![0x00, 0x06, 0x00, 0x08, 0x00, 0x02, 0x00], Some(6), Field::Text),
        (
            vec![0x00, 0x06, 0x00, 0x08, 0x00, 0x02, 0x00, b'a', 0x00, 0x02],
            Some(6),
            Field::Text,
        ),
        (vec![0x00, 0x07, 0x00], Some(7), Field::DeclaredLength),
        (vec![0x00, 0x08, 0x00, 0x08, 0x00, 0x02, 0x00, b'a'], Some(8), Field::TextLength),
    ];
    for (bytes, kind, field) in cases {
        assert_eq!(
            Control201::parse(&header, &bytes),
            Err(ControlError { kind, cause: DecodeError::UnexpectedEof(field) })
        );
    }
}

#[test]
fn failures_of_a_subtype_come_with_its_kind() {
    let header = byte();
    assert_eq!(
        Control201::parse(&header, &[0x00, 0x00, 0x00, 0x05, 1, 2, 3, 4, 5]),
        Err(ControlError { kind: Some(0), cause: DecodeError::LengthMismatch })
    );
    assert_eq!(
        Control201::parse(&header, &[0x00, 0x06, 0x00, 0x09, 0x01, 0xFF, 0x01, b'a', 0x01, b'b']),
        Err(ControlError { kind: Some(6), cause: DecodeError::InvalidText })
    );
}

#[test]
fn long_vowel_reads_options_up_to_the_declared_length() {
    let header = wide(Endianness::Big);
    let bytes = [
        0x00u8, 0x07, 0x00, 0x0A, 0x00, 0x02, 0x00, b'a', 0x00, 0x00, 0x00, 0x04, 0x00, b'a',
        0x00, b'n', 0x00, 0x00,
    ];
    let (consumed, control) = Control201::parse(&header, &bytes).unwrap();
    assert_eq!(consumed, 14);
    assert_eq!(
        control,
        Control::LongVowel {
            longvowel_kind: 7,
            options: vec!["a".to_string(), String::new(), "an".to_string()]
        }
    );
}

#[test]
fn long_vowel_with_declared_length_zero_has_no_options() {
    let header = byte();
    let bytes = [0x00u8, 0x08, 0x00, 0x00, 0x01, b'a'];
    assert_eq!(
        Control201::parse(&header, &bytes),
        Ok((2, Control::LongVowel { longvowel_kind: 8, options: vec![] }))
    );
}

#[test]
fn long_vowel_that_passes_the_declared_length_fails() {
    let header = byte();
    let bytes = [0x00u8, 0x08, 0x00, 0x04, 0x01, b'a', 0x01, b'b'];
    assert_eq!(
        Control201::parse(&header, &bytes),
        Err(ControlError { kind: Some(8), cause: DecodeError::LengthMismatch })
    );
    let exact = [0x00u8, 0x08, 0x00, 0x06, 0x01, b'a', 0x01, b'b'];
    assert_eq!(
        Control201::parse(&header, &exact),
        Ok((
            6,
            Control::LongVowel {
                longvowel_kind: 8,
                options: vec!["a".to_string(), "b".to_string()]
            }
        ))
    );
}

#[test]
fn long_vowel_writes_the_sum_of_the_sizes_and_the_fields() {
    let control = Control201::LongVowel(
        7,
        Control201LongVowel { strings: vec!["a".to_string(), String::new(), "an".to_string()] },
    );
    let mut out = Vec::new();
    control.write(&wide(Endianness::Big), &mut out);
    assert_eq!(
        out,
        vec![
            0x00, 0x07, 0x00, 0x0C, 0x00, 0x02, 0x00, b'a', 0x00, 0x00, 0x00, 0x04, 0x00, b'a',
            0x00, b'n'
        ]
    );
    let mut out = Vec::new();
    control.write(&byte(), &mut out);
    assert_eq!(out, vec![0x00, 0x07, 0x00, 0x06, 0x01, b'a', 0x00, 0x02, b'a', b'n']);
    let mut out = Vec::new();
    Control201::LongVowel(8, Control201LongVowel { strings: vec![] }).write(&byte(), &mut out);
    assert_eq!(out, vec![0x00, 0x08, 0x00, 0x00]);
}

#[test]
fn messages_name_the_failure() {
    assert_eq!(
        DecodeError::UnexpectedEof(Field::Kind).message(),
        "unexpected end of input in the kind"
    );
    assert_eq!(
        DecodeError::UnexpectedEof(Field::DeclaredLength).message(),
        "unexpected end of input in the declared length"
    );
    assert_eq!(
        DecodeError::UnexpectedEof(Field::Payload).message(),
        "unexpected end of input in the payload"
    );
    assert_eq!(
        DecodeError::UnexpectedEof(Field::TextLength).message(),
        "unexpected end of input in the text length"
    );
    assert_eq!(
        DecodeError::UnexpectedEof(Field::Text).message(),
        "unexpected end of input in the text"
    );
    assert_eq!(
        DecodeError::LengthMismatch.message(),
        "declared length does not match the payload"
    );
    assert_eq!(DecodeError::InvalidText.message(), "malformed text");
    assert_eq!(DecodeError::UnknownKind(0).message(), "unknown control kind: 0");
    assert_eq!(DecodeError::UnknownKind(10).message(), "unknown control kind: 10");
    assert_eq!(DecodeError::UnknownKind(65535).message(), "unknown control kind: 65535");
}

#[test]
fn messages_name_the_kind_of_the_control() {
    let error = ControlError { kind: Some(6), cause: DecodeError::LengthMismatch };
    assert_eq!(
        error.message(),
        "could not parse control kind 6: declared length does not match the payload"
    );
    let error = ControlError { kind: Some(300), cause: DecodeError::UnexpectedEof(Field::Text) };
    assert_eq!(
        error.message(),
        "could not parse control kind 300: unexpected end of input in the text"
    );
    let error = ControlError { kind: None, cause: DecodeError::UnexpectedEof(Field::Kind) };
    assert_eq!(error.message(), "unexpected end of input in the kind");
    let error = ControlError { kind: Some(12), cause: DecodeError::UnknownKind(12) };
    assert_eq!(error.message(), "unknown control kind: 12");
}

#[test]
fn header_gives_back_what_it_was_made_with() {
    let header = Header::new(Endianness::Little, Encoding::Utf16);
    assert_eq!(header.endianness(), Endianness::Little);
    assert_eq!(header.encoding(), Encoding::Utf16);
    let header = Header::new(Endianness::Big, Encoding::Utf8);
    assert_eq!(header.endianness(), Endianness::Big);
    assert_eq!(header.encoding(), Encoding::Utf8);
}

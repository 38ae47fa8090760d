use control201::{
    Control, Control201, Control201Capitalize, Control201Definite, Control201Downcase,
    Control201Gender, Control201Indefinite, Control201Info, Control201LongVowel,
    Control201Pluralize, Cursor, DecodeError, Encoding, Endianness, Header,
};

fn headers() -> Vec<Header> {
    vec![
        Header::new(Endianness::Big, Encoding::Utf16),
        Header::new(Endianness::Little, Encoding::Utf16),
        Header::new(Endianness::Big, Encoding::Utf8),
        Header::new(Endianness::Little, Encoding::Utf8),
    ]
}

fn wide_headers() -> Vec<Header> {
    vec![
        Header::new(Endianness::Big, Encoding::Utf16),
        Header::new(Endianness::Little, Encoding::Utf16),
    ]
}

fn encode(control: &Control201, header: &Header) -> Vec<u8> {
    let mut out = Vec::new();
    control.write(header, &mut out);
    out
}

fn assert_round_trip(control: Control201, header: &Header) {
    let bytes = encode(&control, header);
    let mut followed = bytes.clone();
    followed.extend_from_slice(&[0xDE, 0xAD]);
    let (consumed, decoded) = Control201::parse(header, &followed).unwrap();
    assert_eq!(consumed, bytes.len() - 2);
    assert_eq!(decoded, Control::Raw(control.clone()));
    assert_eq!(encode(&control, header), followed[..consumed + 2].to_vec());
}

#[test]
fn info_round_trips() {
    for header in headers() {
        let info = Control201Info { gender: 7, definite: 0, indefinite: 255, plural: 4 };
        assert_round_trip(Control201::Info(0, info), &header);
    }
}

#[test]
fn definite_round_trips() {
    for header in headers() {
        assert_round_trip(Control201::Definite(1, Control201Definite {}), &header);
    }
}

#[test]
fn indefinite_round_trips() {
    for header in headers() {
        assert_round_trip(Control201::Indefinite(2, Control201Indefinite {}), &header);
    }
}

#[test]
fn capitalize_round_trips() {
    for header in headers() {
        assert_round_trip(Control201::Capitalize(3, Control201Capitalize {}), &header);
    }
}

#[test]
fn downcase_round_trips() {
    for header in headers() {
        assert_round_trip(Control201::Downcase(4, Control201Downcase {}), &header);
    }
}

#[test]
fn gender_round_trips() {
    for header in headers() {
        let gender = Control201Gender { masculine: 1, feminine: 2, neuter: 3 };
        assert_round_trip(Control201::Gender(5, gender), &header);
    }
}

#[test]
fn wide_pluralize_round_trips() {
    for header in wide_headers() {
        let pluralize = Control201Pluralize {
            one: "cat".to_string(),
            more: "cats".to_string(),
            many: "chats \u{1F408}".to_string(),
        };
        assert_round_trip(Control201::Pluralize(6, pluralize), &header);
    }
}

#[test]
fn wide_long_vowel_round_trips_as_the_sibling_result() {
    for header in wide_headers() {
        for kind in [7u16, 8] {
            let options = vec!["a".to_string(), "an".to_string(), "\u{00E9}t\u{00E9}".to_string()];
            let control =
                Control201::LongVowel(kind, Control201LongVowel { strings: options.clone() });
            let bytes = encode(&control, &header);
            let (consumed, decoded) = Control201::parse(&header, &bytes).unwrap();
            assert_eq!(consumed, bytes.len() - 2);
            assert_eq!(decoded, Control::LongVowel { longvowel_kind: kind, options });
            assert_eq!(control.kind(), kind);
            assert_eq!(decoded.into_raw(), control);
        }
    }
}

#[test]
fn canonical_wide_pluralize_bytes_encode_back() {
    let header = Header::new(Endianness::Little, Encoding::Utf16);
    let bytes = vec![
        0x06u8, 0x00, 0x0E, 0x00, 0x02, 0x00, b'a', 0x00, 0x04, 0x00, b'b', 0x00, b'c', 0x00,
        0x02, 0x00, b'd', 0x00,
    ];
    let (consumed, decoded) = Control201::parse(&header, &bytes).unwrap();
    assert_eq!(consumed, 16);
    let control = match decoded {
        Control::Raw(control) => control,
        other => panic!("unexpected result {:?}", other),
    };
    assert_eq!(
        control,
        Control201::Pluralize(
            6,
            Control201Pluralize {
                one: "a".to_string(),
                more: "bc".to_string(),
                many: "d".to_string()
            }
        )
    );
    assert_eq!(encode(&control, &header), bytes);
}

#[test]
fn info_fails_exactly_when_the_declared_length_is_not_four() {
    let header = Header::new(Endianness::Big, Encoding::Utf16);
    for declared in 0u16..=9 {
        let bytes = [0x00u8, declared as u8, 1, 2, 3, 4, 5, 6];
        let mut reader = Cursor::new(&bytes);
        let result = Control201Info::parse(&header, &mut reader);
        if declared == 4 {
            assert_eq!(
                result,
                Ok(Control201Info { gender: 1, definite: 2, indefinite: 3, plural: 4 })
            );
        } else {
            assert_eq!(result, Err(DecodeError::LengthMismatch));
            assert_eq!(reader.position(), 0);
        }
    }
    let high = [0x01u8, 0x04, 1, 2, 3, 4];
    let mut reader = Cursor::new(&high);
    assert_eq!(Control201Info::parse(&header, &mut reader), Err(DecodeError::LengthMismatch));
}

#[test]
fn definite_fails_exactly_when_the_declared_length_is_not_zero() {
    let header = Header::new(Endianness::Little, Encoding::Utf8);
    for declared in 0u8..=5 {
        let bytes = [declared, 0x00];
        let mut reader = Cursor::new(&bytes);
        let result = Control201Definite::parse(&header, &mut reader);
        if declared == 0 {
            assert_eq!(result, Ok(Control201Definite {}));
        } else {
            assert_eq!(result, Err(DecodeError::LengthMismatch));
        }
    }
}

#[test]
fn indefinite_and_gender_check_their_declared_length() {
    let header = Header::new(Endianness::Big, Encoding::Utf8);
    let mut reader = Cursor::new(&[0x00, 0x01]);
    assert_eq!(
        Control201Indefinite::parse(&header, &mut reader),
        Err(DecodeError::LengthMismatch)
    );
    let mut reader = Cursor::new(&[0x00, 0x04, 1, 2, 3, 4]);
    assert_eq!(Control201Gender::parse(&header, &mut reader), Err(DecodeError::LengthMismatch));
    let mut reader = Cursor::new(&[0x00, 0x03, 1, 2, 3, 4]);
    assert_eq!(
        Control201Gender::parse(&header, &mut reader),
        Ok(Control201Gender { masculine: 1, feminine: 2, neuter: 3 })
    );
    assert_eq!(reader.position(), 5);
}

#[test]
fn pluralize_with_declared_length_off_by_one_fails() {
    for header in wide_headers() {
        let pluralize = Control201Pluralize {
            one: "un".to_string(),
            more: "deux".to_string(),
            many: "beaucoup".to_string(),
        };
        let mut bytes = Vec::new();
        pluralize.write(&header, &mut bytes);
        let low = match header.endianness() {
            Endianness::Big => 1,
            Endianness::Little => 0,
        };
        assert_eq!(bytes[low], 34);
        let mut reader = Cursor::new(&bytes);
        assert_eq!(Control201Pluralize::parse(&header, &mut reader), Ok(pluralize.clone()));
        for corrupted in [33u8, 35] {
            let mut changed = bytes.clone();
            changed[low] = corrupted;
            let mut reader = Cursor::new(&changed);
            assert_eq!(
                Control201Pluralize::parse(&header, &mut reader),
                Err(DecodeError::LengthMismatch)
            );
        }
    }
}

#[test]
fn capitalize_and_downcase_read_and_write_nothing() {
    let header = Header::new(Endianness::Big, Encoding::Utf8);
    let bytes = [0xFFu8, 0xFF];
    let mut reader = Cursor::new(&bytes);
    assert_eq!(Control201Capitalize::parse(&header, &mut reader), Ok(Control201Capitalize {}));
    assert_eq!(Control201Downcase::parse(&header, &mut reader), Ok(Control201Downcase {}));
    assert_eq!(reader.position(), 0);
    let mut out = vec![1u8];
    Control201Capitalize {}.write(&header, &mut out);
    Control201Downcase {}.write(&header, &mut out);
    assert_eq!(out, vec![1]);
    assert_eq!(
        Control201::parse(&header, &[0x00, 0x03]),
        Ok((0, Control::Raw(Control201::Capitalize(3, Control201Capitalize {}))))
    );
    assert_eq!(
        Control201::parse(&header, &[0x00, 0x04]),
        Ok((0, Control::Raw(Control201::Downcase(4, Control201Downcase {}))))
    );
}

#[test]
fn marker_is_the_tag_group() {
    assert_eq!(Control201::Definite(1, Control201Definite {}).marker(), 201);
    assert_eq!(Control201::Capitalize(3, Control201Capitalize {}).marker(), 201);
}

#[test]
fn write_puts_the_kind_of_the_variant_first() {
    let big = Header::new(Endianness::Big, Encoding::Utf8);
    let little = Header::new(Endianness::Little, Encoding::Utf8);
    let info = Control201Info { gender: 9, definite: 8, indefinite: 7, plural: 6 };
    assert_eq!(encode(&Control201::Info(0, info), &big), vec![0, 0, 0, 4, 9, 8, 7, 6]);
    assert_eq!(encode(&Control201::Info(0, info), &little), vec![0, 0, 4, 0, 9, 8, 7, 6]);
    let gender = Control201Gender { masculine: 1, feminine: 2, neuter: 3 };
    assert_eq!(encode(&Control201::Gender(5, gender), &big), vec![0, 5, 0, 3, 1, 2, 3]);
    assert_eq!(encode(&Control201::Gender(5, gender), &little), vec![5, 0, 3, 0, 1, 2, 3]);
    let indefinite = Control201::Indefinite(2, Control201Indefinite {});
    assert_eq!(encode(&indefinite, &little), vec![2, 0, 0, 0]);
    assert_eq!(encode(&Control201::Capitalize(3, Control201Capitalize {}), &big), vec![0, 3]);
    assert_eq!(encode(&Control201::Downcase(4, Control201Downcase {}), &big), vec![0, 4]);
}

#[test]
fn write_ignores_a_carried_kind_of_another_variant() {
    let big = Header::new(Endianness::Big, Encoding::Utf16);
    let little = Header::new(Endianness::Little, Encoding::Utf16);
    let definite = Control201::Definite(7, Control201Definite {});
    assert_eq!(encode(&definite, &big), vec![0x00, 0x01, 0x00, 0x00]);
    assert_eq!(encode(&definite, &little), vec![0x01, 0x00, 0x00, 0x00]);
    assert_eq!(definite.kind(), 7);
    assert_eq!(definite.discriminant(), 1);
    let info = Control201Info { gender: 9, definite: 8, indefinite: 7, plural: 6 };
    assert_eq!(encode(&Control201::Info(0x0102, info), &big), vec![0, 0, 0, 4, 9, 8, 7, 6]);
    let gender = Control201Gender { masculine: 1, feminine: 2, neuter: 3 };
    assert_eq!(encode(&Control201::Gender(0, gender), &big), vec![0, 5, 0, 3, 1, 2, 3]);
    assert_eq!(encode(&Control201::Indefinite(9, Control201Indefinite {}), &big), vec![0, 2, 0, 0]);
    assert_eq!(encode(&Control201::Capitalize(4, Control201Capitalize {}), &big), vec![0, 3]);
    assert_eq!(encode(&Control201::Downcase(3, Control201Downcase {}), &big), vec![0, 4]);
    let pluralize = Control201Pluralize {
        one: "a".to_string(),
        more: "b".to_string(),
        many: "c".to_string(),
    };
    assert_eq!(
        encode(&Control201::Pluralize(1, pluralize), &big),
        vec![0, 6, 0, 12, 0, 2, 0, b'a', 0, 2, 0, b'b', 0, 2, 0, b'c']
    );
}

#[test]
fn write_puts_the_carried_kind_of_a_long_vowel_first() {
    let big = Header::new(Endianness::Big, Encoding::Utf16);
    for kind in [7u16, 8] {
        let control = Control201::LongVowel(kind, Control201LongVowel { strings: vec![] });
        assert_eq!(encode(&control, &big), vec![0, kind as u8, 0, 0]);
        assert_eq!(control.kind(), kind);
        assert_eq!(control.discriminant(), kind);
    }
}

#[test]
fn control_that_carries_another_kind_comes_back_under_its_own() {
    for header in headers() {
        let info = Control201Info { gender: 0, definite: 0, indefinite: 0, plural: 0 };
        let bytes = encode(&Control201::Info(3, info), &header);
        let (consumed, decoded) = Control201::parse(&header, &bytes).unwrap();
        assert_eq!(consumed, 6);
        assert_eq!(decoded, Control::Raw(Control201::Info(0, info)));
        assert_eq!(encode(&decoded.into_raw(), &header), bytes);
    }
}

#[test]
fn write_appends_behind_what_the_writer_holds() {
    let header = Header::new(Endianness::Big, Encoding::Utf8);
    let mut out = vec![0xAAu8, 0xBB];
    Control201::Definite(1, Control201Definite {}).write(&header, &mut out);
    assert_eq!(out, vec![0xAA, 0xBB, 0x00, 0x01, 0x00, 0x00]);
}

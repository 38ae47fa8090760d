//! The dispatcher of tag group 201: a two-byte kind selects the subtype that
//! decodes or encodes the rest of the control.

use vstd::prelude::*;
use crate::capitalize::Control201Capitalize;
use crate::cursor::Cursor;
use crate::definite::Control201Definite;
use crate::downcase::Control201Downcase;
use crate::error::{ControlError, DecodeError, Field};
use crate::gender::Control201Gender;
use crate::header::Header;
use crate::indefinite::Control201Indefinite;
use crate::info::Control201Info;
use crate::longvowel::{spec_options_bytes, Control201LongVowel};
use crate::pluralize::{Control201Pluralize, PluralizeView};
use crate::wire::{u16_from_bytes, u16_to_bytes, write_u16_in};

verus! {

/// The kind that selects Info.
pub const KIND_INFO: u16 = 0;

/// The kind that selects Definite.
pub const KIND_DEFINITE: u16 = 1;

/// The kind that selects Indefinite.
pub const KIND_INDEFINITE: u16 = 2;

/// The kind that selects Capitalize.
pub const KIND_CAPITALIZE: u16 = 3;

/// The kind that selects Downcase.
pub const KIND_DOWNCASE: u16 = 4;

/// The kind that selects Gender.
pub const KIND_GENDER: u16 = 5;

/// The kind that selects Pluralize.
pub const KIND_PLURALIZE: u16 = 6;

/// The first of the two kinds that select the locale-variant subtype.
pub const KIND_LONG_VOWEL_FIRST: u16 = 7;

/// The second of the two kinds that select the locale-variant subtype.
pub const KIND_LONG_VOWEL_LAST: u16 = 8;

/// A control of tag group 201. Each variant carries the kind that it was
/// decoded from. A control is encoded under the kind of its variant, whatever
/// it carries; the locale-variant subtype, which two kinds select, is encoded
/// under the kind that it carries.
#[derive(Debug, PartialEq, Eq, Clone)]
pub enum Control201 {
    Info(u16, Control201Info),
    Definite(u16, Control201Definite),
    Indefinite(u16, Control201Indefinite),
    Capitalize(u16, Control201Capitalize),
    Downcase(u16, Control201Downcase),
    Gender(u16, Control201Gender),
    Pluralize(u16, Control201Pluralize),
    LongVowel(u16, Control201LongVowel),
}

/// A control of tag group 201 with its texts as sequences of characters.
pub enum Control201View {
    Info(u16, Control201Info),
    Definite(u16, Control201Definite),
    Indefinite(u16, Control201Indefinite),
    Capitalize(u16, Control201Capitalize),
    Downcase(u16, Control201Downcase),
    Gender(u16, Control201Gender),
    Pluralize(u16, PluralizeView),
    LongVowel(u16, Seq<Seq<char>>),
}

impl View for Control201 {
    type V = Control201View;

    open spec fn view(&self) -> Control201View {
        match *self {
            Control201::Info(kind, c) => Control201View::Info(kind, c),
            Control201::Definite(kind, c) => Control201View::Definite(kind, c),
            Control201::Indefinite(kind, c) => Control201View::Indefinite(kind, c),
            Control201::Capitalize(kind, c) => Control201View::Capitalize(kind, c),
            Control201::Downcase(kind, c) => Control201View::Downcase(kind, c),
            Control201::Gender(kind, c) => Control201View::Gender(kind, c),
            Control201::Pluralize(kind, c) => Control201View::Pluralize(kind, c@),
            Control201::LongVowel(kind, c) => Control201View::LongVowel(kind, c@),
        }
    }
}

/// What decoding a control yields: a control of the group, or the
/// locale-variant result, which stands beside the group's controls and is not
/// one of them.
#[derive(Debug, PartialEq, Eq, Clone)]
pub enum Control {
    Raw(Control201),
    LongVowel { longvowel_kind: u16, options: Vec<String> },
}

/// A decoding result with its texts as sequences of characters.
pub enum ControlView {
    Raw(Control201View),
    LongVowel { longvowel_kind: u16, options: Seq<Seq<char>> },
}

impl View for Control {
    type V = ControlView;

    open spec fn view(&self) -> ControlView {
        match *self {
            Control::Raw(c) => ControlView::Raw(c@),
            Control::LongVowel { longvowel_kind, options } => ControlView::LongVowel {
                longvowel_kind,
                options: crate::longvowel::texts_of(options@),
            },
        }
    }
}

impl ControlView {
    /// The control of the group that encodes to what this result was decoded
    /// from.
    pub open spec fn control(self) -> Control201View {
        match self {
            ControlView::Raw(c) => c,
            ControlView::LongVowel { longvowel_kind, options } => Control201View::LongVowel(
                longvowel_kind,
                options,
            ),
        }
    }
}

impl Control201View {
    /// The kind that the control carries.
    pub open spec fn kind(self) -> u16 {
        match self {
            Control201View::Info(kind, _) => kind,
            Control201View::Definite(kind, _) => kind,
            Control201View::Indefinite(kind, _) => kind,
            Control201View::Capitalize(kind, _) => kind,
            Control201View::Downcase(kind, _) => kind,
            Control201View::Gender(kind, _) => kind,
            Control201View::Pluralize(kind, _) => kind,
            Control201View::LongVowel(kind, _) => kind,
        }
    }

    /// The kind that the control is encoded under: the kind of its variant,
    /// and for the locale-variant subtype the kind that it carries.
    pub open spec fn discriminant(self) -> u16 {
        match self {
            Control201View::Info(_, _) => KIND_INFO,
            Control201View::Definite(_, _) => KIND_DEFINITE,
            Control201View::Indefinite(_, _) => KIND_INDEFINITE,
            Control201View::Capitalize(_, _) => KIND_CAPITALIZE,
            Control201View::Downcase(_, _) => KIND_DOWNCASE,
            Control201View::Gender(_, _) => KIND_GENDER,
            Control201View::Pluralize(_, _) => KIND_PLURALIZE,
            Control201View::LongVowel(kind, _) => kind,
        }
    }

    /// Whether the kind that the control carries is one that selects its
    /// variant. Decoding yields such controls only.
    pub open spec fn well_formed(self) -> bool {
        match self {
            Control201View::LongVowel(kind, _) => KIND_LONG_VOWEL_FIRST <= kind
                <= KIND_LONG_VOWEL_LAST,
            _ => self.kind() == self.discriminant(),
        }
    }

    /// The same control carrying the kind that it is encoded under.
    pub open spec fn normalized(self) -> Self {
        match self {
            Control201View::Info(_, c) => Control201View::Info(KIND_INFO, c),
            Control201View::Definite(_, c) => Control201View::Definite(KIND_DEFINITE, c),
            Control201View::Indefinite(_, c) => Control201View::Indefinite(KIND_INDEFINITE, c),
            Control201View::Capitalize(_, c) => Control201View::Capitalize(KIND_CAPITALIZE, c),
            Control201View::Downcase(_, c) => Control201View::Downcase(KIND_DOWNCASE, c),
            Control201View::Gender(_, c) => Control201View::Gender(KIND_GENDER, c),
            Control201View::Pluralize(_, c) => Control201View::Pluralize(KIND_PLURALIZE, c),
            Control201View::LongVowel(kind, options) => Control201View::LongVowel(kind, options),
        }
    }

    /// The encoded payload of the subtype, without the kind.
    pub open spec fn spec_payload(self, header: Header) -> Seq<u8> {
        match self {
            Control201View::Info(_, c) => c.spec_bytes(header),
            Control201View::Definite(_, c) => c.spec_bytes(header),
            Control201View::Indefinite(_, c) => c.spec_bytes(header),
            Control201View::Capitalize(_, c) => c.spec_bytes(header),
            Control201View::Downcase(_, c) => c.spec_bytes(header),
            Control201View::Gender(_, c) => c.spec_bytes(header),
            Control201View::Pluralize(_, c) => c.spec_bytes(header),
            Control201View::LongVowel(_, options) => spec_options_bytes(header, options),
        }
    }

    /// The encoded control: the kind of its variant, then the payload of its
    /// subtype.
    pub open spec fn spec_bytes(self, header: Header) -> Seq<u8> {
        u16_to_bytes(header.endianness, self.discriminant()) + self.spec_payload(header)
    }

    /// What decoding yields for the control: the control itself, or for the
    /// locale-variant subtype the result that stands beside the group.
    pub open spec fn decoded(self) -> ControlView {
        match self {
            Control201View::LongVowel(kind, options) => ControlView::LongVowel {
                longvowel_kind: kind,
                options,
            },
            _ => ControlView::Raw(self),
        }
    }
}

/// Decoding the payload of the subtype that `kind` selects from the front of
/// `payload`. A kind above 8 selects nothing. The result comes with the
/// number of bytes read.
pub open spec fn spec_parse_payload(header: Header, kind: u16, payload: Seq<u8>) -> Result<
    (ControlView, nat),
    DecodeError,
> {
    if kind == KIND_INFO {
        match Control201Info::spec_parse(header, payload) {
            Ok((c, n)) => Ok((ControlView::Raw(Control201View::Info(kind, c)), n)),
            Err(e) => Err(e),
        }
    } else if kind == KIND_DEFINITE {
        match Control201Definite::spec_parse(header, payload) {
            Ok((c, n)) => Ok((ControlView::Raw(Control201View::Definite(kind, c)), n)),
            Err(e) => Err(e),
        }
    } else if kind == KIND_INDEFINITE {
        match Control201Indefinite::spec_parse(header, payload) {
            Ok((c, n)) => Ok((ControlView::Raw(Control201View::Indefinite(kind, c)), n)),
            Err(e) => Err(e),
        }
    } else if kind == KIND_CAPITALIZE {
        match Control201Capitalize::spec_parse(header, payload) {
            Ok((c, n)) => Ok((ControlView::Raw(Control201View::Capitalize(kind, c)), n)),
            Err(e) => Err(e),
        }
    } else if kind == KIND_DOWNCASE {
        match Control201Downcase::spec_parse(header, payload) {
            Ok((c, n)) => Ok((ControlView::Raw(Control201View::Downcase(kind, c)), n)),
            Err(e) => Err(e),
        }
    } else if kind == KIND_GENDER {
        match Control201Gender::spec_parse(header, payload) {
            Ok((c, n)) => Ok((ControlView::Raw(Control201View::Gender(kind, c)), n)),
            Err(e) => Err(e),
        }
    } else if kind == KIND_PLURALIZE {
        match Control201Pluralize::spec_parse(header, payload) {
            Ok((c, n)) => Ok((ControlView::Raw(Control201View::Pluralize(kind, c)), n)),
            Err(e) => Err(e),
        }
    } else if KIND_LONG_VOWEL_FIRST <= kind <= KIND_LONG_VOWEL_LAST {
        match Control201LongVowel::spec_parse(header, payload) {
            Ok((options, n)) => Ok((ControlView::LongVowel { longvowel_kind: kind, options }, n)),
            Err(e) => Err(e),
        }
    } else {
        Err(DecodeError::UnknownKind(kind))
    }
}

/// Decoding a control from the front of `buf`: the two-byte kind in the
/// header's byte order, then the payload of the subtype that it selects. The
/// result comes with the number of payload bytes read, which does not count
/// the two bytes of the kind. A failure names the kind, if there is one.
pub open spec fn spec_parse(header: Header, buf: Seq<u8>) -> Result<
    (ControlView, nat),
    ControlError,
> {
    if buf.len() < 2 {
        Err(ControlError { kind: None, cause: DecodeError::UnexpectedEof(Field::Kind) })
    } else {
        let kind = u16_from_bytes(header.endianness, buf[0], buf[1]);
        match spec_parse_payload(header, kind, buf.skip(2)) {
            Ok(decoded) => Ok(decoded),
            Err(cause) => Err(ControlError { kind: Some(kind), cause }),
        }
    }
}

impl Control {
    /// The control of the group that encodes to what this result was decoded
    /// from.
    pub fn into_raw(self) -> (c: Control201)
        ensures
            c@ == self@.control(),
    {
        match self {
            Control::Raw(control) => control,
            Control::LongVowel { longvowel_kind, options } => Control201::LongVowel(
                longvowel_kind,
                Control201LongVowel { strings: options },
            ),
        }
    }
}

impl Control201 {
    /// The kind that the control carries.
    pub fn kind(&self) -> (kind: u16)
        ensures
            kind == self@.kind(),
    {
        match self {
            Control201::Info(kind, _) => *kind,
            Control201::Definite(kind, _) => *kind,
            Control201::Indefinite(kind, _) => *kind,
            Control201::Capitalize(kind, _) => *kind,
            Control201::Downcase(kind, _) => *kind,
            Control201::Gender(kind, _) => *kind,
            Control201::Pluralize(kind, _) => *kind,
            Control201::LongVowel(kind, _) => *kind,
        }
    }

    /// The kind that the control is encoded under: the kind of its variant,
    /// and for the locale-variant subtype the kind that it carries.
    pub fn discriminant(&self) -> (kind: u16)
        ensures
            kind == self@.discriminant(),
    {
        match self {
            Control201::Info(_, _) => KIND_INFO,
            Control201::Definite(_, _) => KIND_DEFINITE,
            Control201::Indefinite(_, _) => KIND_INDEFINITE,
            Control201::Capitalize(_, _) => KIND_CAPITALIZE,
            Control201::Downcase(_, _) => KIND_DOWNCASE,
            Control201::Gender(_, _) => KIND_GENDER,
            Control201::Pluralize(_, _) => KIND_PLURALIZE,
            Control201::LongVowel(kind, _) => *kind,
        }
    }

    /// The number of the tag group.
    pub fn marker(&self) -> (m: u16)
        ensures
            m == 201,
    {
        201
    }

    /// Decodes the control at the front of `buf` and returns it with the
    /// number of payload bytes read behind the kind.
    pub fn parse(header: &Header, buf: &[u8]) -> (r: Result<(usize, Control), ControlError>)
        ensures
            match spec_parse(*header, buf@) {
                Ok((value, n)) => r is Ok && r->Ok_0.0 == n && r->Ok_0.1@ == value,
                Err(e) => r is Err && r->Err_0 == e,
            },
    {
        let mut c = Cursor::new(buf);
        let kind = match c.read_u16(header.endianness()) {
            Some(kind) => kind,
            None => {
                return Err(
                    ControlError { kind: None, cause: DecodeError::UnexpectedEof(Field::Kind) },
                );
            },
        };
        assert(c.remaining() =~= buf@.skip(2));
        let control = if kind == KIND_INFO {
            match Control201Info::parse(header, &mut c) {
                Ok(sub) => Control::Raw(Control201::Info(kind, sub)),
                Err(cause) => {
                    return Err(ControlError { kind: Some(kind), cause });
                },
            }
        } else if kind == KIND_DEFINITE {
            match Control201Definite::parse(header, &mut c) {
                Ok(sub) => Control::Raw(Control201::Definite(kind, sub)),
                Err(cause) => {
                    return Err(ControlError { kind: Some(kind), cause });
                },
            }
        } else if kind == KIND_INDEFINITE {
            match Control201Indefinite::parse(header, &mut c) {
                Ok(sub) => Control::Raw(Control201::Indefinite(kind, sub)),
                Err(cause) => {
                    return Err(ControlError { kind: Some(kind), cause });
                },
            }
        } else if kind == KIND_CAPITALIZE {
            match Control201Capitalize::parse(header, &mut c) {
                Ok(sub) => Control::Raw(Control201::Capitalize(kind, sub)),
                Err(cause) => {
                    return Err(ControlError { kind: Some(kind), cause });
                },
            }
        } else if kind == KIND_DOWNCASE {
            match Control201Downcase::parse(header, &mut c) {
                Ok(sub) => Control::Raw(Control201::Downcase(kind, sub)),
                Err(cause) => {
                    return Err(ControlError { kind: Some(kind), cause });
                },
            }
        } else if kind == KIND_GENDER {
            match Control201Gender::parse(header, &mut c) {
                Ok(sub) => Control::Raw(Control201::Gender(kind, sub)),
                Err(cause) => {
                    return Err(ControlError { kind: Some(kind), cause });
                },
            }
        } else if kind == KIND_PLURALIZE {
            match Control201Pluralize::parse(header, &mut c) {
                Ok(sub) => Control::Raw(Control201::Pluralize(kind, sub)),
                Err(cause) => {
                    return Err(ControlError { kind: Some(kind), cause });
                },
            }
        } else if KIND_LONG_VOWEL_FIRST <= kind && kind <= KIND_LONG_VOWEL_LAST {
            match Control201LongVowel::parse(header, &mut c) {
                Ok(sub) => Control::LongVowel { longvowel_kind: kind, options: sub.strings },
                Err(cause) => {
                    return Err(ControlError { kind: Some(kind), cause });
                },
            }
        } else {
            return Err(ControlError { kind: Some(kind), cause: DecodeError::UnknownKind(kind) });
        };
        Ok((c.position() - 2, control))
    }

    /// Appends the encoded control to `writer`: the kind of its variant, then
    /// the payload of its subtype.
    pub fn write(&self, header: &Header, writer: &mut Vec<u8>)
        ensures
            final(writer)@ == old(writer)@ + self@.spec_bytes(*header),
    {
        write_u16_in(header.endianness(), writer, self.discriminant());
        match self {
            Control201::Info(_, control) => control.write(header, writer),
            Control201::Definite(_, control) => control.write(header, writer),
            Control201::Indefinite(_, control) => control.write(header, writer),
            Control201::Capitalize(_, control) => control.write(header, writer),
            Control201::Downcase(_, control) => control.write(header, writer),
            Control201::Gender(_, control) => control.write(header, writer),
            Control201::Pluralize(_, control) => control.write(header, writer),
            Control201::LongVowel(_, control) => control.write(header, writer),
        }
        assert(writer@ =~= old(writer)@ + self@.spec_bytes(*header));
    }
}

} // verus!

//! Why a control could not be decoded.

use vstd::prelude::*;
use vstd::string::StringExecFns;

verus! {

/// The parts of an encoded control, as far as a failure can name them.
#[derive(Clone, Copy, Debug, PartialEq, Eq, Structural)]
pub enum Field {
    /// The two-byte kind in front of the payload.
    Kind,
    /// The declared length that opens a payload.
    DeclaredLength,
    /// The bytes of a payload of fixed size behind its declared length.
    Payload,
    /// The length prefix of a text field.
    TextLength,
    /// The bytes of a text field behind its length prefix.
    Text,
}

/// The ways in which decoding a payload fails. Each failure ends the decoding
/// of that control; nothing is retried or defaulted.
#[derive(Clone, Copy, Debug, PartialEq, Eq, Structural)]
pub enum DecodeError {
    /// The input ended before the named field was complete.
    UnexpectedEof(Field),
    /// A declared length disagrees with the size of what it announces.
    LengthMismatch,
    /// The kind selects no known subtype; the offending value is carried.
    UnknownKind(u16),
    /// The bytes of a text field are not well-formed text in the header's
    /// encoding.
    InvalidText,
}

/// A failure to decode a control, with the kind of the control where the
/// kind could be read.
#[derive(Clone, Copy, Debug, PartialEq, Eq, Structural)]
pub struct ControlError {
    pub kind: Option<u16>,
    pub cause: DecodeError,
}

/// The character of a decimal digit.
pub open spec fn digit(d: nat) -> char {
    (48 + d) as char
}

/// A number written in decimal, without leading zeros.
pub open spec fn decimal(n: nat) -> Seq<char>
    decreases n,
{
    if n < 10 {
        seq![digit(n)]
    } else {
        decimal(n / 10).push(digit(n % 10))
    }
}

fn digit_str(d: u16) -> (s: &'static str)
    requires
        d < 10,
    ensures
        s@ == seq![digit(d as nat)],
{
    proof {
        reveal_strlit("0");
        reveal_strlit("1");
        reveal_strlit("2");
        reveal_strlit("3");
        reveal_strlit("4");
        reveal_strlit("5");
        reveal_strlit("6");
        reveal_strlit("7");
        reveal_strlit("8");
        reveal_strlit("9");
    }
    let s = if d == 0 {
        "0"
    } else if d == 1 {
        "1"
    } else if d == 2 {
        "2"
    } else if d == 3 {
        "3"
    } else if d == 4 {
        "4"
    } else if d == 5 {
        "5"
    } else if d == 6 {
        "6"
    } else if d == 7 {
        "7"
    } else if d == 8 {
        "8"
    } else {
        "9"
    };
    assert(s@ =~= seq![digit(d as nat)]);
    s
}

fn decimal_string(n: u16) -> (s: String)
    ensures
        s@ == decimal(n as nat),
    decreases n,
{
    let last = digit_str(n % 10);
    if n < 10 {
        String::from_str(last)
    } else {
        let s = decimal_string(n / 10).concat(last);
        assert(s@ =~= decimal(n as nat));
        s
    }
}

impl Field {
    /// The name of the field in a message.
    pub open spec fn spec_name(self) -> Seq<char> {
        match self {
            Field::Kind => "kind"@,
            Field::DeclaredLength => "declared length"@,
            Field::Payload => "payload"@,
            Field::TextLength => "text length"@,
            Field::Text => "text"@,
        }
    }

    /// The name of the field in a message.
    pub fn name(&self) -> (s: &'static str)
        ensures
            s@ == self.spec_name(),
    {
        match self {
            Field::Kind => "kind",
            Field::DeclaredLength => "declared length",
            Field::Payload => "payload",
            Field::TextLength => "text length",
            Field::Text => "text",
        }
    }
}

impl DecodeError {
    /// The text of the message that describes the failure.
    pub open spec fn spec_message(self) -> Seq<char> {
        match self {
            DecodeError::UnexpectedEof(field) => "unexpected end of input in the "@
                + field.spec_name(),
            DecodeError::LengthMismatch => "declared length does not match the payload"@,
            DecodeError::UnknownKind(kind) => "unknown control kind: "@ + decimal(kind as nat),
            DecodeError::InvalidText => "malformed text"@,
        }
    }

    /// A message that describes the failure. For an input that ended early it
    /// names the field, and for an unknown kind it ends in the kind in
    /// decimal.
    pub fn message(&self) -> (s: String)
        ensures
            s@ == self.spec_message(),
    {
        match self {
            DecodeError::UnexpectedEof(field) => String::from_str(
                "unexpected end of input in the ",
            ).concat(field.name()),
            DecodeError::LengthMismatch => String::from_str(
                "declared length does not match the payload",
            ),
            DecodeError::UnknownKind(kind) => {
                let number = decimal_string(*kind);
                String::from_str("unknown control kind: ").concat(number.as_str())
            },
            DecodeError::InvalidText => String::from_str("malformed text"),
        }
    }
}

impl ControlError {
    /// The text of the message that describes the failure: that of its cause,
    /// behind the kind of the control where a subtype was selected.
    pub open spec fn spec_message(self) -> Seq<char> {
        match self.kind {
            Some(kind) if !(self.cause is UnknownKind) => "could not parse control kind "@
                + decimal(kind as nat) + ": "@ + self.cause.spec_message(),
            _ => self.cause.spec_message(),
        }
    }

    /// A message that describes the failure and names the kind of the control
    /// that could not be decoded.
    pub fn message(&self) -> (s: String)
        ensures
            s@ == self.spec_message(),
    {
        let cause = self.cause.message();
        match self.kind {
            Some(kind) => match self.cause {
                DecodeError::UnknownKind(_) => cause,
                _ => {
                    let number = decimal_string(kind);
                    String::from_str("could not parse control kind ").concat(
                        number.as_str(),
                    ).concat(": ").concat(cause.as_str())
                },
            },
            None => cause,
        }
    }
}

} // verus!

//! Codec for the grammar control codes (tag group 201) embedded in localized
//! message text.
//!
//! A control is a two-byte kind followed by the payload of one subtype. The
//! crate decodes such bytes into typed values and encodes the values back,
//! under the byte order and text encoding that a [`header::Header`] supplies.
//! Every executable function carries a contract over a mathematical model of
//! the wire format, and the relations between decoding and encoding are
//! proved in [`laws`].

pub mod header;
pub mod error;
pub mod wire;
pub mod cursor;
pub mod utf16;
pub mod utf8;
pub mod text;
pub mod declared;
pub mod info;
pub mod definite;
pub mod indefinite;
pub mod capitalize;
pub mod downcase;
pub mod gender;
pub mod pluralize;
pub mod longvowel;
pub mod two_hundred_one;
pub mod laws;

pub use capitalize::Control201Capitalize;
pub use cursor::Cursor;
pub use definite::Control201Definite;
pub use downcase::Control201Downcase;
pub use error::{ControlError, DecodeError, Field};
pub use gender::Control201Gender;
pub use header::{Encoding, Endianness, Header};
pub use indefinite::Control201Indefinite;
pub use info::Control201Info;
pub use longvowel::Control201LongVowel;
pub use pluralize::Control201Pluralize;
pub use two_hundred_one::{Control, Control201};

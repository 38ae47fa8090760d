//! The context of a decode or encode call: byte order and text encoding.

use vstd::prelude::*;

verus! {

/// Order of the bytes of a multi-byte integer on the wire.
#[derive(Clone, Copy, Debug, PartialEq, Eq, Structural)]
pub enum Endianness {
    /// Least significant byte first.
    Little,
    /// Most significant byte first.
    Big,
}

/// Encoding of the text fields of a message.
#[derive(Clone, Copy, Debug, PartialEq, Eq, Structural)]
pub enum Encoding {
    /// Wide encoding: two-byte code units in the header's byte order.
    Utf16,
    /// Byte encoding: single bytes, historically terminated by a zero byte.
    Utf8,
}

/// What a message file's header says about every control inside it.
#[derive(Clone, Copy, Debug, PartialEq, Eq, Structural)]
pub struct Header {
    pub endianness: Endianness,
    pub encoding: Encoding,
}

impl Header {
    pub fn new(endianness: Endianness, encoding: Encoding) -> (h: Header)
        ensures
            h.endianness == endianness,
            h.encoding == encoding,
    {
        Header { endianness, encoding }
    }

    /// The byte order of the message.
    pub fn endianness(&self) -> (e: Endianness)
        ensures
            e == self.endianness,
    {
        self.endianness
    }

    /// The text encoding of the message.
    pub fn encoding(&self) -> (e: Encoding)
        ensures
            e == self.encoding,
    {
        self.encoding
    }
}

} // verus!

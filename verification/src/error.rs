//! The ways in which encoding or decoding can fail.

use vstd::prelude::*;
use vstd::string::StringExecFns;

verus! {

/// Why an operation was abandoned. Every error ends the whole operation.
#[derive(Debug)]
pub enum Error {
    /// A read needed more bytes than the buffer still held.
    MissingData,
    /// A read was asked for that needs the bytes to describe their own shape.
    NotSupported,
    /// A boolean byte was neither `0` nor `1`.
    InvalidBool,
    /// A character code was no Unicode scalar value.
    InvalidChar,
    /// The payload of a text string was not UTF-8.
    InvalidStr,
    /// The presence byte of an optional value was neither `0` nor `1`.
    InvalidOption,
    /// A failure reported by the code that binds a type to the codec.
    Custom(String),
}

impl Error {
    /// The text that describes this error.
    pub open spec fn text(&self) -> Seq<char> {
        match self {
            Error::MissingData => "missing data"@,
            Error::NotSupported => "not supported"@,
            Error::InvalidBool => "invalid bool"@,
            Error::InvalidChar => "invalid char"@,
            Error::InvalidStr => "invalid str"@,
            Error::InvalidOption => "invalid option"@,
            Error::Custom(msg) => "custom: "@ + msg@,
        }
    }

    /// Renders the error as text.
    pub fn to_string(&self) -> (rendered: String)
        ensures
            rendered@ == self.text(),
    {
        match self {
            Error::MissingData => String::from_str("missing data"),
            Error::NotSupported => String::from_str("not supported"),
            Error::InvalidBool => String::from_str("invalid bool"),
            Error::InvalidChar => String::from_str("invalid char"),
            Error::InvalidStr => String::from_str("invalid str"),
            Error::InvalidOption => String::from_str("invalid option"),
            Error::Custom(msg) => String::from_str("custom: ").concat(msg.as_str()),
        }
    }
}

} // verus!

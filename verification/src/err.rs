//! Protocol error taxonomy. Decode failures mean the byte stream is no
//! longer at a trustworthy frame boundary; callers close the connection on
//! them instead of reading further.

use vstd::prelude::*;
use crate::msg::Msg;

verus! {

/// A frame failed to decode.
#[derive(Debug, Clone, Copy, PartialEq, Eq, Structural)]
pub enum ParseError {
    /// The header's first byte matches no request or response tag.
    UnknownKind,
    /// A key or message field is not valid UTF-8.
    InvalidUtf8,
    /// A length-prefixed sub-field is inconsistent with the payload length.
    MalformedPayload,
}

#[verifier::external_type_specification]
#[verifier::external_body]
pub struct ExIoError(std::io::Error);

/// A failure of a framed exchange.
#[derive(Debug)]
pub enum Error {
    /// The underlying stream failed to read or write.
    Io(std::io::Error),
    /// The bytes read do not form a frame.
    Parse(ParseError),
    /// A well-formed message of the wrong category arrived, for example a
    /// response where a request was owed.
    InvalidMsg(Msg),
}

impl Error {
    /// A short description, in place of a `Display` rendering.
    pub fn describe(&self) -> (r: &'static str)
        ensures
            self is Io ==> r@ == "io"@,
            self is Parse ==> r@ == "cannot parse message"@,
            self is InvalidMsg ==> r@ == "invalid msg"@,
    {
        match self {
            Error::Io(_) => "io",
            Error::Parse(_) => "cannot parse message",
            Error::InvalidMsg(_) => "invalid msg",
        }
    }
}

} // verus!

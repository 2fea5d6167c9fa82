//! `Socket` pairs a duplex byte stream with the frame codec. The blocking
//! reads and writes themselves happen outside this library; callers reach
//! the stream through `stream_mut` and the codec through `parser`.

use vstd::prelude::*;
use crate::parser::Parser;

verus! {

/// One framed connection endpoint: a byte stream together with the codec
/// that turns its bytes into messages. Used for both the client and the
/// server end.
#[derive(Debug, Clone)]
pub struct Socket<S> {
    stream: S,
    parser: Parser,
}

impl<S> Socket<S> {
    pub closed spec fn spec_stream(&self) -> &S {
        &self.stream
    }

    pub fn new(stream: S) -> (r: Self)
        ensures
            *r.spec_stream() == stream,
    {
        Self { stream, parser: Parser }
    }

    /// The codec this socket frames messages with.
    pub fn parser(&self) -> &Parser {
        &self.parser
    }

    /// The underlying byte stream, for the caller that performs the reads
    /// and writes.
    pub fn stream_mut(&mut self) -> (r: &mut S)
        ensures
            *r == *old(self).spec_stream(),
            *final(self).spec_stream() == *final(r),
    {
        &mut self.stream
    }

    /// Give the byte stream back, dropping the codec.
    pub fn into_stream(self) -> (r: S)
        ensures
            r == *self.spec_stream(),
    {
        self.stream
    }
}

} // verus!

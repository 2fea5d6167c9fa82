//! The per-connection dispatch: what response each request earns. One
//! connection handler owns a `ServerSocket` and a shared handle to the
//! cache, receives requests one at a time and answers each before reading
//! the next; the blocking reads and writes themselves happen outside this
//! library.

use vstd::prelude::*;
use crate::cache::{spec_segment_of, Cache};
use crate::err::Error;
use crate::msg::{Msg, MsgView, Request, RequestView, Response, ResponseView};
use crate::socket::Socket;
use vstd::utf8::encode_utf8;

verus! {

/// A failure on the server side of a connection.
#[derive(Debug)]
pub enum ServerSideError {
    /// The framed exchange failed: an I/O or decode error.
    Protocol(Error),
    /// A well-formed message arrived that is no request.
    InvalidMsg,
}

/// The server's end of one connection.
#[derive(Debug)]
pub struct ServerSocket<S> {
    inner: Socket<S>,
}

impl<S> ServerSocket<S> {
    pub closed spec fn spec_inner(&self) -> &Socket<S> {
        &self.inner
    }

    pub fn new(inner: Socket<S>) -> (r: Self)
        ensures
            *r.spec_inner() == inner,
    {
        Self { inner }
    }

    pub fn from_stream(stream: S) -> (r: Self)
        ensures
            *r.spec_inner().spec_stream() == stream,
    {
        Self::new(Socket::new(stream))
    }

    /// The framed socket underneath, for the caller that performs the
    /// reads and writes.
    pub fn socket_mut(&mut self) -> (r: &mut Socket<S>)
        ensures
            *r == *old(self).spec_inner(),
            *final(self).spec_inner() == *final(r),
    {
        &mut self.inner
    }
}

/// A server owes requests, not responses: keep the request, refuse the
/// rest.
pub fn expect_request(msg: Msg) -> (r: Result<Request, ServerSideError>)
    ensures
        msg@ matches MsgView::Request(q) ==> (r matches Ok(req) && req@ == q),
        msg@ is Response ==> (r matches Err(e) && e is InvalidMsg),
{
    match msg {
        Msg::Request(req) => Ok(req),
        Msg::Response(_) => Err(ServerSideError::InvalidMsg),
    }
}

/// What the message of an oversized-item rejection says.
pub open spec fn spec_oversize_msg() -> Seq<char> {
    "item too large for its segment"@
}

/// What the message of a declined version handshake says.
pub open spec fn spec_version_msg() -> Seq<char> {
    "version handshake not supported"@
}

/// Dispatch one request against the cache and produce its response:
/// `Ping` earns `Pong`; `Get` the stored bytes or `KeyNotFound`; `Put`
/// `Done`, with expiration zero meaning "never expires", unless the item
/// exceeds its segment's byte budget, which earns an `Error` instead of
/// evicting the whole segment; `Delete` `Done` where a live entry left,
/// else `KeyNotFound`; `Clear` always `Done`. The optional `Version`
/// handshake is declined with an `Error`.
pub fn response_to(request: Request, cache: &Cache) -> (r: Response)
    requires
        cache.wf(),
    ensures
        request@ is Ping ==> r@ is Pong,
        request@ is Version ==> r@ == ResponseView::Error(spec_version_msg()),
        request@ is Get ==> r@ matches ResponseView::Value(_) || r@ is KeyNotFound,
        request@ matches RequestView::Put { key, value, expiration } ==> {
            let fits = encode_utf8(key).len() + value.len() <= cache.spec_budgets()[
                spec_segment_of(key, cache.spec_num_segments() as int)].0;
            r@ == if fits {
                ResponseView::Done
            } else {
                ResponseView::Error(spec_oversize_msg())
            }
        },
        request@ is Delete ==> r@ is Done || r@ is KeyNotFound,
        request@ is Clear ==> r@ is Done,
{
    match request {
        Request::Ping => Response::Pong,
        Request::Version(_) => Response::Error("version handshake not supported".to_owned()),
        Request::Get(key) => match cache.get(key.as_str()) {
            Some(bytes) => Response::Value(bytes),
            None => Response::KeyNotFound,
        },
        Request::Put { key, value, expiration } => {
            let stored = if expiration == 0 {
                cache.set(key, value)
            } else {
                cache.set_with_expiration(key, value, expiration)
            };
            if stored {
                Response::Done
            } else {
                Response::Error("item too large for its segment".to_owned())
            }
        },
        Request::Delete(key) => match cache.remove(key.as_str()) {
            Some(_) => Response::Done,
            None => Response::KeyNotFound,
        },
        Request::Clear => {
            cache.clear();
            Response::Done
        },
    }
}

} // verus!

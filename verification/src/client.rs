//! The client's reading of server responses. The calls that carry the
//! messages over a connection happen outside this library; the decisions
//! about what each response means live here.

use vstd::prelude::*;
use crate::err::Error;
use crate::msg::{Msg, MsgView, Response, ResponseView};

verus! {

/// The error for a well-formed response that the request sent does not
/// admit.
pub fn invalid_resp(resp: Response) -> (r: Error)
    ensures
        r matches Error::InvalidMsg(m) && m@ == MsgView::Response(resp@),
{
    Error::InvalidMsg(Msg::Response(resp))
}

/// A client owes responses, not requests: keep the response, refuse the
/// rest.
pub fn expect_response(msg: Msg) -> (r: Result<Response, Error>)
    ensures
        msg@ matches MsgView::Response(p) ==> (r matches Ok(resp) && resp@ == p),
        msg@ is Request ==> (r matches Err(e) && e matches Error::InvalidMsg(m) && m@ == msg@),
{
    match msg {
        Msg::Response(resp) => Ok(resp),
        Msg::Request(req) => Err(Error::InvalidMsg(Msg::Request(req))),
    }
}

/// What a response to `Get` means: the stored bytes, a miss, or an
/// invalid answer.
pub fn interpret_get_response(resp: Response) -> (r: Result<Option<Vec<u8>>, Error>)
    ensures
        resp@ matches ResponseView::Value(v) ==> (r matches Ok(o) && o matches Some(b) && b@ == v),
        resp@ is KeyNotFound ==> (r matches Ok(o) && o is None),
        !(resp@ is Value) && !(resp@ is KeyNotFound) ==> (r matches Err(e) && e matches
            Error::InvalidMsg(m) && m@ == MsgView::Response(resp@)),
{
    match resp {
        Response::Value(bytes) => Ok(Some(bytes)),
        Response::KeyNotFound => Ok(None),
        resp => Err(invalid_resp(resp)),
    }
}

/// What a response to `Put` means: done, or an invalid answer.
pub fn interpret_set_response(resp: Response) -> (r: Result<(), Error>)
    ensures
        resp@ is Done ==> r is Ok,
        !(resp@ is Done) ==> (r matches Err(e) && e matches Error::InvalidMsg(m) && m@
            == MsgView::Response(resp@)),
{
    match resp {
        Response::Done => Ok(()),
        resp => Err(invalid_resp(resp)),
    }
}

} // verus!

//! The typed message model: a frame on the wire carries exactly one `Msg`,
//! which is either a client request or a server response.

use vstd::prelude::*;
use crate::kind::{MsgKind, RequestKind, ResponseKind};

verus! {

#[derive(Debug, Clone, PartialEq)]
pub enum Request {
    /// Optional protocol-version handshake.
    Version(u16),
    Get(String),
    Put { key: String, value: Vec<u8>, expiration: u32 },
    Delete(String),
    Clear,
    Ping,
}

#[derive(Debug, Clone, PartialEq)]
pub enum Response {
    Value(Vec<u8>),
    Done,
    Error(String),
    KeyNotFound,
    Pong,
}

#[derive(Debug, Clone, PartialEq)]
pub enum Msg {
    Request(Request),
    Response(Response),
}

/// Mathematical model of a `Request`: keys as character sequences, values
/// as byte sequences.
pub enum RequestView {
    Version(u16),
    Get(Seq<char>),
    Put { key: Seq<char>, value: Seq<u8>, expiration: u32 },
    Delete(Seq<char>),
    Clear,
    Ping,
}

pub enum ResponseView {
    Value(Seq<u8>),
    Done,
    Error(Seq<char>),
    KeyNotFound,
    Pong,
}

pub enum MsgView {
    Request(RequestView),
    Response(ResponseView),
}

impl View for Request {
    type V = RequestView;

    open spec fn view(&self) -> RequestView {
        match self {
            Request::Version(v) => RequestView::Version(*v),
            Request::Get(key) => RequestView::Get(key@),
            Request::Put { key, value, expiration } => RequestView::Put {
                key: key@,
                value: value@,
                expiration: *expiration,
            },
            Request::Delete(key) => RequestView::Delete(key@),
            Request::Clear => RequestView::Clear,
            Request::Ping => RequestView::Ping,
        }
    }
}

impl View for Response {
    type V = ResponseView;

    open spec fn view(&self) -> ResponseView {
        match self {
            Response::Value(bytes) => ResponseView::Value(bytes@),
            Response::Done => ResponseView::Done,
            Response::Error(m) => ResponseView::Error(m@),
            Response::KeyNotFound => ResponseView::KeyNotFound,
            Response::Pong => ResponseView::Pong,
        }
    }
}

impl View for Msg {
    type V = MsgView;

    open spec fn view(&self) -> MsgView {
        match self {
            Msg::Request(r) => MsgView::Request(r@),
            Msg::Response(r) => MsgView::Response(r@),
        }
    }
}

/// The kind tag that selects this request's frame layout.
pub open spec fn spec_request_kind(r: RequestView) -> RequestKind {
    match r {
        RequestView::Version(_) => RequestKind::Version,
        RequestView::Get(_) => RequestKind::Get,
        RequestView::Put { .. } => RequestKind::Put,
        RequestView::Delete(_) => RequestKind::Delete,
        RequestView::Clear => RequestKind::Clear,
        RequestView::Ping => RequestKind::Ping,
    }
}

pub open spec fn spec_response_kind(r: ResponseView) -> ResponseKind {
    match r {
        ResponseView::Value(_) => ResponseKind::Value,
        ResponseView::Done => ResponseKind::Done,
        ResponseView::Error(_) => ResponseKind::Error,
        ResponseView::KeyNotFound => ResponseKind::KeyNotFound,
        ResponseView::Pong => ResponseKind::Pong,
    }
}

pub open spec fn spec_msg_kind(m: MsgView) -> MsgKind {
    match m {
        MsgView::Request(r) => MsgKind::Request(spec_request_kind(r)),
        MsgView::Response(r) => MsgKind::Response(spec_response_kind(r)),
    }
}

} // verus!

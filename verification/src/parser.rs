//! The frame codec: pure translation between `Msg` and its wire form.
//!
//! A frame is `kind_byte || payload_length (8-byte big-endian) || payload`.
//! The payload layout depends on the kind: empty for `Ping`, `Clear`,
//! `Pong`, `Done` and `KeyNotFound`; raw UTF-8 key bytes for `Get` and
//! `Delete`; raw bytes for `Value`; UTF-8 message bytes for `Error`; a
//! 2-byte big-endian version for `Version`; and for `Put` the payload is
//! `key_length (8-byte BE) || expiration (4-byte BE) || key || value`.

use vstd::prelude::*;
use vstd::slice::{slice_subrange, slice_to_vec};
use vstd::utf8::{decode_utf8, encode_utf8, encode_utf8_decode_utf8, encode_utf8_valid_utf8,
    valid_utf8};
use crate::endian::{push_u16_be, push_u32_be, push_u64_be, read_u16_be, read_u32_be, read_u64_be,
    spec_u16_from_be, spec_u16_to_be, spec_u32_from_be, spec_u32_to_be, spec_u64_from_be,
    spec_u64_to_be, lemma_u16_be_roundtrip, lemma_u32_be_roundtrip, lemma_u64_be_roundtrip};
use crate::err::ParseError;
use crate::kind::{MsgKind, RequestKind, ResponseKind, spec_kind_of_tag, spec_tag};
use crate::msg::{Msg, MsgView, Request, RequestView, Response, ResponseView, spec_msg_kind};

verus! {

/// Every frame starts with a 9-byte header: one kind byte and an 8-byte
/// big-endian payload length.
pub const HEADER_SIZE: usize = 9;

pub open spec fn spec_request_payload(r: RequestView) -> Seq<u8> {
    match r {
        RequestView::Version(v) => spec_u16_to_be(v),
        RequestView::Get(key) => encode_utf8(key),
        RequestView::Put { key, value, expiration } => spec_u64_to_be(
            encode_utf8(key).len() as u64,
        ) + spec_u32_to_be(expiration) + encode_utf8(key) + value,
        RequestView::Delete(key) => encode_utf8(key),
        RequestView::Clear => Seq::empty(),
        RequestView::Ping => Seq::empty(),
    }
}

pub open spec fn spec_response_payload(r: ResponseView) -> Seq<u8> {
    match r {
        ResponseView::Value(bytes) => bytes,
        ResponseView::Done => Seq::empty(),
        ResponseView::Error(m) => encode_utf8(m),
        ResponseView::KeyNotFound => Seq::empty(),
        ResponseView::Pong => Seq::empty(),
    }
}

pub open spec fn spec_payload(m: MsgView) -> Seq<u8> {
    match m {
        MsgView::Request(r) => spec_request_payload(r),
        MsgView::Response(r) => spec_response_payload(r),
    }
}

/// A message is encodable when its payload length fits the 8-byte length
/// field. Every `Msg` held in memory satisfies this.
pub open spec fn wf_msg(m: MsgView) -> bool {
    spec_payload(m).len() <= u64::MAX
}

/// The full wire form of a message.
pub open spec fn spec_encode(m: MsgView) -> Seq<u8> {
    seq![spec_tag(spec_msg_kind(m))] + spec_u64_to_be(spec_payload(m).len() as u64) + spec_payload(
        m,
    )
}

/// What splitting a 9-byte header yields: the kind and the payload length.
pub open spec fn spec_decode_header(h: Seq<u8>) -> Result<(MsgKind, u64), ParseError>
    recommends
        h.len() == HEADER_SIZE,
{
    match spec_kind_of_tag(h[0]) {
        Some(kind) => Ok((kind, spec_u64_from_be(h.subrange(1, 9)))),
        None => Err(ParseError::UnknownKind),
    }
}

pub open spec fn spec_decode_put(p: Seq<u8>) -> Result<RequestView, ParseError> {
    if p.len() < 12 {
        Err(ParseError::MalformedPayload)
    } else {
        let klen = spec_u64_from_be(p.subrange(0, 8));
        if klen > p.len() - 12 {
            Err(ParseError::MalformedPayload)
        } else {
            let key_bytes = p.subrange(12, 12 + klen as int);
            if valid_utf8(key_bytes) {
                Ok(
                    RequestView::Put {
                        key: decode_utf8(key_bytes),
                        value: p.subrange(12 + klen as int, p.len() as int),
                        expiration: spec_u32_from_be(p.subrange(8, 12)),
                    },
                )
            } else {
                Err(ParseError::InvalidUtf8)
            }
        }
    }
}

pub open spec fn spec_decode_request(kind: RequestKind, p: Seq<u8>) -> Result<
    RequestView,
    ParseError,
> {
    match kind {
        RequestKind::Version => if p.len() == 2 {
            Ok(RequestView::Version(spec_u16_from_be(p)))
        } else {
            Err(ParseError::MalformedPayload)
        },
        RequestKind::Ping => Ok(RequestView::Ping),
        RequestKind::Get => if valid_utf8(p) {
            Ok(RequestView::Get(decode_utf8(p)))
        } else {
            Err(ParseError::InvalidUtf8)
        },
        RequestKind::Put => spec_decode_put(p),
        RequestKind::Delete => if valid_utf8(p) {
            Ok(RequestView::Delete(decode_utf8(p)))
        } else {
            Err(ParseError::InvalidUtf8)
        },
        RequestKind::Clear => Ok(RequestView::Clear),
    }
}

pub open spec fn spec_decode_response(kind: ResponseKind, p: Seq<u8>) -> Result<
    ResponseView,
    ParseError,
> {
    match kind {
        ResponseKind::Pong => Ok(ResponseView::Pong),
        ResponseKind::Done => Ok(ResponseView::Done),
        ResponseKind::Value => Ok(ResponseView::Value(p)),
        ResponseKind::KeyNotFound => Ok(ResponseView::KeyNotFound),
        ResponseKind::Error => if valid_utf8(p) {
            Ok(ResponseView::Error(decode_utf8(p)))
        } else {
            Err(ParseError::InvalidUtf8)
        },
    }
}

pub open spec fn spec_decode_payload(kind: MsgKind, p: Seq<u8>) -> Result<MsgView, ParseError> {
    match kind {
        MsgKind::Request(k) => match spec_decode_request(k, p) {
            Ok(r) => Ok(MsgView::Request(r)),
            Err(e) => Err(e),
        },
        MsgKind::Response(k) => match spec_decode_response(k, p) {
            Ok(r) => Ok(MsgView::Response(r)),
            Err(e) => Err(e),
        },
    }
}

/// Decoding one whole frame: header, length check, payload.
pub open spec fn spec_decode_frame(b: Seq<u8>) -> Result<MsgView, ParseError> {
    if b.len() < HEADER_SIZE {
        Err(ParseError::MalformedPayload)
    } else {
        match spec_decode_header(b.subrange(0, HEADER_SIZE as int)) {
            Ok((kind, plen)) => if b.len() == HEADER_SIZE + plen {
                spec_decode_payload(kind, b.subrange(HEADER_SIZE as int, b.len() as int))
            } else {
                Err(ParseError::MalformedPayload)
            },
            Err(e) => Err(e),
        }
    }
}

/// Relies on `String::from_utf8`: it succeeds exactly on valid UTF-8 input
/// and returns the string of the decoded characters.
#[verifier::external_body]
fn string_from_utf8(bytes: Vec<u8>) -> (r: Option<String>)
    ensures
        r is Some <==> valid_utf8(bytes@),
        r matches Some(s) ==> s@ == decode_utf8(bytes@),
{
    match String::from_utf8(bytes) {
        Ok(s) => Some(s),
        Err(_) => None,
    }
}

/// The pure, stateless codec between `Msg` and its binary wire form.
#[derive(Debug, Clone)]
pub struct Parser;

impl Parser {
    /// Split a 9-byte header into the message kind and the payload length.
    pub fn decode_header(&self, chunk: &[u8; 9]) -> (r: Result<(MsgKind, u64), ParseError>)
        ensures
            r == spec_decode_header(chunk@),
    {
        let kind = match MsgKind::from_tag(chunk[0]) {
            Some(kind) => kind,
            None => {
                return Err(ParseError::UnknownKind);
            },
        };
        let b1 = chunk[1];
        let b2 = chunk[2];
        let b3 = chunk[3];
        let b4 = chunk[4];
        let b5 = chunk[5];
        let b6 = chunk[6];
        let b7 = chunk[7];
        let b8 = chunk[8];
        let plen = ((b1 as u64) << 56) | ((b2 as u64) << 48) | ((b3 as u64) << 40) | ((b4
            as u64) << 32) | ((b5 as u64) << 24) | ((b6 as u64) << 16) | ((b7 as u64) << 8) | (b8
            as u64);
        proof {
            let sub = chunk@.subrange(1, 9);
            assert(sub[0] == b1 && sub[1] == b2 && sub[2] == b3 && sub[3] == b4);
            assert(sub[4] == b5 && sub[5] == b6 && sub[6] == b7 && sub[7] == b8);
        }
        Ok((kind, plen))
    }

    /// Interpret a payload according to a request kind.
    pub fn decode_request(&self, kind: RequestKind, payload: Vec<u8>) -> (r: Result<
        Request,
        ParseError,
    >)
        ensures
            r matches Ok(m) ==> spec_decode_request(kind, payload@) == Ok::<
                RequestView,
                ParseError,
            >(m@),
            r matches Err(e) ==> spec_decode_request(kind, payload@) == Err::<
                RequestView,
                ParseError,
            >(e),
    {
        match kind {
            RequestKind::Version => {
                if payload.len() != 2 {
                    Err(ParseError::MalformedPayload)
                } else {
                    let v = read_u16_be(payload.as_slice(), 0);
                    proof {
                        assert(payload@.subrange(0, 2) =~= payload@);
                    }
                    Ok(Request::Version(v))
                }
            },
            RequestKind::Ping => Ok(Request::Ping),
            RequestKind::Get => match string_from_utf8(payload) {
                Some(key) => Ok(Request::Get(key)),
                None => Err(ParseError::InvalidUtf8),
            },
            RequestKind::Put => self.decode_put(payload),
            RequestKind::Delete => match string_from_utf8(payload) {
                Some(key) => Ok(Request::Delete(key)),
                None => Err(ParseError::InvalidUtf8),
            },
            RequestKind::Clear => Ok(Request::Clear),
        }
    }

    /// Split a `Put` payload into its length-prefixed key, the expiration
    /// and the value.
    fn decode_put(&self, payload: Vec<u8>) -> (r: Result<Request, ParseError>)
        ensures
            r matches Ok(m) ==> spec_decode_put(payload@) == Ok::<RequestView, ParseError>(m@),
            r matches Err(e) ==> spec_decode_put(payload@) == Err::<RequestView, ParseError>(e),
    {
        if payload.len() < 12 {
            return Err(ParseError::MalformedPayload);
        }
        let klen = read_u64_be(payload.as_slice(), 0);
        if klen > (payload.len() - 12) as u64 {
            return Err(ParseError::MalformedPayload);
        }
        let expiration = read_u32_be(payload.as_slice(), 8);
        let klen_us = klen as usize;
        let key_bytes = slice_to_vec(slice_subrange(payload.as_slice(), 12, 12 + klen_us));
        let value = slice_to_vec(
            slice_subrange(payload.as_slice(), 12 + klen_us, payload.len()),
        );
        match string_from_utf8(key_bytes) {
            Some(key) => Ok(Request::Put { key, value, expiration }),
            None => Err(ParseError::InvalidUtf8),
        }
    }

    /// Interpret a payload according to a response kind.
    pub fn decode_response(&self, kind: ResponseKind, payload: Vec<u8>) -> (r: Result<
        Response,
        ParseError,
    >)
        ensures
            r matches Ok(m) ==> spec_decode_response(kind, payload@) == Ok::<
                ResponseView,
                ParseError,
            >(m@),
            r matches Err(e) ==> spec_decode_response(kind, payload@) == Err::<
                ResponseView,
                ParseError,
            >(e),
    {
        match kind {
            ResponseKind::Pong => Ok(Response::Pong),
            ResponseKind::Done => Ok(Response::Done),
            ResponseKind::Value => Ok(Response::Value(payload)),
            ResponseKind::KeyNotFound => Ok(Response::KeyNotFound),
            ResponseKind::Error => match string_from_utf8(payload) {
                Some(m) => Ok(Response::Error(m)),
                None => Err(ParseError::InvalidUtf8),
            },
        }
    }

    /// Interpret a payload according to the kind its header named.
    pub fn decode(&self, kind: MsgKind, payload: Vec<u8>) -> (r: Result<Msg, ParseError>)
        ensures
            r matches Ok(m) ==> spec_decode_payload(kind, payload@) == Ok::<MsgView, ParseError>(
                m@,
            ),
            r matches Err(e) ==> spec_decode_payload(kind, payload@) == Err::<MsgView, ParseError>(
                e,
            ),
    {
        match kind {
            MsgKind::Request(k) => match self.decode_request(k, payload) {
                Ok(m) => Ok(Msg::Request(m)),
                Err(e) => Err(e),
            },
            MsgKind::Response(k) => match self.decode_response(k, payload) {
                Ok(m) => Ok(Msg::Response(m)),
                Err(e) => Err(e),
            },
        }
    }

    /// The payload bytes of a request.
    fn request_payload(&self, req: Request) -> (r: Vec<u8>)
        ensures
            r@ == spec_request_payload(req@),
    {
        match req {
            Request::Version(v) => {
                let mut p = Vec::new();
                push_u16_be(&mut p, v);
                p
            },
            Request::Get(key) => {
                let mut p = Vec::new();
                p.extend_from_slice(key.as_str().as_bytes());
                p
            },
            Request::Put { key, value, expiration } => {
                let key_bytes = key.as_str().as_bytes();
                let mut p = Vec::new();
                push_u64_be(&mut p, key_bytes.len() as u64);
                push_u32_be(&mut p, expiration);
                p.extend_from_slice(key_bytes);
                p.extend_from_slice(value.as_slice());
                proof {
                    assert(p@ =~= spec_request_payload(req@));
                }
                p
            },
            Request::Delete(key) => {
                let mut p = Vec::new();
                p.extend_from_slice(key.as_str().as_bytes());
                p
            },
            Request::Clear => {
                let p = Vec::new();
                proof {
                    assert(p@ =~= spec_request_payload(req@));
                }
                p
            },
            Request::Ping => {
                let p = Vec::new();
                proof {
                    assert(p@ =~= spec_request_payload(req@));
                }
                p
            },
        }
    }

    /// The payload bytes of a response.
    fn response_payload(&self, resp: Response) -> (r: Vec<u8>)
        ensures
            r@ == spec_response_payload(resp@),
    {
        match resp {
            Response::Value(bytes) => bytes,
            Response::Done => {
                let p = Vec::<u8>::new();
                proof {
                    assert(p@ =~= spec_response_payload(resp@));
                }
                p
            },
            Response::Error(m) => {
                let mut p = Vec::new();
                p.extend_from_slice(m.as_str().as_bytes());
                p
            },
            Response::KeyNotFound => {
                let p = Vec::<u8>::new();
                proof {
                    assert(p@ =~= spec_response_payload(resp@));
                }
                p
            },
            Response::Pong => {
                let p = Vec::<u8>::new();
                proof {
                    assert(p@ =~= spec_response_payload(resp@));
                }
                p
            },
        }
    }

    /// Prefix a payload with its 9-byte header.
    fn frame(&self, tag: u8, mut payload: Vec<u8>) -> (r: Vec<u8>)
        ensures
            r@ == seq![tag] + spec_u64_to_be(payload@.len() as u64) + payload@,
    {
        let ghost orig = payload@;
        let mut out = Vec::new();
        out.push(tag);
        push_u64_be(&mut out, payload.len() as u64);
        out.append(&mut payload);
        proof {
            assert(out@ =~= seq![tag] + spec_u64_to_be(orig.len() as u64) + orig);
        }
        out
    }

    /// Encode a request as one complete frame.
    pub fn encode_request(&self, req: Request) -> (r: Vec<u8>)
        ensures
            r@ == spec_encode(MsgView::Request(req@)),
            r@.len() == HEADER_SIZE + spec_payload(MsgView::Request(req@)).len(),
    {
        let ghost m = MsgView::Request(req@);
        let kind = match &req {
            Request::Version(_) => RequestKind::Version,
            Request::Get(_) => RequestKind::Get,
            Request::Put { .. } => RequestKind::Put,
            Request::Delete(_) => RequestKind::Delete,
            Request::Clear => RequestKind::Clear,
            Request::Ping => RequestKind::Ping,
        };
        let payload = self.request_payload(req);
        self.frame(kind.tag(), payload)
    }

    /// Encode a response as one complete frame.
    pub fn encode_response(&self, resp: Response) -> (r: Vec<u8>)
        ensures
            r@ == spec_encode(MsgView::Response(resp@)),
            r@.len() == HEADER_SIZE + spec_payload(MsgView::Response(resp@)).len(),
    {
        let kind = match &resp {
            Response::Value(_) => ResponseKind::Value,
            Response::Done => ResponseKind::Done,
            Response::Error(_) => ResponseKind::Error,
            Response::KeyNotFound => ResponseKind::KeyNotFound,
            Response::Pong => ResponseKind::Pong,
        };
        let payload = self.response_payload(resp);
        self.frame(kind.tag(), payload)
    }

    /// Serialize a message as `kind_byte || length || payload`. The header
    /// is always exactly `HEADER_SIZE` bytes, whatever the payload length,
    /// and decoding the frame yields the message back.
    pub fn encode(&self, msg: Msg) -> (r: Vec<u8>)
        ensures
            r@ == spec_encode(msg@),
            r@.len() == HEADER_SIZE + spec_payload(msg@).len(),
            spec_decode_frame(r@) == Ok::<MsgView, ParseError>(msg@),
    {
        let r = match msg {
            Msg::Request(req) => self.encode_request(req),
            Msg::Response(resp) => self.encode_response(resp),
        };
        let n = r.len();
        proof {
            assert(spec_payload(msg@).len() == n - HEADER_SIZE);
            lemma_frame_roundtrip(msg@);
        }
        r
    }
}

/// Header-size law: every encoded frame starts with exactly `HEADER_SIZE`
/// bytes of header, whatever the payload length.
pub proof fn lemma_header_size(m: MsgView)
    ensures
        spec_encode(m).len() == HEADER_SIZE + spec_payload(m).len(),
{
}

/// Round-trip law: decoding the encoding of any encodable message yields
/// that message, for every constructible message view.
pub proof fn lemma_frame_roundtrip(m: MsgView)
    requires
        wf_msg(m),
    ensures
        spec_decode_frame(spec_encode(m)) == Ok::<MsgView, ParseError>(m),
{
    let payload = spec_payload(m);
    let kind = spec_msg_kind(m);
    let b = spec_encode(m);
    assert(b.len() == 9 + payload.len());
    assert(b[0] == spec_tag(kind));
    crate::kind::lemma_tag_roundtrip(kind);
    assert(b.subrange(0, 9).subrange(1, 9) =~= spec_u64_to_be(payload.len() as u64));
    assert(b.subrange(0, 9)[0] == spec_tag(kind));
    lemma_u64_be_roundtrip(payload.len() as u64);
    assert(b.subrange(9, b.len() as int) =~= payload);
    lemma_payload_roundtrip(m);
}

/// Each payload layout decodes back to the message it came from.
proof fn lemma_payload_roundtrip(m: MsgView)
    requires
        wf_msg(m),
    ensures
        spec_decode_payload(spec_msg_kind(m), spec_payload(m)) == Ok::<MsgView, ParseError>(m),
{
    broadcast use encode_utf8_valid_utf8;
    broadcast use encode_utf8_decode_utf8;

    match m {
        MsgView::Request(r) => match r {
            RequestView::Version(v) => {
                lemma_u16_be_roundtrip(v);
                assert(spec_u16_to_be(v).subrange(0, 2) =~= spec_u16_to_be(v));
            },
            RequestView::Get(_) => {},
            RequestView::Put { key, value, expiration } => {
                lemma_put_roundtrip(key, value, expiration);
            },
            RequestView::Delete(_) => {},
            RequestView::Clear => {},
            RequestView::Ping => {},
        },
        MsgView::Response(r) => {},
    }
}

proof fn lemma_put_roundtrip(key: Seq<char>, value: Seq<u8>, expiration: u32)
    requires
        spec_request_payload(RequestView::Put { key, value, expiration }).len() <= u64::MAX,
    ensures
        spec_decode_put(spec_request_payload(RequestView::Put { key, value, expiration }))
            == Ok::<RequestView, ParseError>(RequestView::Put { key, value, expiration }),
{
    broadcast use encode_utf8_valid_utf8;
    broadcast use encode_utf8_decode_utf8;

    let kb = encode_utf8(key);
    let p = spec_request_payload(RequestView::Put { key, value, expiration });
    assert(p.len() == 12 + kb.len() + value.len());
    assert(p.subrange(0, 8) =~= spec_u64_to_be(kb.len() as u64));
    lemma_u64_be_roundtrip(kb.len() as u64);
    assert(p.subrange(8, 12) =~= spec_u32_to_be(expiration));
    lemma_u32_be_roundtrip(expiration);
    assert(p.subrange(12, 12 + kb.len() as int) =~= kb);
    assert(p.subrange(12 + kb.len() as int, p.len() as int) =~= value);
}

} // verus!

//! Kind tags: the first byte of every frame header names the request or
//! response variant that the payload encodes. Request tags and response
//! tags come from disjoint numeric ranges, so one byte selects the arm of
//! the message union unambiguously.

use vstd::prelude::*;

verus! {

#[derive(Debug, Clone, Copy, PartialEq, Eq, Structural)]
pub enum RequestKind {
    Version,
    Ping,
    Get,
    Put,
    Delete,
    Clear,
}

#[derive(Debug, Clone, Copy, PartialEq, Eq, Structural)]
pub enum ResponseKind {
    Pong,
    Done,
    Value,
    KeyNotFound,
    Error,
}

#[derive(Debug, Clone, Copy, PartialEq, Eq, Structural)]
pub enum MsgKind {
    Request(RequestKind),
    Response(ResponseKind),
}

pub open spec fn spec_request_tag(k: RequestKind) -> u8 {
    match k {
        RequestKind::Version => 0,
        RequestKind::Ping => 1,
        RequestKind::Get => 2,
        RequestKind::Put => 3,
        RequestKind::Delete => 4,
        RequestKind::Clear => 5,
    }
}

pub open spec fn spec_response_tag(k: ResponseKind) -> u8 {
    match k {
        ResponseKind::Pong => 128,
        ResponseKind::Done => 129,
        ResponseKind::Value => 130,
        ResponseKind::KeyNotFound => 131,
        ResponseKind::Error => 255,
    }
}

pub open spec fn spec_tag(k: MsgKind) -> u8 {
    match k {
        MsgKind::Request(r) => spec_request_tag(r),
        MsgKind::Response(r) => spec_response_tag(r),
    }
}

/// The request kind named by a tag byte, if any. Request tags occupy the
/// low half of the byte range.
pub open spec fn spec_request_kind_of_tag(tag: u8) -> Option<RequestKind> {
    if tag == 0 {
        Some(RequestKind::Version)
    } else if tag == 1 {
        Some(RequestKind::Ping)
    } else if tag == 2 {
        Some(RequestKind::Get)
    } else if tag == 3 {
        Some(RequestKind::Put)
    } else if tag == 4 {
        Some(RequestKind::Delete)
    } else if tag == 5 {
        Some(RequestKind::Clear)
    } else {
        None
    }
}

/// The response kind named by a tag byte, if any. Response tags occupy the
/// high half of the byte range.
pub open spec fn spec_response_kind_of_tag(tag: u8) -> Option<ResponseKind> {
    if tag == 128 {
        Some(ResponseKind::Pong)
    } else if tag == 129 {
        Some(ResponseKind::Done)
    } else if tag == 130 {
        Some(ResponseKind::Value)
    } else if tag == 131 {
        Some(ResponseKind::KeyNotFound)
    } else if tag == 255 {
        Some(ResponseKind::Error)
    } else {
        None
    }
}

pub open spec fn spec_kind_of_tag(tag: u8) -> Option<MsgKind> {
    if tag < 128 {
        match spec_request_kind_of_tag(tag) {
            Some(r) => Some(MsgKind::Request(r)),
            None => None,
        }
    } else {
        match spec_response_kind_of_tag(tag) {
            Some(r) => Some(MsgKind::Response(r)),
            None => None,
        }
    }
}

impl RequestKind {
    pub fn tag(self) -> (r: u8)
        ensures
            r == spec_request_tag(self),
    {
        match self {
            RequestKind::Version => 0,
            RequestKind::Ping => 1,
            RequestKind::Get => 2,
            RequestKind::Put => 3,
            RequestKind::Delete => 4,
            RequestKind::Clear => 5,
        }
    }

    /// The request kind a tag byte names; `None` where the byte is no
    /// request tag.
    pub fn from_tag(tag: u8) -> (r: Option<RequestKind>)
        ensures
            r == spec_request_kind_of_tag(tag),
    {
        if tag == 0 {
            Some(RequestKind::Version)
        } else if tag == 1 {
            Some(RequestKind::Ping)
        } else if tag == 2 {
            Some(RequestKind::Get)
        } else if tag == 3 {
            Some(RequestKind::Put)
        } else if tag == 4 {
            Some(RequestKind::Delete)
        } else if tag == 5 {
            Some(RequestKind::Clear)
        } else {
            None
        }
    }
}

impl ResponseKind {
    pub fn tag(self) -> (r: u8)
        ensures
            r == spec_response_tag(self),
    {
        match self {
            ResponseKind::Pong => 128,
            ResponseKind::Done => 129,
            ResponseKind::Value => 130,
            ResponseKind::KeyNotFound => 131,
            ResponseKind::Error => 255,
        }
    }

    /// The response kind a tag byte names; `None` where the byte is no
    /// response tag.
    pub fn from_tag(tag: u8) -> (r: Option<ResponseKind>)
        ensures
            r == spec_response_kind_of_tag(tag),
    {
        if tag == 128 {
            Some(ResponseKind::Pong)
        } else if tag == 129 {
            Some(ResponseKind::Done)
        } else if tag == 130 {
            Some(ResponseKind::Value)
        } else if tag == 131 {
            Some(ResponseKind::KeyNotFound)
        } else if tag == 255 {
            Some(ResponseKind::Error)
        } else {
            None
        }
    }
}

impl MsgKind {
    pub fn tag(self) -> (r: u8)
        ensures
            r == spec_tag(self),
    {
        match self {
            MsgKind::Request(k) => k.tag(),
            MsgKind::Response(k) => k.tag(),
        }
    }

    /// The message kind a tag byte names; `None` where the byte matches no
    /// request or response tag.
    pub fn from_tag(tag: u8) -> (r: Option<MsgKind>)
        ensures
            r == spec_kind_of_tag(tag),
    {
        if tag < 128 {
            match RequestKind::from_tag(tag) {
                Some(k) => Some(MsgKind::Request(k)),
                None => None,
            }
        } else {
            match ResponseKind::from_tag(tag) {
                Some(k) => Some(MsgKind::Response(k)),
                None => None,
            }
        }
    }
}

/// Tags are faithful: reading the tag of a kind back yields that kind.
/// With request tags below 128 and response tags at or above it, the two
/// ranges are disjoint.
pub proof fn lemma_tag_roundtrip(k: MsgKind)
    ensures
        spec_kind_of_tag(spec_tag(k)) == Some(k),
        (k is Request ==> spec_tag(k) < 128) && (k is Response ==> spec_tag(k) >= 128),
{
}

} // verus!

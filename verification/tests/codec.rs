use memcrab::kind::{MsgKind, RequestKind, ResponseKind};
use memcrab::{Msg, ParseError, Parser, Request, Response, HEADER_SIZE};

#[test]
fn test_size() {
    assert_eq!(HEADER_SIZE, 9);
}

#[test]
fn test_request_range() {
    for x in 128..=255u16 {
        let tag = u8::try_from(x).unwrap();
        assert!(RequestKind::from_tag(tag).is_none());
    }
}

#[test]
fn test_response_range() {
    for x in 0..=127u16 {
        let tag = u8::try_from(x).unwrap();
        assert!(ResponseKind::from_tag(tag).is_none());
    }
}

#[test]
fn test_response() {
    let pong = 128;
    assert_eq!(ResponseKind::Pong, ResponseKind::from_tag(pong).unwrap());
    assert_eq!(
        MsgKind::Response(ResponseKind::Pong),
        MsgKind::from_tag(pong).unwrap()
    );
}

fn decode_frame(data: &[u8]) -> Result<Msg, ParseError> {
    let parser = Parser;
    let header: &[u8; 9] = data[..HEADER_SIZE].try_into().unwrap();
    let (kind, payload_len) = parser.decode_header(header)?;
    assert_eq!(payload_len as usize, data.len() - HEADER_SIZE);
    parser.decode(kind, data[HEADER_SIZE..].to_vec())
}

fn assert_parsed(data: &[u8], msg: Msg) {
    assert_eq!(decode_frame(data).unwrap(), msg);
    // and the encoder produces those exact bytes back
    let parser = Parser;
    assert_eq!(parser.encode(msg), data);
}

#[test]
fn test_frames() {
    let zero_u64_bytes = &0u64.to_be_bytes();

    let mut data = vec![1u8];
    data.extend(zero_u64_bytes);
    assert_parsed(&data, Msg::Request(Request::Ping));

    let mut data = vec![2u8];
    data.extend(2u64.to_be_bytes()); // rest of header
    data.extend([97, 98]); // utf8 encoded key
    assert_parsed(&data, Msg::Request(Request::Get("ab".to_owned())));

    let mut data = vec![3u8];
    let klen = [0, 0, 0, 0, 0, 0, 0, 2];
    let exp = [0, 0, 1, 0];
    let key = [97, 98]; // utf8 encoded key
    let val = [1, 2, 3];
    let mut payload: Vec<u8> = Vec::new();
    payload.extend(klen);
    payload.extend(exp);
    payload.extend(key);
    payload.extend(val);
    let payload_len = (payload.len() as u64).to_be_bytes();
    data.extend(payload_len);
    data.extend(payload);
    assert_parsed(
        &data,
        Msg::Request(Request::Put {
            key: "ab".to_owned(),
            value: vec![1, 2, 3],
            expiration: 256,
        }),
    );

    let mut data = vec![4u8];
    data.extend(2u64.to_be_bytes()); // rest of header
    data.extend(vec![97, 98]); // utf8 encoded key
    assert_parsed(&data, Msg::Request(Request::Delete("ab".to_owned())));

    let mut data = vec![5u8];
    data.extend(zero_u64_bytes);
    assert_parsed(&data, Msg::Request(Request::Clear));

    let mut data = vec![128u8];
    data.extend(zero_u64_bytes);
    assert_parsed(&data, Msg::Response(Response::Pong));

    let mut data = vec![129u8];
    data.extend(zero_u64_bytes);
    assert_parsed(&data, Msg::Response(Response::Done));

    let mut data = vec![130u8];
    data.extend(4u64.to_be_bytes());
    data.extend(vec![1, 2, 3, 4]);
    assert_parsed(&data, Msg::Response(Response::Value(vec![1, 2, 3, 4])));

    let mut data = vec![131u8];
    data.extend(zero_u64_bytes);
    assert_parsed(&data, Msg::Response(Response::KeyNotFound));

    let mut data = vec![255u8];
    data.extend(3u64.to_be_bytes()); // payload len
    data.extend(vec![101, 114, 114]); // msg
    assert_parsed(&data, Msg::Response(Response::Error("err".to_owned())));
}

#[test]
fn test_roundtrip_all_variants() {
    let parser = Parser;
    let msgs = vec![
        Msg::Request(Request::Version(7)),
        Msg::Request(Request::Ping),
        Msg::Request(Request::Clear),
        Msg::Request(Request::Get(String::new())), // zero-length key
        Msg::Request(Request::Get("a key with spaces".to_owned())),
        Msg::Request(Request::Delete("k".to_owned())),
        Msg::Request(Request::Put {
            key: String::new(),
            value: vec![],
            expiration: 0,
        }),
        Msg::Request(Request::Put {
            key: "unicode-κλειδί".to_owned(),
            value: vec![0; 65536], // a large value
            expiration: 4294967295,
        }),
        Msg::Response(Response::Pong),
        Msg::Response(Response::Done),
        Msg::Response(Response::KeyNotFound),
        Msg::Response(Response::Value(vec![])),
        Msg::Response(Response::Value(vec![255, 0, 128])),
        Msg::Response(Response::Error(String::new())),
        Msg::Response(Response::Error("boom".to_owned())),
    ];
    for msg in msgs {
        let bytes = Parser.encode(msg.clone());
        assert_eq!(decode_frame(&bytes).unwrap(), msg);
        // header size invariant: 9 bytes of header, whatever the payload
        let _ = &parser;
        assert_eq!(
            bytes.len(),
            HEADER_SIZE
                + u64::from_be_bytes(bytes[1..9].try_into().unwrap()) as usize
        );
    }
}

#[test]
fn test_header_is_nine_bytes() {
    // the encoded header is exactly 9 bytes regardless of payload length
    for value in [vec![], vec![1], vec![0; 1000]] {
        let n = value.len();
        let bytes = Parser.encode(Msg::Response(Response::Value(value)));
        assert_eq!(bytes.len(), 9 + n);
        assert_eq!(bytes[0], 130);
        assert_eq!(u64::from_be_bytes(bytes[1..9].try_into().unwrap()), n as u64);
    }
}

#[test]
fn test_unknown_kind() {
    let parser = Parser;
    for tag in [6u8, 100, 127, 132, 200, 254] {
        let mut data = vec![tag];
        data.extend(0u64.to_be_bytes());
        let header: &[u8; 9] = data[..9].try_into().unwrap();
        assert_eq!(parser.decode_header(header), Err(ParseError::UnknownKind));
    }
}

#[test]
fn test_invalid_utf8() {
    let parser = Parser;
    // Get with a key that is not valid UTF-8
    let r = parser.decode(
        MsgKind::Request(RequestKind::Get),
        vec![0xff, 0xfe],
    );
    assert_eq!(r, Err(ParseError::InvalidUtf8));
    // Error response with a malformed message field
    let r = parser.decode(MsgKind::Response(ResponseKind::Error), vec![0x80]);
    assert_eq!(r, Err(ParseError::InvalidUtf8));
    // Put whose key bytes are not valid UTF-8
    let mut payload = vec![0, 0, 0, 0, 0, 0, 0, 1]; // key_length = 1
    payload.extend([0, 0, 0, 0]); // expiration
    payload.push(0xff); // key byte
    let r = parser.decode(MsgKind::Request(RequestKind::Put), payload);
    assert_eq!(r, Err(ParseError::InvalidUtf8));
}

#[test]
fn test_malformed_payload() {
    let parser = Parser;
    // Put payload shorter than its fixed prefix
    let r = parser.decode(MsgKind::Request(RequestKind::Put), vec![0; 11]);
    assert_eq!(r, Err(ParseError::MalformedPayload));
    // Put whose declared key length exceeds the payload
    let mut payload = vec![0, 0, 0, 0, 0, 0, 0, 9]; // key_length = 9
    payload.extend([0, 0, 0, 0]); // expiration
    payload.extend([97, 98]); // only 2 bytes follow
    let r = parser.decode(MsgKind::Request(RequestKind::Put), payload);
    assert_eq!(r, Err(ParseError::MalformedPayload));
    // Version with the wrong payload width
    let r = parser.decode(MsgKind::Request(RequestKind::Version), vec![1, 2, 3]);
    assert_eq!(r, Err(ParseError::MalformedPayload));
}

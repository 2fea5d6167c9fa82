use memcrab::serve::{expect_request, response_to};
use memcrab::MemLru;
use memcrab::{Cache, CacheCfg, Msg, Parser, Request, Response, Value, HEADER_SIZE};

fn small_cache(segments: usize, max_bytesize: usize) -> Cache {
    Cache::from_cfg(CacheCfg {
        segments,
        max_len: None,
        max_bytesize,
    })
}

#[test]
fn test_cache_set_get_remove_clear() {
    let cache = small_cache(4, 1000);
    assert!(cache.get("x").is_none());
    assert!(cache.set("x".to_owned(), vec![3, 4]));
    assert_eq!(cache.get("x"), Some(vec![3, 4]));
    assert_eq!(cache.remove("x"), Some(vec![3, 4]));
    assert!(cache.get("x").is_none());
    assert!(cache.remove("x").is_none());
    assert!(cache.set("a".to_owned(), vec![1]));
    assert!(cache.set("b".to_owned(), vec![2]));
    cache.clear();
    assert!(cache.get("a").is_none());
    assert!(cache.get("b").is_none());
}

#[test]
fn test_sharding_determinism() {
    // the same key maps to the same segment across repeated calls and
    // across distinct instances constructed with the same segment count
    let c1 = small_cache(10, 1000);
    let c2 = small_cache(10, 500);
    for key in ["", "a", "some-key", "another key", "κλειδί"] {
        let s = c1.segment_of(key);
        assert_eq!(s, c1.segment_of(key));
        assert_eq!(s, c2.segment_of(key));
        assert!(s < 10);
    }
}

#[test]
fn test_oversized_item_is_rejected() {
    // an item above its segment's byte budget is refused, not stored, and
    // the dispatch turns the refusal into an Error response
    let cache = small_cache(1, 10);
    assert!(!cache.set("key".to_owned(), vec![0; 20]));
    assert!(cache.get("key").is_none());
    let resp = response_to(
        Request::Put {
            key: "key".to_owned(),
            value: vec![0; 20],
            expiration: 0,
        },
        &cache,
    );
    assert_eq!(
        resp,
        Response::Error("item too large for its segment".to_owned())
    );
    // and a fitting item is accepted
    assert!(cache.set("key".to_owned(), vec![0; 7]));
    assert_eq!(cache.get("key"), Some(vec![0; 7]));
}

#[test]
fn test_expiration() {
    // an entry stored with a one-second expiration is reported absent once
    // past its threshold, and the probe value observes the same clock
    let cache = small_cache(2, 1000);
    assert!(cache.set_with_expiration("k".to_owned(), vec![7], 1));
    assert_eq!(cache.get("k"), Some(vec![7]));
    let probe = Value::with_expiration(vec![], 1);
    let mut spins: u64 = 0;
    while !probe.expired() {
        spins += 1;
        if spins > 200_000_000_000 {
            panic!("expiration clock never fired");
        }
    }
    assert!(cache.get("k").is_none());
    // an entry without expiration stays
    assert!(cache.set("p".to_owned(), vec![8]));
    assert_eq!(cache.get("p"), Some(vec![8]));
}

#[test]
fn test_expired_entry_bytes_are_reclaimed() {
    // at the segment level, removal of an entry returns its bytes to the
    // budget; the cache purges expired entries through this same path
    let mut m = MemLru::<Value>::with_max_bytesize(100);
    m.set("k".to_owned(), Value::with_expiration(vec![0; 9], 1));
    assert_eq!(m.bytesize(), 10);
    let probe = Value::with_expiration(vec![], 1);
    let mut spins: u64 = 0;
    while !probe.expired() {
        spins += 1;
        if spins > 200_000_000_000 {
            panic!("expiration clock never fired");
        }
    }
    let taken = m.remove("k").unwrap();
    assert!(taken.expired());
    assert_eq!(m.bytesize(), 0);
}

#[test]
fn test_version_is_declined() {
    let cache = small_cache(1, 100);
    let resp = response_to(Request::Version(1), &cache);
    assert_eq!(
        resp,
        Response::Error("version handshake not supported".to_owned())
    );
}

/// Drive one request through the same path a connection takes: encode it,
/// split the header off the wire bytes, decode, dispatch, encode the
/// response, decode it back.
fn exchange(cache: &Cache, req: Request) -> Response {
    let parser = Parser;
    let wire = parser.encode(Msg::Request(req));
    let header: &[u8; 9] = wire[..HEADER_SIZE].try_into().unwrap();
    let (kind, payload_len) = parser.decode_header(header).unwrap();
    assert_eq!(payload_len as usize, wire.len() - HEADER_SIZE);
    let msg = parser.decode(kind, wire[HEADER_SIZE..].to_vec()).unwrap();
    let request = expect_request(msg).unwrap();
    let response = response_to(request, cache);
    let wire_back = parser.encode(Msg::Response(response));
    let header: &[u8; 9] = wire_back[..HEADER_SIZE].try_into().unwrap();
    let (kind, _) = parser.decode_header(header).unwrap();
    match parser.decode(kind, wire_back[HEADER_SIZE..].to_vec()).unwrap() {
        Msg::Response(resp) => resp,
        Msg::Request(_) => panic!("a response was owed"),
    }
}

#[test]
fn test_request_response_scenario() {
    let cache = small_cache(10, 1 << 30);
    assert_eq!(exchange(&cache, Request::Ping), Response::Pong);
    assert_eq!(
        exchange(&cache, Request::Get("x".to_owned())),
        Response::KeyNotFound
    );
    assert_eq!(
        exchange(
            &cache,
            Request::Put {
                key: "x".to_owned(),
                value: vec![3, 4],
                expiration: 0,
            },
        ),
        Response::Done
    );
    assert_eq!(
        exchange(&cache, Request::Get("x".to_owned())),
        Response::Value(vec![3, 4])
    );
    assert_eq!(exchange(&cache, Request::Clear), Response::Done);
    assert_eq!(
        exchange(&cache, Request::Get("x".to_owned())),
        Response::KeyNotFound
    );
    assert_eq!(
        exchange(&cache, Request::Delete("x".to_owned())),
        Response::KeyNotFound
    );
    assert_eq!(
        exchange(
            &cache,
            Request::Put {
                key: "y".to_owned(),
                value: vec![9],
                expiration: 0,
            },
        ),
        Response::Done
    );
    assert_eq!(
        exchange(&cache, Request::Delete("y".to_owned())),
        Response::Done
    );
}

#[test]
fn test_budget_partition() {
    // 32 bytes over 3 segments: the first segment absorbs the remainder
    // (10 + 2 = 12 bytes), the others get 10 each
    let cache = Cache::from_cfg(CacheCfg {
        segments: 3,
        max_len: Some(10),
        max_bytesize: 32,
    });
    assert_eq!(cache.num_segments(), 3);
    let mut key_in_first = None;
    let mut key_in_other = None;
    for i in 0..100 {
        let key = format!("{:02}", i); // keys of length 2
        if cache.segment_of(&key) == 0 {
            key_in_first.get_or_insert(key);
        } else {
            key_in_other.get_or_insert(key);
        }
    }
    let key_in_first = key_in_first.unwrap();
    let key_in_other = key_in_other.unwrap();
    // a 12-byte item fits the first segment exactly
    assert!(cache.set(key_in_first, vec![0; 10]));
    // but exceeds any other segment's 10-byte share
    assert!(!cache.set(key_in_other.clone(), vec![0; 10]));
    assert!(cache.set(key_in_other, vec![0; 8]));
}

#[test]
fn test_expiry_verdict_is_strict() {
    // a clocked entry expires only when strictly more whole seconds than
    // its threshold have passed; a reading equal to the threshold is not
    // yet expired; an entry without a clock never expires
    let v = Value::with_expiration(vec![1], 1);
    assert!(!v.expired_at(0));
    assert!(!v.expired_at(1));
    assert!(v.expired_at(2));
    assert!(v.expired_at(u64::MAX));
    let v = Value::new(vec![1]);
    assert!(!v.expired_at(0));
    assert!(!v.expired_at(u64::MAX));
}

#[test]
fn test_max_len_partition() {
    // one segment takes the whole entry-count cap: the sixth insert evicts
    // the least recently used of the five
    let cache = Cache::from_cfg(CacheCfg {
        segments: 1,
        max_len: Some(5),
        max_bytesize: 1000,
    });
    for key in ["a", "b", "c", "d", "e", "f"] {
        assert!(cache.set(key.to_owned(), vec![1]));
    }
    assert!(cache.get("a").is_none());
    for key in ["b", "c", "d", "e", "f"] {
        assert_eq!(cache.get(key), Some(vec![1]));
    }
}

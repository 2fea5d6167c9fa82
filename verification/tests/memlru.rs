use memcrab::MemLru;

#[test]
fn builder() {
    let max_len = 10;
    let max_bytesize = 50;

    let memlru = MemLru::<Vec<u8>>::builder()
        .max_len(max_len)
        .max_bytesize(max_bytesize)
        .build();

    assert_eq!(memlru.max_bytesize(), max_bytesize);
    assert_eq!(memlru.max_len(), max_len);

    let memlru = MemLru::<Vec<u8>>::builder()
        .max_bytesize(max_bytesize)
        .build();

    assert_eq!(memlru.max_bytesize(), max_bytesize);
    assert_eq!(memlru.max_len(), usize::MAX);
}

#[test]
fn init() {
    let maxbytes = 1000;
    let maxlen = 11;
    let cache = MemLru::<Vec<u8>>::builder()
        .max_len(maxlen)
        .max_bytesize(maxbytes)
        .build();
    println!("{:?}", (cache.max_bytesize(), cache.max_len()));
}

#[test]
fn test_eviction_order() {
    // with max_bytesize = 15 and item size 10, inserting A then B evicts A
    let mut m = MemLru::<Vec<u8>>::with_max_bytesize(15);
    assert!(m.set("A".to_owned(), vec![0; 9]).is_none()); // size 10
    assert_eq!(m.bytesize(), 10);
    assert!(m.set("B".to_owned(), vec![1; 9]).is_none()); // size 10, evicts A
    assert_eq!(m.bytesize(), 10);
    assert_eq!(m.len(), 1);
    assert!(m.get("A").is_none());
    assert_eq!(m.get("B"), Some(&vec![1; 9]));
}

#[test]
fn test_recency_promotion() {
    // A and B fill the container; get(A) promotes A; C then evicts B
    let mut m = MemLru::<Vec<u8>>::with_max_bytesize(20);
    m.set("A".to_owned(), vec![0; 9]);
    m.set("B".to_owned(), vec![1; 9]);
    assert_eq!(m.bytesize(), 20);
    assert!(m.get("A").is_some());
    m.set("C".to_owned(), vec![2; 9]);
    assert!(m.get("B").is_none());
    assert_eq!(m.get("A"), Some(&vec![0; 9]));
    assert_eq!(m.get("C"), Some(&vec![2; 9]));
}

#[test]
fn test_accounting() {
    // bytesize always equals the sum of size_of(key, value) over held
    // entries, and never exceeds max_bytesize
    let mut m = MemLru::<Vec<u8>>::with_max_bytesize(100);
    assert_eq!(m.bytesize(), 0);
    m.set("alpha".to_owned(), vec![0; 5]); // 5 + 5
    assert_eq!(m.bytesize(), 10);
    m.set("beta".to_owned(), vec![0; 16]); // 4 + 16
    assert_eq!(m.bytesize(), 30);
    // overwriting subtracts the old entry first: no double counting
    m.set("alpha".to_owned(), vec![0; 1]); // 5 + 1
    assert_eq!(m.bytesize(), 26);
    assert!(m.bytesize() <= m.max_bytesize());
    assert_eq!(m.remove("beta"), Some(vec![0; 16]));
    assert_eq!(m.bytesize(), 6);
    assert_eq!(m.remove("missing"), None);
    assert_eq!(m.bytesize(), 6);
    m.clear();
    assert_eq!(m.bytesize(), 0);
    assert_eq!(m.len(), 0);
    assert!(m.is_empty());
}

#[test]
fn test_byte_bound_over_random_ops() {
    // the byte bound holds after every operation of a longer sequence
    let mut m = MemLru::<Vec<u8>>::with_max_bytesize(64);
    for i in 0..200usize {
        let key = format!("k{}", i % 17);
        let val = vec![0u8; (i * 7) % 40];
        m.set(key, val);
        assert!(m.bytesize() <= m.max_bytesize());
        if i % 3 == 0 {
            m.remove(&format!("k{}", (i + 5) % 17));
            assert!(m.bytesize() <= m.max_bytesize());
        }
    }
}

#[test]
fn test_max_len_cap() {
    // the entry-count cap evicts in least-recently-used order too
    let mut m = MemLru::<Vec<u8>>::builder()
        .max_len(2)
        .max_bytesize(1000)
        .build();
    m.set("a".to_owned(), vec![1]);
    m.set("b".to_owned(), vec![2]);
    m.set("c".to_owned(), vec![3]);
    assert_eq!(m.len(), 2);
    assert!(m.get("a").is_none());
    assert!(m.get("b").is_some());
    assert!(m.get("c").is_some());
    // bytes of the evicted entry were reclaimed
    assert_eq!(m.bytesize(), 4);
}

#[test]
fn test_set_returns_previous_value() {
    let mut m = MemLru::<Vec<u8>>::with_max_bytesize(100);
    assert_eq!(m.set("k".to_owned(), vec![1, 2]), None);
    assert_eq!(m.set("k".to_owned(), vec![3]), Some(vec![1, 2]));
    assert_eq!(m.get("k"), Some(&vec![3]));
}

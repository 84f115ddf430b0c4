use dnsproxy::cache::{CacheKey, QueryCache, EMPTY_ANSWER_TTL};
use dnsproxy::record::{copy_bytes, copy_records, lowest_ttl, AnswerRecord};

fn key(domain: &str, record_type: u16) -> CacheKey {
    CacheKey { domain: domain.to_string(), record_type }
}

fn record(name: &str, ttl: u32, last: u8) -> AnswerRecord {
    AnswerRecord {
        name: name.to_string(),
        record_type: 1,
        ttl,
        rdata: vec![192, 0, 2, last],
    }
}

#[test]
fn new_cache_is_empty() {
    let cache = QueryCache::new();
    assert_eq!(cache.len(), 0);
    assert!(!cache.contains_key(&key("example.com", 1)));
    assert_eq!(cache.get(&key("example.com", 1), 0), None);
    assert_eq!(cache.expiry_of(&key("example.com", 1)), None);
}

#[test]
fn put_then_get_until_expiry() {
    let mut cache = QueryCache::new();
    let records = vec![record("example.com.", 300, 1)];
    cache.put(key("example.com", 1), records.clone(), 300, 1000);
    assert_eq!(cache.expiry_of(&key("example.com", 1)), Some(1300));
    assert_eq!(cache.get(&key("example.com", 1), 1000), Some(records.clone()));
    assert_eq!(cache.get(&key("example.com", 1), 1001), Some(records.clone()));
    assert_eq!(cache.get(&key("example.com", 1), 1299), Some(records));
    assert_eq!(cache.get(&key("example.com", 1), 1300), None);
    assert_eq!(cache.get(&key("example.com", 1), 1301), None);
    assert_eq!(cache.len(), 1);
    assert!(cache.contains_key(&key("example.com", 1)));
}

#[test]
fn get_keeps_record_order() {
    let mut cache = QueryCache::new();
    let records = vec![
        record("example.com.", 30, 3),
        record("example.com.", 30, 1),
        record("example.com.", 30, 2),
    ];
    cache.put(key("example.com", 1), records.clone(), 30, 0);
    assert_eq!(cache.get(&key("example.com", 1), 29), Some(records));
}

#[test]
fn keys_differ_by_type() {
    let mut cache = QueryCache::new();
    let a = vec![record("example.com.", 60, 1)];
    let aaaa = vec![AnswerRecord {
        name: "example.com.".to_string(),
        record_type: 28,
        ttl: 60,
        rdata: vec![0x20, 0x01, 0x0d, 0xb8, 0, 0, 0, 0, 0, 0, 0, 0, 0, 0, 0, 1],
    }];
    cache.put(key("example.com", 1), a.clone(), 60, 10);
    assert_eq!(cache.get(&key("example.com", 28), 10), None);
    cache.put(key("example.com", 28), aaaa.clone(), 60, 10);
    assert_eq!(cache.len(), 2);
    assert_eq!(cache.get(&key("example.com", 1), 10), Some(a));
    assert_eq!(cache.get(&key("example.com", 28), 10), Some(aaaa));
}

#[test]
fn keys_differ_by_domain() {
    let mut cache = QueryCache::new();
    cache.put(key("a.example", 1), vec![record("a.example.", 60, 1)], 60, 10);
    assert_eq!(cache.get(&key("b.example", 1), 10), None);
    assert_eq!(cache.get(&key("A.example", 1), 10), None);
    assert!(!cache.contains_key(&key("b.example", 1)));
}

#[test]
fn put_overwrites() {
    let mut cache = QueryCache::new();
    let old = vec![record("example.com.", 10, 1)];
    let new = vec![record("example.com.", 20, 2)];
    cache.put(key("example.com", 1), old, 10, 100);
    cache.put(key("example.com", 1), new.clone(), 20, 105);
    assert_eq!(cache.len(), 1);
    assert_eq!(cache.expiry_of(&key("example.com", 1)), Some(125));
    assert_eq!(cache.get(&key("example.com", 1), 120), Some(new));
}

#[test]
fn put_overwrites_expired_entry() {
    let mut cache = QueryCache::new();
    cache.put(key("example.com", 1), vec![record("example.com.", 10, 1)], 10, 100);
    assert_eq!(cache.get(&key("example.com", 1), 200), None);
    let new = vec![record("example.com.", 10, 2)];
    cache.put(key("example.com", 1), new.clone(), 10, 200);
    assert_eq!(cache.get(&key("example.com", 1), 209), Some(new));
    assert_eq!(cache.len(), 1);
}

#[test]
fn empty_answer_gets_the_default_ttl() {
    let mut cache = QueryCache::new();
    cache.put(key("nothing.example", 1), Vec::new(), 0, 500);
    assert_eq!(EMPTY_ANSWER_TTL, 60);
    assert_eq!(cache.expiry_of(&key("nothing.example", 1)), Some(560));
    assert_eq!(cache.get(&key("nothing.example", 1), 559), Some(Vec::new()));
    assert_eq!(cache.get(&key("nothing.example", 1), 560), None);
}

#[test]
fn empty_answer_is_not_kept_for_the_asked_ttl() {
    let mut cache = QueryCache::new();
    cache.put(key("nothing.example", 1), Vec::new(), u32::MAX, 500);
    assert_eq!(cache.expiry_of(&key("nothing.example", 1)), Some(560));
}

#[test]
fn zero_ttl_is_never_served() {
    let mut cache = QueryCache::new();
    cache.put(key("example.com", 1), vec![record("example.com.", 0, 1)], 0, 77);
    assert_eq!(cache.expiry_of(&key("example.com", 1)), Some(77));
    assert_eq!(cache.get(&key("example.com", 1), 77), None);
    assert!(cache.contains_key(&key("example.com", 1)));
}

#[test]
fn expiry_stops_at_the_last_second() {
    let mut cache = QueryCache::new();
    cache.put(key("example.com", 1), vec![record("example.com.", 10, 1)], 10, u64::MAX - 3);
    assert_eq!(cache.expiry_of(&key("example.com", 1)), Some(u64::MAX));
    assert!(cache.get(&key("example.com", 1), u64::MAX - 1).is_some());
    assert_eq!(cache.get(&key("example.com", 1), u64::MAX), None);
    cache.put(key("b.example", 1), vec![record("b.example.", 3, 1)], 3, u64::MAX - 3);
    assert_eq!(cache.expiry_of(&key("b.example", 1)), Some(u64::MAX));
    cache.put(key("c.example", 1), vec![record("c.example.", 2, 1)], 2, u64::MAX - 3);
    assert_eq!(cache.expiry_of(&key("c.example", 1)), Some(u64::MAX - 1));
}

#[test]
fn get_does_not_change_the_cache() {
    let mut cache = QueryCache::new();
    cache.put(key("example.com", 1), vec![record("example.com.", 10, 1)], 10, 0);
    assert_eq!(cache.get(&key("example.com", 1), 10), None);
    assert_eq!(cache.len(), 1);
    assert!(cache.get(&key("example.com", 1), 9).is_some());
}

#[test]
fn sweep_removes_expired_entries() {
    let mut cache = QueryCache::new();
    cache.put(key("example.com", 1), vec![record("example.com.", 300, 1)], 300, 1000);
    assert_eq!(cache.len(), 1);
    cache.sweep(1299);
    assert_eq!(cache.len(), 1);
    cache.sweep(1300);
    assert_eq!(cache.len(), 0);
    assert!(!cache.contains_key(&key("example.com", 1)));
    assert_eq!(cache.expiry_of(&key("example.com", 1)), None);
}

#[test]
fn sweep_keeps_what_is_fresh() {
    let mut cache = QueryCache::new();
    let long = vec![record("long.example.", 100, 1)];
    cache.put(key("short.example", 1), vec![record("short.example.", 10, 1)], 10, 0);
    cache.put(key("long.example", 1), long.clone(), 100, 0);
    cache.put(key("mid.example", 1), vec![record("mid.example.", 50, 1)], 50, 0);
    cache.put(key("long.example", 28), Vec::new(), 0, 0);
    assert_eq!(cache.len(), 4);
    cache.sweep(60);
    assert_eq!(cache.len(), 1);
    assert_eq!(cache.get(&key("long.example", 1), 60), Some(long));
    assert!(!cache.contains_key(&key("short.example", 1)));
    assert!(!cache.contains_key(&key("mid.example", 1)));
    assert!(!cache.contains_key(&key("long.example", 28)));
    cache.sweep(100);
    assert_eq!(cache.len(), 0);
}

#[test]
fn sweep_of_empty_cache() {
    let mut cache = QueryCache::new();
    cache.sweep(u64::MAX);
    assert_eq!(cache.len(), 0);
}

#[test]
fn sweep_changes_no_later_lookup() {
    let mut swept = QueryCache::new();
    let mut kept = QueryCache::new();
    for cache in [&mut swept, &mut kept] {
        cache.put(key("a.example", 1), vec![record("a.example.", 5, 1)], 5, 0);
        cache.put(key("b.example", 1), vec![record("b.example.", 15, 2)], 15, 0);
    }
    swept.sweep(10);
    for now in [10u64, 11, 14, 15, 16] {
        for name in ["a.example", "b.example"] {
            assert_eq!(swept.get(&key(name, 1), now), kept.get(&key(name, 1), now));
        }
    }
}

#[test]
fn lowest_ttl_of_records() {
    assert_eq!(lowest_ttl(&vec![record("a.", 300, 1)]), 300);
    assert_eq!(lowest_ttl(&vec![record("a.", 300, 1), record("a.", 20, 2), record("a.", 40, 3)]), 20);
    assert_eq!(lowest_ttl(&vec![record("a.", 0, 1), record("a.", 20, 2)]), 0);
    assert_eq!(lowest_ttl(&vec![record("a.", 7, 1), record("a.", 7, 2)]), 7);
    assert_eq!(lowest_ttl(&Vec::new()), u32::MAX);
}

#[test]
fn copies_hold_the_same() {
    let records = vec![record("a.example.", 1, 1), record("b.example.", 2, 2)];
    assert_eq!(copy_records(&records), records);
    assert_eq!(records[0].duplicate(), records[0]);
    assert_eq!(copy_bytes(&vec![1, 2, 3]), vec![1, 2, 3]);
    assert_eq!(copy_bytes(&Vec::new()), Vec::<u8>::new());
}

#[test]
fn many_entries_are_all_found() {
    let mut cache = QueryCache::new();
    for i in 0..1000u32 {
        let name = format!("host{}.example", i);
        let record_type = if i % 2 == 0 { 1 } else { 28 };
        cache.put(key(&name, record_type), vec![record(&name, i, (i % 256) as u8)], i, 0);
        assert_eq!(cache.len(), i as usize + 1);
    }
    for i in 0..1000u32 {
        let name = format!("host{}.example", i);
        let record_type = if i % 2 == 0 { 1 } else { 28 };
        assert_eq!(cache.expiry_of(&key(&name, record_type)), Some(i as u64));
        assert!(!cache.contains_key(&key(&name, 29 - record_type)));
        if i > 0 {
            assert_eq!(
                cache.get(&key(&name, record_type), i as u64 - 1),
                Some(vec![record(&name, i, (i % 256) as u8)])
            );
        }
        assert_eq!(cache.get(&key(&name, record_type), i as u64), None);
    }
    assert!(!cache.contains_key(&key("host1000.example", 1)));
    for i in 0..1000u32 {
        let name = format!("host{}.example", i);
        let record_type = if i % 2 == 0 { 1 } else { 28 };
        cache.put(key(&name, record_type), Vec::new(), 0, 2000);
    }
    assert_eq!(cache.len(), 1000);
    assert_eq!(cache.expiry_of(&key("host7.example", 28)), Some(2060));
}

#[test]
fn sweep_of_many_entries() {
    let mut cache = QueryCache::new();
    for i in 0..500u32 {
        let name = format!("host{}.example", i);
        cache.put(key(&name, 1), vec![record(&name, i, 1)], i, 0);
    }
    cache.sweep(249);
    assert_eq!(cache.len(), 250);
    for i in 0..500u32 {
        let name = format!("host{}.example", i);
        assert_eq!(cache.contains_key(&key(&name, 1)), i >= 250);
        assert_eq!(cache.expiry_of(&key(&name, 1)), if i >= 250 { Some(i as u64) } else { None });
    }
    for i in 500..600u32 {
        let name = format!("host{}.example", i);
        cache.put(key(&name, 1), vec![record(&name, i, 1)], i, 0);
    }
    assert_eq!(cache.len(), 350);
    cache.sweep(598);
    assert_eq!(cache.len(), 1);
    assert!(cache.contains_key(&key("host599.example", 1)));
    cache.sweep(599);
    assert_eq!(cache.len(), 0);
    cache.put(key("again.example", 1), vec![record("again.example.", 5, 1)], 5, 600);
    assert_eq!(cache.get(&key("again.example", 1), 604), Some(vec![record("again.example.", 5, 1)]));
}

#[test]
fn names_beyond_ascii_are_kept_apart() {
    let mut cache = QueryCache::new();
    cache.put(key("b\u{fc}cher.example", 1), vec![record("a.", 9, 1)], 9, 0);
    cache.put(key("bucher.example", 1), vec![record("a.", 9, 2)], 9, 0);
    assert_eq!(cache.len(), 2);
    assert_eq!(cache.get(&key("b\u{fc}cher.example", 1), 0), Some(vec![record("a.", 9, 1)]));
    assert_eq!(cache.get(&key("bucher.example", 1), 0), Some(vec![record("a.", 9, 2)]));
    assert_eq!(cache.get(&key("b\u{fc}cher.example.", 1), 0), None);
}

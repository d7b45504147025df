use bridge_sled::store::page_of;
use bridge_sled::{Config, Page, Store, StoreError, Wrapped, WriteBatch};

fn fresh_path(name: &str) -> String {
    let nanos = std::time::SystemTime::now()
        .duration_since(std::time::UNIX_EPOCH)
        .unwrap()
        .as_nanos();
    format!("/tmp/bridge_sled_{}_{}", name, nanos)
}

fn open_fresh(name: &str) -> Store {
    Store::open(&Config::new(&fresh_path(name))).unwrap()
}

fn entries(page: &Page) -> Vec<(&str, &str)> {
    page.entries.iter().map(|(k, v)| (k.as_str(), v.as_str())).collect()
}

#[test]
fn wrapped_new_holds_value() {
    let w = Wrapped::new(7u32);
    assert_eq!(w.value, 7);
}

#[test]
fn config_defaults() {
    let c = Config::new("some/path");
    assert_eq!(c.path, "some/path");
    assert_eq!(c.cache_capacity, 10_000_000_000);
    assert_eq!(c.flush_every_ms, Some(1000));
    assert_eq!(c.snapshot_after_ops, 100_000);
}

#[test]
fn open_unusable_path_fails() {
    let r = Store::open(&Config::new("/dev/null/store"));
    assert_eq!(r.err(), Some(StoreError::Open));
}

#[test]
fn insert_then_get_round_trips() {
    let mut s = open_fresh("round_trip");
    s.insert("k", "héllo wörld").unwrap();
    assert_eq!(s.get("k").unwrap(), Some("héllo wörld".to_string()));
}

#[test]
fn empty_value_is_not_missing() {
    let mut s = open_fresh("empty_value");
    s.insert("empty", "").unwrap();
    assert_eq!(s.get("empty").unwrap(), Some(String::new()));
    assert_eq!(s.get("never").unwrap(), None);
}

#[test]
fn latest_insert_wins() {
    let mut s = open_fresh("latest");
    s.insert("k", "1").unwrap();
    s.insert("j", "x").unwrap();
    s.insert("k", "2").unwrap();
    s.insert("k", "3").unwrap();
    assert_eq!(s.get("k").unwrap(), Some("3".to_string()));
    assert_eq!(s.get("j").unwrap(), Some("x".to_string()));
}

#[test]
fn range_is_ascending_by_bytes() {
    let mut s = open_fresh("ascending");
    for k in ["pear", "apple", "Zebra", "banana", "apple2", "a"] {
        s.insert(k, k).unwrap();
    }
    let page = s.range("", "zzz", 100).unwrap().unwrap();
    let keys: Vec<&str> = page.entries.iter().map(|(k, _)| k.as_str()).collect();
    assert_eq!(keys, vec!["Zebra", "a", "apple", "apple2", "banana", "pear"]);
    assert_eq!(page.last_key, "pear");
}

#[test]
fn batch_put_put_delete_is_atomic() {
    let mut s = open_fresh("atomic");
    let mut b = WriteBatch::new();
    b.insert("a", "1");
    b.insert("b", "2");
    b.remove("a");
    assert_eq!(s.get("a").unwrap(), None);
    assert_eq!(s.get("b").unwrap(), None);
    s.apply_batch(&b).unwrap();
    assert_eq!(s.get("a").unwrap(), None);
    assert_eq!(s.get("b").unwrap(), Some("2".to_string()));
}

#[test]
fn batch_last_staged_wins() {
    let mut s = open_fresh("last_staged");
    let mut b = WriteBatch::new();
    b.insert("k", "1");
    b.insert("k", "2");
    s.apply_batch(&b).unwrap();
    assert_eq!(s.get("k").unwrap(), Some("2".to_string()));
}

#[test]
fn batch_remove_deletes_existing_key() {
    let mut s = open_fresh("batch_remove");
    s.insert("gone", "1").unwrap();
    s.insert("kept", "2").unwrap();
    let mut b = WriteBatch::new();
    b.remove("gone");
    s.apply_batch(&b).unwrap();
    assert_eq!(s.get("gone").unwrap(), None);
    assert_eq!(s.get("kept").unwrap(), Some("2".to_string()));
}

#[test]
fn batch_is_reusable_across_stores() {
    let mut s1 = open_fresh("reuse_one");
    let mut s2 = open_fresh("reuse_two");
    let mut b = WriteBatch::new();
    b.insert("x", "y");
    s1.apply_batch(&b).unwrap();
    s2.apply_batch(&b).unwrap();
    assert_eq!(s1.get("x").unwrap(), Some("y".to_string()));
    assert_eq!(s2.get("x").unwrap(), Some("y".to_string()));
}

#[test]
fn empty_batch_changes_nothing() {
    let mut s = open_fresh("empty_batch");
    s.insert("k", "v").unwrap();
    s.apply_batch(&WriteBatch::new()).unwrap();
    assert_eq!(s.get("k").unwrap(), Some("v".to_string()));
}

#[test]
fn pagination_three_pages() {
    let mut s = open_fresh("pagination");
    s.insert("a", "1").unwrap();
    s.insert("b", "2").unwrap();
    s.insert("c", "3").unwrap();
    let first = s.range("a", "z", 2).unwrap().unwrap();
    assert_eq!(first.last_key, "b");
    assert_eq!(entries(&first), vec![("a", "1"), ("b", "2")]);
    let next_min = format!("{}\u{0}", first.last_key);
    let second = s.range(&next_min, "z", 2).unwrap().unwrap();
    assert_eq!(second.last_key, "c");
    assert_eq!(entries(&second), vec![("c", "3")]);
    let next_min = format!("{}\u{0}", second.last_key);
    assert!(s.range(&next_min, "z", 2).unwrap().is_none());
}

#[test]
fn range_limit_zero_is_done() {
    let mut s = open_fresh("limit_zero");
    s.insert("a", "1").unwrap();
    assert!(s.range("a", "z", 0).unwrap().is_none());
}

#[test]
fn range_is_half_open() {
    let mut s = open_fresh("half_open");
    s.insert("a", "1").unwrap();
    s.insert("b", "2").unwrap();
    s.insert("c", "3").unwrap();
    let page = s.range("b", "c", 10).unwrap().unwrap();
    assert_eq!(entries(&page), vec![("b", "2")]);
    assert!(s.range("c", "b", 10).unwrap().is_none());
    assert!(s.range("b", "b", 10).unwrap().is_none());
}

#[test]
fn range_over_empty_store_is_done() {
    let s = open_fresh("empty_range");
    assert!(s.range("", "z", 5).unwrap().is_none());
}

#[test]
fn flushed_write_survives_reopen() {
    let path = fresh_path("durable");
    {
        let mut s = Store::open(&Config::new(&path)).unwrap();
        s.insert("k", "kept").unwrap();
        s.flush().unwrap();
    }
    let s = Store::open(&Config::new(&path)).unwrap();
    assert_eq!(s.get("k").unwrap(), Some("kept".to_string()));
}

#[test]
fn stored_bytes_that_are_not_text_are_a_decode_error() {
    let path = fresh_path("decode");
    {
        let db = sled::open(&path).unwrap();
        db.insert(b"bad", &[0xffu8, 0xfe][..]).unwrap();
        db.insert(b"good", &b"ok"[..]).unwrap();
        db.flush().unwrap();
    }
    let s = Store::open(&Config::new(&path)).unwrap();
    assert_eq!(s.get("bad").err(), Some(StoreError::Decode));
    assert_eq!(s.get("good").unwrap(), Some("ok".to_string()));
    assert_eq!(s.range("a", "z", 10).err(), Some(StoreError::Decode));
    let page = s.range("c", "z", 10).unwrap().unwrap();
    assert_eq!(entries(&page), vec![("good", "ok")]);
}

#[test]
fn page_of_no_entries_is_done() {
    assert!(page_of(Vec::new()).is_none());
}

#[test]
fn page_of_entries_names_last_key() {
    let page = page_of(vec![
        ("a".to_string(), "1".to_string()),
        ("b".to_string(), "2".to_string()),
    ])
    .unwrap();
    assert_eq!(page.last_key, "b");
    assert_eq!(entries(&page), vec![("a", "1"), ("b", "2")]);
}

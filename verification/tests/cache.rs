use stu_core::cache::{temp_path_for, SnapshotFile, SnapshotWrite, SyncLruCache};
use stu_core::snapshot::{decode, CacheError};

fn empty(size: usize) -> SyncLruCache {
    SyncLruCache::new(size, "cache.json".to_string(), SnapshotFile::Missing).unwrap()
}

fn from_text(size: usize, text: &str) -> SyncLruCache {
    SyncLruCache::new(size, "cache.json".to_string(), SnapshotFile::Contents(text)).unwrap()
}

fn put(cache: &mut SyncLruCache, key: &str, value: &str) -> Option<String> {
    cache.put(key.to_string(), value.to_string()).previous
}

fn snapshot(cache: &SyncLruCache) -> Vec<(String, String)> {
    let write = cache.sync_to_file().unwrap();
    decode(&write.contents).unwrap().into_iter().map(|e| (e.key, e.value)).collect()
}

fn pair(key: &str, value: &str) -> (String, String) {
    (key.to_string(), value.to_string())
}

#[test]
fn concrete_scenario_with_capacity_two() {
    let mut cache = empty(2);

    assert_eq!(put(&mut cache, "apple", "3"), None);
    assert_eq!(put(&mut cache, "banana", "2"), None);

    assert_eq!(cache.get("apple"), Some("3".to_string()));
    assert_eq!(cache.get("banana"), Some("2".to_string()));
    assert_eq!(cache.get("pear"), None);

    assert_eq!(put(&mut cache, "banana", "4"), Some("2".to_string()));
    assert_eq!(put(&mut cache, "pear", "5"), None);

    assert_eq!(cache.get("pear"), Some("5".to_string()));
    assert_eq!(cache.get("banana"), Some("4".to_string()));
    assert_eq!(cache.get("apple"), None);

    {
        let v = cache.get_mut("banana").unwrap();
        *v = "6".to_string();
    }

    assert_eq!(cache.get("banana"), Some("6".to_string()));
}

#[test]
fn new_cache_without_a_file_is_empty() {
    let mut cache = empty(3);
    assert_eq!(cache.file_path(), "cache.json");
    assert_eq!(cache.get("apple"), None);
    assert_eq!(snapshot(&cache), vec![]);
    assert_eq!(cache.sync_to_file().unwrap().contents, "[]");
}

#[test]
fn new_cache_fails_on_a_malformed_snapshot() {
    for text in ["[{\"key\":\"a\"", "", "[{\"key\":\"a\"}]"] {
        let made = SyncLruCache::new(2, "cache.json".to_string(), SnapshotFile::Contents(text));
        assert_eq!(made.err(), Some(CacheError::Decode));
    }
}

#[test]
fn new_cache_fails_on_a_file_that_cannot_be_read() {
    let made = SyncLruCache::new(2, "cache.json".to_string(), SnapshotFile::Unreadable);
    assert_eq!(made.err(), Some(CacheError::Unreadable));
}

#[test]
fn round_trip_keeps_every_entry_and_adds_none() {
    let mut cache = empty(3);
    put(&mut cache, "apple", "3");
    put(&mut cache, "banana", "2");
    let write = put_and_take_write(&mut cache, "pear", "5");

    let found = SnapshotFile::Contents(&write.contents);
    let mut again = SyncLruCache::new(3, "cache.json".to_string(), found).unwrap();
    assert_eq!(again.get("apple"), Some("3".to_string()));
    assert_eq!(again.get("banana"), Some("2".to_string()));
    assert_eq!(again.get("pear"), Some("5".to_string()));
    assert_eq!(again.get("plum"), None);
    assert_eq!(snapshot(&again).len(), 3);
}

fn put_and_take_write(cache: &mut SyncLruCache, key: &str, value: &str) -> SnapshotWrite {
    cache.put(key.to_string(), value.to_string()).write.unwrap()
}

#[test]
fn capacity_is_never_exceeded() {
    let mut cache = empty(3);
    for i in 0..10 {
        put(&mut cache, &format!("key{}", i), "v");
        assert!(snapshot(&cache).len() <= 3);
    }
    assert_eq!(snapshot(&cache), vec![pair("key9", "v"), pair("key8", "v"), pair("key7", "v")]);
}

#[test]
fn one_more_key_than_fit_evicts_exactly_one() {
    let mut cache = empty(3);
    put(&mut cache, "a", "1");
    put(&mut cache, "b", "2");
    put(&mut cache, "c", "3");
    assert_eq!(snapshot(&cache).len(), 3);
    put(&mut cache, "d", "4");
    assert_eq!(snapshot(&cache), vec![pair("d", "4"), pair("c", "3"), pair("b", "2")]);
    assert_eq!(cache.get("a"), None);
}

#[test]
fn capacity_of_one_keeps_the_last_key() {
    let mut cache = empty(1);
    assert_eq!(put(&mut cache, "a", "1"), None);
    assert_eq!(put(&mut cache, "a", "2"), Some("1".to_string()));
    assert_eq!(put(&mut cache, "b", "3"), None);
    assert_eq!(cache.get("a"), None);
    assert_eq!(cache.get("b"), Some("3".to_string()));
}

#[test]
fn a_read_counts_as_a_touch() {
    let mut cache = empty(2);
    put(&mut cache, "a", "1");
    put(&mut cache, "b", "2");
    assert_eq!(cache.get("a"), Some("1".to_string()));
    put(&mut cache, "c", "3");
    assert_eq!(cache.get("b"), None);
    assert_eq!(cache.get("a"), Some("1".to_string()));
    assert_eq!(cache.get("c"), Some("3".to_string()));
}

#[test]
fn a_write_counts_as_a_touch() {
    let mut cache = empty(2);
    put(&mut cache, "a", "1");
    put(&mut cache, "b", "2");
    put(&mut cache, "a", "9");
    put(&mut cache, "c", "3");
    assert_eq!(cache.get("b"), None);
    assert_eq!(cache.get("a"), Some("9".to_string()));
}

#[test]
fn a_lookup_for_writing_counts_as_a_touch() {
    let mut cache = empty(2);
    put(&mut cache, "a", "1");
    put(&mut cache, "b", "2");
    assert!(cache.get_mut("a").is_some());
    assert!(cache.get_mut("zzz").is_none());
    put(&mut cache, "c", "3");
    assert_eq!(cache.get("b"), None);
    assert_eq!(cache.get("a"), Some("1".to_string()));
}

#[test]
fn a_missed_lookup_changes_nothing() {
    let mut cache = empty(2);
    put(&mut cache, "a", "1");
    put(&mut cache, "b", "2");
    assert_eq!(cache.get("c"), None);
    assert_eq!(snapshot(&cache), vec![pair("b", "2"), pair("a", "1")]);
}

#[test]
fn the_snapshot_after_a_put_is_the_cache() {
    let mut cache = empty(2);
    let first = put_and_take_write(&mut cache, "apple", "3");
    assert_eq!(first.contents, "[{\"key\":\"apple\",\"value\":\"3\"}]");
    let second = put_and_take_write(&mut cache, "banana", "2");
    assert_eq!(
        second.contents,
        "[{\"key\":\"banana\",\"value\":\"2\"},{\"key\":\"apple\",\"value\":\"3\"}]"
    );
    let third = put_and_take_write(&mut cache, "pear", "5");
    let on_file: Vec<(String, String)> =
        decode(&third.contents).unwrap().into_iter().map(|e| (e.key, e.value)).collect();
    assert_eq!(on_file, vec![pair("pear", "5"), pair("banana", "2")]);
    assert_eq!(on_file, snapshot(&cache));
}

#[test]
fn a_snapshot_names_its_file_and_the_temporary_file() {
    let mut cache =
        SyncLruCache::new(2, "dir/cache.json".to_string(), SnapshotFile::Missing).unwrap();
    let write = put_and_take_write(&mut cache, "a", "1");
    assert_eq!(write.file_path, "dir/cache.json");
    assert_eq!(write.temp_path, "dir/cache.json.tmp");
    assert_eq!(temp_path_for("x"), "x.tmp");
    assert_eq!(temp_path_for(""), ".tmp");
}

#[test]
fn lookups_leave_the_file_behind_until_the_next_snapshot() {
    let mut cache = empty(2);
    put(&mut cache, "a", "1");
    let before = put_and_take_write(&mut cache, "b", "2");
    *cache.get_mut("a").unwrap() = "changed".to_string();
    assert_eq!(
        before.contents,
        "[{\"key\":\"b\",\"value\":\"2\"},{\"key\":\"a\",\"value\":\"1\"}]"
    );
    assert_eq!(snapshot(&cache), vec![pair("a", "changed"), pair("b", "2")]);
}

#[test]
fn entries_come_most_recent_first() {
    let mut cache = empty(3);
    put(&mut cache, "a", "1");
    put(&mut cache, "b", "2");
    put(&mut cache, "c", "3");
    cache.get("a");
    let entries: Vec<(String, String)> =
        cache.entries_vec().into_iter().map(|e| (e.key, e.value)).collect();
    assert_eq!(entries, vec![pair("a", "1"), pair("c", "3"), pair("b", "2")]);
}

#[test]
fn no_snapshot_holds_a_key_twice() {
    let mut cache = empty(3);
    for key in ["a", "b", "a", "c", "b", "a", "d", "a"] {
        put(&mut cache, key, "v");
        let entries = snapshot(&cache);
        for i in 0..entries.len() {
            for j in (i + 1)..entries.len() {
                assert_ne!(entries[i].0, entries[j].0);
            }
        }
    }
}

#[test]
fn a_snapshot_with_more_entries_than_fit_keeps_the_last() {
    let text = "[{\"key\":\"a\",\"value\":\"1\"},{\"key\":\"b\",\"value\":\"2\"},\
                {\"key\":\"c\",\"value\":\"3\"}]";
    let mut cache = from_text(2, text);
    assert_eq!(snapshot(&cache), vec![pair("c", "3"), pair("b", "2")]);
    assert_eq!(cache.get("a"), None);
}

#[test]
fn a_snapshot_with_a_key_twice_keeps_the_later_value() {
    let text = "[{\"key\":\"a\",\"value\":\"1\"},{\"key\":\"b\",\"value\":\"2\"},\
                {\"key\":\"a\",\"value\":\"3\"}]";
    let mut cache = from_text(5, text);
    assert_eq!(snapshot(&cache), vec![pair("a", "3"), pair("b", "2")]);
    assert_eq!(cache.get("a"), Some("3".to_string()));
}

#[test]
fn a_reloaded_cache_has_the_last_entry_of_the_file_as_the_most_recent() {
    let text = "[{\"key\":\"a\",\"value\":\"1\"},{\"key\":\"b\",\"value\":\"2\"}]";
    let mut cache = from_text(2, text);
    put(&mut cache, "c", "3");
    assert_eq!(cache.get("a"), None);
    assert_eq!(cache.get("b"), Some("2".to_string()));
}

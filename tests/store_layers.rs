use gears::cache::{CacheLayer, Lookup};
use gears::multi::{MultiStore, StoreKey};
use gears::sorted_map::{KeyBound, KeyRange, SortedMap};
use gears::store::{KVStoreMut, StoreLevel};

fn all() -> KeyRange {
    KeyRange::with_prefix(Vec::new())
}

fn keys(entries: &[(Vec<u8>, Vec<u8>)]) -> Vec<Vec<u8>> {
    entries.iter().map(|(k, _)| k.clone()).collect()
}

#[test]
fn set_then_get_ignores_parent() {
    let mut s = KVStoreMut::new();
    s.set(b"k".to_vec(), b"parent".to_vec());
    s.tx_cache_commit();
    s.block_cache_commit();
    s.set(b"k".to_vec(), b"v".to_vec());
    assert_eq!(s.get(b"k"), Some(b"v".to_vec()));
    assert_eq!(s.get_at(StoreLevel::Committed, b"k"), Some(b"parent".to_vec()));
}

#[test]
fn delete_hides_parent_value() {
    let mut s = KVStoreMut::new();
    s.set(b"k".to_vec(), b"parent".to_vec());
    s.tx_cache_commit();
    assert_eq!(s.delete(b"k"), Some(b"parent".to_vec()));
    assert_eq!(s.get(b"k"), None);
    assert_eq!(s.get_at(StoreLevel::Block, b"k"), Some(b"parent".to_vec()));
}

#[test]
fn discard_restores_parent_view() {
    let mut s = KVStoreMut::new();
    s.set(b"a".to_vec(), b"1".to_vec());
    s.set(b"b".to_vec(), b"2".to_vec());
    s.tx_cache_commit();
    let before = s.range(&all());
    s.set(b"a".to_vec(), b"9".to_vec());
    s.delete(b"b");
    s.set(b"c".to_vec(), b"3".to_vec());
    s.tx_cache_clear();
    assert_eq!(s.range(&all()), before);
    assert_eq!(s.get(b"c"), None);
}

#[test]
fn range_is_sorted_regardless_of_insertion_order() {
    let mut s = KVStoreMut::new();
    s.set(b"p/c".to_vec(), b"3".to_vec());
    s.set(b"p/a".to_vec(), b"1".to_vec());
    s.set(b"q".to_vec(), b"x".to_vec());
    s.tx_cache_commit();
    s.block_cache_commit();
    s.set(b"p/b".to_vec(), b"2".to_vec());
    s.set(b"p/\x00".to_vec(), b"0".to_vec());
    let durable = s.range_at(StoreLevel::Committed, &KeyRange::with_prefix(b"p/".to_vec()));
    assert_eq!(keys(&durable), vec![b"p/a".to_vec(), b"p/c".to_vec()]);
    let merged = s.range(&KeyRange::with_prefix(b"p/".to_vec()));
    assert_eq!(
        keys(&merged),
        vec![b"p/\x00".to_vec(), b"p/a".to_vec(), b"p/b".to_vec(), b"p/c".to_vec()]
    );
}

#[test]
fn range_bounds_are_respected() {
    let mut m = SortedMap::new();
    for k in [b"d", b"a", b"c", b"b", b"e"] {
        m.set(k.to_vec(), k.to_vec());
    }
    let r = KeyRange {
        prefix: Vec::new(),
        start: KeyBound::Included(b"b".to_vec()),
        end: KeyBound::Excluded(b"e".to_vec()),
    };
    let sel = m.select(&r);
    assert_eq!(keys(&sel.entries), vec![b"b".to_vec(), b"c".to_vec(), b"d".to_vec()]);
}

#[test]
fn cache_layer_lookup_states() {
    let mut c = CacheLayer::new();
    assert!(c.is_empty());
    c.set(b"x".to_vec(), b"1".to_vec());
    c.delete(b"y");
    assert!(matches!(c.lookup(b"x"), Lookup::Written(v) if v == b"1".to_vec()));
    assert!(matches!(c.lookup(b"y"), Lookup::Deleted));
    assert!(matches!(c.lookup(b"z"), Lookup::Absent));
    c.clear();
    assert!(c.is_empty());
}

#[test]
fn multi_store_commit_reaches_durable_view() {
    let mut ms = MultiStore::new(2);
    let bank = StoreKey { index: 0 };
    let auth = StoreKey { index: 1 };
    ms.set(bank, b"k".to_vec(), b"v".to_vec());
    ms.set(auth, b"k".to_vec(), b"w".to_vec());
    ms.tx_caches_commit();
    assert_eq!(ms.committed_store(bank).get(b"k"), None);
    ms.commit();
    assert_eq!(ms.committed_store(bank).get(b"k"), Some(b"v".to_vec()));
    assert_eq!(ms.committed_store(auth).get(b"k"), Some(b"w".to_vec()));
}

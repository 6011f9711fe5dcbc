use p2p_core::data::{PeerIdentity, Record, RecordKey};
use p2p_core::store::RecordStore;

fn key(bytes: &[u8]) -> RecordKey {
    RecordKey { bytes: bytes.to_vec() }
}

fn peer(bytes: &[u8]) -> PeerIdentity {
    PeerIdentity { bytes: bytes.to_vec() }
}

#[test]
fn put_then_get_round_trip() {
    let mut store = RecordStore::new();
    store.put(Record { key: key(b"k"), value: b"v".to_vec() });
    assert_eq!(store.get(&key(b"k")), Some(b"v".to_vec()));
}

#[test]
fn get_on_empty_store_is_none() {
    let store = RecordStore::new();
    assert_eq!(store.get(&key(b"missing")), None);
}

#[test]
fn put_replaces_value_last_write_wins() {
    let mut store = RecordStore::new();
    store.put(Record { key: key(b"k"), value: b"first".to_vec() });
    store.put(Record { key: key(b"k"), value: b"second".to_vec() });
    assert_eq!(store.get(&key(b"k")), Some(b"second".to_vec()));
}

#[test]
fn put_does_not_disturb_other_keys() {
    let mut store = RecordStore::new();
    store.put(Record { key: key(b"a"), value: b"1".to_vec() });
    store.put(Record { key: key(b"b"), value: b"2".to_vec() });
    assert_eq!(store.get(&key(b"a")), Some(b"1".to_vec()));
    assert_eq!(store.get(&key(b"b")), Some(b"2".to_vec()));
}

#[test]
fn key_equality_is_byte_exact() {
    let mut store = RecordStore::new();
    store.put(Record { key: key(b"k"), value: b"v".to_vec() });
    assert_eq!(store.get(&key(b"K")), None);
    assert_eq!(store.get(&key(b"k\0")), None);
}

#[test]
fn provider_added_twice_is_listed_once() {
    let mut store = RecordStore::new();
    store.add_provider(key(b"k"), peer(b"p1"));
    store.add_provider(key(b"k"), peer(b"p1"));
    let providers = store.providers_for(&key(b"k"));
    assert_eq!(providers.len(), 1);
    assert_eq!(providers[0], peer(b"p1"));
}

#[test]
fn providers_are_scoped_to_their_key() {
    let mut store = RecordStore::new();
    store.add_provider(key(b"a"), peer(b"p1"));
    store.add_provider(key(b"b"), peer(b"p2"));
    let providers_a = store.providers_for(&key(b"a"));
    assert_eq!(providers_a, vec![peer(b"p1")]);
    let providers_b = store.providers_for(&key(b"b"));
    assert_eq!(providers_b, vec![peer(b"p2")]);
}

#[test]
fn providers_for_unknown_key_is_empty() {
    let store = RecordStore::new();
    assert!(store.providers_for(&key(b"nothing")).is_empty());
}

#[test]
fn two_providers_for_one_key() {
    let mut store = RecordStore::new();
    store.add_provider(key(b"k"), peer(b"p1"));
    store.add_provider(key(b"k"), peer(b"p2"));
    let providers = store.providers_for(&key(b"k"));
    assert_eq!(providers.len(), 2);
    assert!(providers.contains(&peer(b"p1")));
    assert!(providers.contains(&peer(b"p2")));
}

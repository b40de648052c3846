use device_status::cache::DeviceCache;
use device_status::device::{Device, DeviceStatusCode};

fn dev(id: &[u8], updated_at_ms: i64) -> Device {
    Device {
        id: id.to_vec(),
        name: b"sensor".to_vec(),
        lat_bits: 0,
        lng_bits: 0,
        error_bits: 0,
        status_code: DeviceStatusCode::NoFire,
        disabled: false,
        created_at_ms: 1,
        updated_at_ms,
    }
}

#[test]
fn new_cache_is_empty() {
    let cache = DeviceCache::new();
    assert!(cache.snapshot().is_empty());
    assert!(cache.get(&b"d1".to_vec()).is_none());
}

#[test]
fn upsert_inserts_and_overwrites() {
    let mut cache = DeviceCache::new();
    cache.upsert_one(dev(b"d1", 10));
    cache.upsert_one(dev(b"d2", 20));
    assert_eq!(cache.get(&b"d1".to_vec()).unwrap().updated_at_ms, 10);
    assert_eq!(cache.get(&b"d2".to_vec()).unwrap().updated_at_ms, 20);
    assert_eq!(cache.snapshot().len(), 2);
    cache.upsert_one(dev(b"d1", 30));
    assert_eq!(cache.get(&b"d1".to_vec()).unwrap().updated_at_ms, 30);
    assert_eq!(cache.snapshot().len(), 2);
}

#[test]
fn replace_all_swaps_whole_contents() {
    let mut cache = DeviceCache::new();
    cache.upsert_one(dev(b"old1", 1));
    cache.upsert_one(dev(b"old2", 2));
    cache.replace_all(vec![dev(b"new1", 3), dev(b"new2", 4), dev(b"new3", 5)]);
    let snapshot = cache.snapshot();
    assert_eq!(snapshot.len(), 3);
    assert!(cache.get(&b"old1".to_vec()).is_none());
    assert!(cache.get(&b"old2".to_vec()).is_none());
    assert!(cache.get(&b"new1".to_vec()).is_some());
    assert!(cache.get(&b"new2".to_vec()).is_some());
    assert!(cache.get(&b"new3".to_vec()).is_some());
}

#[test]
fn replace_all_with_empty_set_empties_cache() {
    let mut cache = DeviceCache::new();
    cache.upsert_one(dev(b"d1", 1));
    cache.replace_all(Vec::new());
    assert!(cache.snapshot().is_empty());
    assert!(cache.get(&b"d1".to_vec()).is_none());
}

#[test]
fn replace_all_with_equal_keys_keeps_the_later() {
    let mut cache = DeviceCache::new();
    cache.replace_all(vec![dev(b"d1", 1), dev(b"d1", 2)]);
    let snapshot = cache.snapshot();
    assert_eq!(snapshot.len(), 1);
    assert_eq!(cache.get(&b"d1".to_vec()).unwrap().updated_at_ms, 2);
}

#[test]
fn snapshot_is_a_copy() {
    let mut cache = DeviceCache::new();
    cache.upsert_one(dev(b"d1", 1));
    let snapshot = cache.snapshot();
    cache.upsert_one(dev(b"d1", 99));
    assert_eq!(snapshot[0].updated_at_ms, 1);
    assert_eq!(cache.get(&b"d1".to_vec()).unwrap().updated_at_ms, 99);
}

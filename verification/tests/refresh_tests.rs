use device_status::cache::DeviceCache;
use device_status::device::{Device, DeviceStatusCode};
use device_status::refresh::refresh_cache;

fn dev(id: &[u8]) -> Device {
    Device {
        id: id.to_vec(),
        name: Vec::new(),
        lat_bits: 0,
        lng_bits: 0,
        error_bits: 0,
        status_code: DeviceStatusCode::NoFire,
        disabled: false,
        created_at_ms: 1,
        updated_at_ms: 1,
    }
}

#[test]
fn successful_refresh_replaces_contents() {
    let mut cache = DeviceCache::new();
    cache.upsert_one(dev(b"stale"));
    let replaced = refresh_cache(&mut cache, 2, vec![dev(b"a"), dev(b"b")]);
    assert!(replaced);
    assert!(cache.get(&b"stale".to_vec()).is_none());
    assert_eq!(cache.snapshot().len(), 2);
}

#[test]
fn total_fetch_failure_keeps_previous_contents() {
    // An otherwise-populated store whose keys were all unreachable: the
    // enumeration saw keys but the fetch brought nothing back.
    let mut cache = DeviceCache::new();
    cache.upsert_one(dev(b"d1"));
    cache.upsert_one(dev(b"d2"));
    let replaced = refresh_cache(&mut cache, 2, Vec::new());
    assert!(!replaced);
    let snapshot = cache.snapshot();
    assert_eq!(snapshot.len(), 2);
    assert!(cache.get(&b"d1".to_vec()).is_some());
    assert!(cache.get(&b"d2".to_vec()).is_some());
}

#[test]
fn empty_enumeration_is_a_legitimate_empty_state() {
    // The store really holds no keys: the cache becomes empty, leaving no
    // stale entries behind.
    let mut cache = DeviceCache::new();
    cache.upsert_one(dev(b"stale"));
    let replaced = refresh_cache(&mut cache, 0, Vec::new());
    assert!(replaced);
    assert!(cache.snapshot().is_empty());
}

#[test]
fn partial_fetch_still_replaces() {
    // Three keys enumerated, one fetch succeeded: the one record wins over
    // the previous contents.
    let mut cache = DeviceCache::new();
    cache.upsert_one(dev(b"old"));
    let replaced = refresh_cache(&mut cache, 3, vec![dev(b"only")]);
    assert!(replaced);
    let snapshot = cache.snapshot();
    assert_eq!(snapshot.len(), 1);
    assert_eq!(snapshot[0].id, b"only".to_vec());
}

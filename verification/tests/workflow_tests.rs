use device_status::bulk::{collect_fetched, fan_out_batches};
use device_status::cache::DeviceCache;
use device_status::codec::encode_device;
use device_status::device::{Device, DeviceStatusCode};
use device_status::errors::AppError;
use device_status::refresh::refresh_cache;
use device_status::store::read_device;
use device_status::workflow::{
    build_device, get_cached_device, get_devices, reflect_urgent, stamp_device,
};

fn dev(id: &[u8], status_code: DeviceStatusCode) -> Device {
    Device {
        id: id.to_vec(),
        name: b"sensor".to_vec(),
        lat_bits: 1.5f32.to_bits(),
        lng_bits: 2.5f32.to_bits(),
        error_bits: 0.1f32.to_bits(),
        status_code,
        disabled: false,
        created_at_ms: 7,
        updated_at_ms: 7,
    }
}

#[test]
fn build_rejects_unknown_status_codes() {
    for bad in [-1, 2, 7, i32::MAX] {
        let r = build_device(b"d".to_vec(), Vec::new(), 0, 0, 0, bad, false, None, 1);
        assert_eq!(r.unwrap_err(), AppError::Validation);
    }
}

#[test]
fn build_stamps_both_timestamps_on_first_write() {
    let d = build_device(b"d".to_vec(), Vec::new(), 0, 0, 0, 0, false, None, 123).unwrap();
    assert_eq!(d.created_at_ms, 123);
    assert_eq!(d.updated_at_ms, 123);
    assert_eq!(d.status_code, DeviceStatusCode::NoFire);
}

#[test]
fn created_at_invariant_updated_at_fresh_across_upserts() {
    // First upsert of "d7" at time 100, second at time 200: the creation
    // stamp stays, the update stamp follows each write.
    let first = build_device(b"d7".to_vec(), Vec::new(), 0, 0, 0, 0, false, None, 100).unwrap();
    assert_eq!(first.created_at_ms, 100);
    assert_eq!(first.updated_at_ms, 100);
    let second = build_device(
        b"d7".to_vec(),
        Vec::new(),
        0,
        0,
        0,
        1,
        false,
        Some(first.created_at_ms),
        200,
    )
    .unwrap();
    assert_eq!(second.created_at_ms, 100);
    assert_eq!(second.updated_at_ms, 200);
}

#[test]
fn stamp_device_preserves_known_creation_stamp() {
    let d = stamp_device(b"d".to_vec(), Vec::new(), 0, 0, 0, 1, true, Some(41)).unwrap();
    assert_eq!(d.created_at_ms, 41);
    assert!(d.disabled);
    let first = stamp_device(b"d".to_vec(), Vec::new(), 0, 0, 0, 1, false, None).unwrap();
    assert_eq!(first.created_at_ms, first.updated_at_ms);
}

#[test]
fn fire_upsert_is_visible_before_any_refresh() {
    let mut cache = DeviceCache::new();
    let fire = dev(b"alarm", DeviceStatusCode::Fire);
    reflect_urgent(&mut cache, &fire);
    let devices = get_devices(Some(&cache)).unwrap();
    assert_eq!(devices.len(), 1);
    assert_eq!(devices[0], fire);
}

#[test]
fn non_fire_upsert_waits_for_the_next_refresh() {
    let mut cache = DeviceCache::new();
    let calm = dev(b"calm", DeviceStatusCode::NoFire);
    reflect_urgent(&mut cache, &calm);
    assert!(get_devices(Some(&cache)).unwrap().is_empty());
}

#[test]
fn warmup_populates_then_fire_upsert_joins_immediately() {
    // The store holds one key, "d1", with a no-fire record. The warm-up
    // enumeration fetches it and the cache must hold exactly d1.
    let d1 = dev(b"d1", DeviceStatusCode::NoFire);
    let raw = vec![Some(encode_device(&d1))];
    let (fetched, dropped) = collect_fetched(raw);
    assert_eq!(dropped, 0);
    let mut cache = DeviceCache::new();
    assert!(refresh_cache(&mut cache, 1, fetched));
    let after_warmup = get_devices(Some(&cache)).unwrap();
    assert_eq!(after_warmup.len(), 1);
    assert_eq!(after_warmup[0], d1);
    // A fire record for "d2" is put and reflected synchronously: both
    // devices are served without waiting for the interval tick.
    let d2 = build_device(
        b"d2".to_vec(),
        b"new".to_vec(),
        0,
        0,
        0,
        1,
        false,
        None,
        500,
    )
    .unwrap();
    reflect_urgent(&mut cache, &d2);
    let after_put = get_devices(Some(&cache)).unwrap();
    assert_eq!(after_put.len(), 2);
    assert!(get_cached_device(Some(&cache), &b"d1".to_vec()).is_ok());
    assert_eq!(get_cached_device(Some(&cache), &b"d2".to_vec()).unwrap(), d2);
}

#[test]
fn released_cache_is_a_handled_error() {
    assert_eq!(get_devices(None).unwrap_err(), AppError::CacheUnavailable);
    assert_eq!(
        get_cached_device(None, &b"d1".to_vec()).unwrap_err(),
        AppError::CacheUnavailable
    );
}

#[test]
fn cache_miss_is_not_found() {
    let cache = DeviceCache::new();
    assert_eq!(
        get_cached_device(Some(&cache), &b"absent".to_vec()).unwrap_err(),
        AppError::NotFound
    );
}

#[test]
fn collect_fetched_drops_failures_without_aborting() {
    let good1 = dev(b"g1", DeviceStatusCode::NoFire);
    let good2 = dev(b"g2", DeviceStatusCode::Fire);
    let raw = vec![
        Some(encode_device(&good1)),
        None,
        Some(b"malformed".to_vec()),
        Some(encode_device(&good2)),
    ];
    let (kept, dropped) = collect_fetched(raw);
    assert_eq!(kept.len(), 2);
    assert_eq!(dropped, 2);
    assert_eq!(kept[0], good1);
    assert_eq!(kept[1], good2);
}

#[test]
fn fan_out_batches_partition_and_respect_the_bound() {
    assert!(fan_out_batches(0, 8).is_empty());
    assert_eq!(fan_out_batches(5, 8), vec![(0, 5)]);
    assert_eq!(fan_out_batches(20, 8), vec![(0, 8), (8, 16), (16, 20)]);
    assert_eq!(fan_out_batches(16, 8), vec![(0, 8), (8, 16)]);
}

#[test]
fn read_device_passes_store_errors_through() {
    assert_eq!(
        read_device(Err(AppError::StoreUnavailable)).unwrap_err(),
        AppError::StoreUnavailable
    );
    assert_eq!(
        read_device(Err(AppError::NotFound)).unwrap_err(),
        AppError::NotFound
    );
    assert_eq!(
        read_device(Ok(b"junk".to_vec())).unwrap_err(),
        AppError::Deserialization
    );
    let d = dev(b"d1", DeviceStatusCode::Fire);
    assert_eq!(read_device(Ok(encode_device(&d))).unwrap(), d);
}

#[test]
fn error_classes_map_to_their_http_statuses() {
    assert_eq!(AppError::Validation.http_status(), 400);
    assert_eq!(AppError::NotFound.http_status(), 404);
    assert_eq!(AppError::StoreUnavailable.http_status(), 500);
    assert_eq!(AppError::Deserialization.http_status(), 500);
    assert_eq!(AppError::CacheUnavailable.http_status(), 500);
}

#[test]
fn status_codes_are_a_closed_set() {
    assert_eq!(
        DeviceStatusCode::from_i32(0).unwrap(),
        DeviceStatusCode::NoFire
    );
    assert_eq!(
        DeviceStatusCode::from_i32(1).unwrap(),
        DeviceStatusCode::Fire
    );
    assert_eq!(
        DeviceStatusCode::from_i32(2).unwrap_err(),
        AppError::Validation
    );
    assert_eq!(DeviceStatusCode::NoFire.to_i32(), 0);
    assert_eq!(DeviceStatusCode::Fire.to_i32(), 1);
}

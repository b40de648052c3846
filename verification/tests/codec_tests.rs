use device_status::codec::{decode_device, encode_device};
use device_status::device::{Device, DeviceStatusCode};
use device_status::errors::AppError;
use device_status::store::decode_stored;

fn sample(status_code: DeviceStatusCode) -> Device {
    Device {
        id: b"d1".to_vec(),
        name: b"roof sensor".to_vec(),
        lat_bits: 52.52f32.to_bits(),
        lng_bits: 13.405f32.to_bits(),
        error_bits: 0.25f32.to_bits(),
        status_code,
        disabled: false,
        created_at_ms: 1700000000000,
        updated_at_ms: 1700000000421,
    }
}

#[test]
fn round_trip_no_fire() {
    let d = sample(DeviceStatusCode::NoFire);
    let encoded = encode_device(&d);
    let back = decode_device(&encoded).expect("canonical encoding must decode");
    assert_eq!(back, d);
}

#[test]
fn round_trip_fire() {
    let d = sample(DeviceStatusCode::Fire);
    let encoded = encode_device(&d);
    let back = decode_device(&encoded).expect("canonical encoding must decode");
    assert_eq!(back, d);
}

#[test]
fn round_trip_preserves_float_values() {
    let d = sample(DeviceStatusCode::NoFire);
    let back = decode_device(&encode_device(&d)).unwrap();
    assert_eq!(f32::from_bits(back.lat_bits), 52.52f32);
    assert_eq!(f32::from_bits(back.lng_bits), 13.405f32);
    assert_eq!(f32::from_bits(back.error_bits), 0.25f32);
}

#[test]
fn round_trip_empty_strings_and_zeroes() {
    let d = Device {
        id: Vec::new(),
        name: Vec::new(),
        lat_bits: 0,
        lng_bits: 0,
        error_bits: 0,
        status_code: DeviceStatusCode::NoFire,
        disabled: false,
        created_at_ms: 0,
        updated_at_ms: 0,
    };
    let back = decode_device(&encode_device(&d)).unwrap();
    assert_eq!(back, d);
}

#[test]
fn round_trip_extreme_values() {
    let d = Device {
        id: b"\x00\xffbinary id\x3b\x3a".to_vec(),
        name: b";:;:".to_vec(),
        lat_bits: u32::MAX,
        lng_bits: 1,
        error_bits: f32::NAN.to_bits(),
        status_code: DeviceStatusCode::Fire,
        disabled: true,
        created_at_ms: i64::MIN,
        updated_at_ms: i64::MAX,
    };
    let back = decode_device(&encode_device(&d)).unwrap();
    assert_eq!(back, d);
}

#[test]
fn round_trip_negative_timestamp() {
    let mut d = sample(DeviceStatusCode::NoFire);
    d.created_at_ms = -1;
    d.updated_at_ms = -62135596800000;
    let back = decode_device(&encode_device(&d)).unwrap();
    assert_eq!(back, d);
}

#[test]
fn encoding_is_the_documented_record() {
    let d = Device {
        id: b"d1".to_vec(),
        name: b"n".to_vec(),
        lat_bits: 1,
        lng_bits: 2,
        error_bits: 3,
        status_code: DeviceStatusCode::Fire,
        disabled: false,
        created_at_ms: 5,
        updated_at_ms: 6,
    };
    assert_eq!(encode_device(&d), b"2:d1;1:n;1;2;3;1;0;5;6;".to_vec());
}

#[test]
fn decode_rejects_malformed_values() {
    assert!(decode_device(&b"".to_vec()).is_none());
    assert!(decode_device(&b"not a record".to_vec()).is_none());
    // A bad status code byte is a decode failure, not a coercion.
    assert!(decode_device(&b"2:d1;1:n;1;2;3;7;0;5;6;".to_vec()).is_none());
    // Truncated record.
    assert!(decode_device(&b"2:d1;1:n;1;2;3;1;0;5;".to_vec()).is_none());
    // Trailing bytes after a whole record.
    assert!(decode_device(&b"2:d1;1:n;1;2;3;1;0;5;6;x".to_vec()).is_none());
    // Wrong length prefix.
    assert!(decode_device(&b"3:d1;1:n;1;2;3;1;0;5;6;".to_vec()).is_none());
}

#[test]
fn decode_stored_classifies_malformed_as_deserialization() {
    let err = decode_stored(&b"garbage".to_vec()).unwrap_err();
    assert_eq!(err, AppError::Deserialization);
    let ok = decode_stored(&encode_device(&sample(DeviceStatusCode::Fire))).unwrap();
    assert_eq!(ok.id, b"d1".to_vec());
}

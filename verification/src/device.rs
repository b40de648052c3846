//! The device record and its mathematical model.

use vstd::prelude::*;
use crate::errors::AppError;

verus! {

/// Status reported by a field device. The wire codes form a closed set:
/// 0 means no fire, 1 means fire; every other code is a validation failure.
#[derive(Clone, Copy, Debug, PartialEq, Eq, Structural)]
pub enum DeviceStatusCode {
    NoFire,
    Fire,
}

impl DeviceStatusCode {
    /// The numeric wire code of this status.
    pub open spec fn spec_code(self) -> int {
        match self {
            DeviceStatusCode::NoFire => 0,
            DeviceStatusCode::Fire => 1,
        }
    }

    /// Decodes a wire code into a status. Exactly the codes 0 and 1 are
    /// accepted; anything else is a `Validation` error, never a coercion.
    pub fn from_i32(value: i32) -> (r: Result<DeviceStatusCode, AppError>)
        ensures
            value == 0 ==> r == Ok::<DeviceStatusCode, AppError>(DeviceStatusCode::NoFire),
            value == 1 ==> r == Ok::<DeviceStatusCode, AppError>(DeviceStatusCode::Fire),
            !(value == 0 || value == 1) ==> r == Err::<DeviceStatusCode, AppError>(AppError::Validation),
    {
        match value {
            0 => Ok(DeviceStatusCode::NoFire),
            1 => Ok(DeviceStatusCode::Fire),
            _ => Err(AppError::Validation),
        }
    }

    /// Encodes this status back into its wire code.
    pub fn to_i32(&self) -> (r: i32)
        ensures
            r as int == self.spec_code(),
    {
        match self {
            DeviceStatusCode::NoFire => 0,
            DeviceStatusCode::Fire => 1,
        }
    }
}

/// One device record, as persisted and cached.
///
/// Identifiers and names are byte strings. The three coordinate fields hold
/// IEEE-754 single-precision bit patterns: the library itself is float-free,
/// and the process boundary converts with `f32::to_bits` / `f32::from_bits`,
/// which preserves every value bit-exactly. Timestamps are milliseconds since
/// the Unix epoch.
#[derive(Debug, PartialEq, Eq)]
pub struct Device {
    /// Stable external identifier; store key and cache key.
    pub id: Vec<u8>,
    /// Human label.
    pub name: Vec<u8>,
    /// Latitude, as an IEEE-754 single-precision bit pattern.
    pub lat_bits: u32,
    /// Longitude, as an IEEE-754 single-precision bit pattern.
    pub lng_bits: u32,
    /// Sensor-reported error margin, as an IEEE-754 bit pattern.
    pub error_bits: u32,
    /// Fire / no-fire status.
    pub status_code: DeviceStatusCode,
    /// Administrative flag; carried through, never filtered on.
    pub disabled: bool,
    /// Set once at first persistence, preserved on every later write.
    pub created_at_ms: i64,
    /// Set on every persisted write.
    pub updated_at_ms: i64,
}

/// The mathematical model of a `Device`: byte strings become sequences,
/// everything else is carried as-is.
pub ghost struct DeviceModel {
    pub id: Seq<u8>,
    pub name: Seq<u8>,
    pub lat_bits: u32,
    pub lng_bits: u32,
    pub error_bits: u32,
    pub status_code: DeviceStatusCode,
    pub disabled: bool,
    pub created_at_ms: i64,
    pub updated_at_ms: i64,
}

impl View for Device {
    type V = DeviceModel;

    open spec fn view(&self) -> DeviceModel {
        DeviceModel {
            id: self.id@,
            name: self.name@,
            lat_bits: self.lat_bits,
            lng_bits: self.lng_bits,
            error_bits: self.error_bits,
            status_code: self.status_code,
            disabled: self.disabled,
            created_at_ms: self.created_at_ms,
            updated_at_ms: self.updated_at_ms,
        }
    }
}

/// Copies a byte string.
pub fn clone_bytes(v: &Vec<u8>) -> (r: Vec<u8>)
    ensures
        r@ == v@,
{
    let mut r: Vec<u8> = Vec::new();
    let mut i: usize = 0;
    while i < v.len()
        invariant
            i <= v.len(),
            r@ == v@.take(i as int),
        decreases v.len() - i,
    {
        r.push(v[i]);
        i = i + 1;
        proof {
            assert(v@.take(i as int) == v@.take(i - 1).push(v@[i - 1]));
        }
    }
    proof {
        assert(v@.take(v@.len() as int) == v@);
    }
    r
}

impl Clone for Device {
    /// The copy carries the same model.
    fn clone(&self) -> (r: Self)
        ensures
            r@ == self@,
    {
        Device {
            id: clone_bytes(&self.id),
            name: clone_bytes(&self.name),
            lat_bits: self.lat_bits,
            lng_bits: self.lng_bits,
            error_bits: self.error_bits,
            status_code: self.status_code,
            disabled: self.disabled,
            created_at_ms: self.created_at_ms,
            updated_at_ms: self.updated_at_ms,
        }
    }
}

} // verus!

//! The upsert workflow and the read operations served from the cache.
//!
//! An upsert validates the wire status code, stamps the timestamps —
//! preserving `created_at` for an identifier that is already known — and
//! builds the record to persist. Once the record is durably written, a fire
//! status is reflected into the cache at once, so readers see it without
//! waiting for the next refresh; other statuses reach the cache on the next
//! tick. Reads take the cache through a try-to-access handle: a released
//! cache is a handled `CacheUnavailable` error, never a crash.

use vstd::prelude::*;
use crate::cache::{devices_map, unique_ids, DeviceCache};
use crate::device::{Device, DeviceModel, DeviceStatusCode};
use crate::errors::AppError;

verus! {

/// The creation stamp that a persisted record carries: the already-known
/// stamp if the identifier was seen before, else the moment of this write.
pub open spec fn spec_created_at(existing_created_at: Option<i64>, now_ms: i64) -> i64 {
    match existing_created_at {
        Some(c) => c,
        None => now_ms,
    }
}

/// Builds the record that an upsert persists. Fails with `Validation`
/// exactly when the wire status code is outside the closed set; otherwise
/// the record carries the given fields, `updated_at_ms` is this write's
/// stamp, and `created_at_ms` follows `spec_created_at`.
pub fn build_device(
    id: Vec<u8>,
    name: Vec<u8>,
    lat_bits: u32,
    lng_bits: u32,
    error_bits: u32,
    status_value: i32,
    disabled: bool,
    existing_created_at: Option<i64>,
    now_ms: i64,
) -> (r: Result<Device, AppError>)
    ensures
        (status_value == 0 || status_value == 1) <==> r is Ok,
        !(status_value == 0 || status_value == 1) ==> r == Err::<Device, AppError>(
            AppError::Validation,
        ),
        r matches Ok(d) ==> {
            &&& d.id@ == id@
            &&& d.name@ == name@
            &&& d.lat_bits == lat_bits
            &&& d.lng_bits == lng_bits
            &&& d.error_bits == error_bits
            &&& d.status_code.spec_code() == status_value as int
            &&& d.disabled == disabled
            &&& d.created_at_ms == spec_created_at(existing_created_at, now_ms)
            &&& d.updated_at_ms == now_ms
        },
{
    let status_code = match DeviceStatusCode::from_i32(status_value) {
        Ok(s) => s,
        Err(e) => {
            return Err(e);
        },
    };
    let created_at_ms = match existing_created_at {
        Some(c) => c,
        None => now_ms,
    };
    Ok(
        Device {
            id,
            name,
            lat_bits,
            lng_bits,
            error_bits,
            status_code,
            disabled,
            created_at_ms,
            updated_at_ms: now_ms,
        },
    )
}

/// Builds the record to persist, stamped with the wall clock. The stamp's
/// value depends on the moment of the call, so the contract states what
/// holds whatever the clock read: the fields are carried over, a known
/// identifier keeps its creation stamp, and a first write's creation stamp
/// equals its update stamp.
pub fn stamp_device(
    id: Vec<u8>,
    name: Vec<u8>,
    lat_bits: u32,
    lng_bits: u32,
    error_bits: u32,
    status_value: i32,
    disabled: bool,
    existing_created_at: Option<i64>,
) -> (r: Result<Device, AppError>)
    ensures
        (status_value == 0 || status_value == 1) <==> r is Ok,
        !(status_value == 0 || status_value == 1) ==> r == Err::<Device, AppError>(
            AppError::Validation,
        ),
        r matches Ok(d) ==> {
            &&& d.id@ == id@
            &&& d.name@ == name@
            &&& d.lat_bits == lat_bits
            &&& d.lng_bits == lng_bits
            &&& d.error_bits == error_bits
            &&& d.status_code.spec_code() == status_value as int
            &&& d.disabled == disabled
            &&& d.created_at_ms == spec_created_at(existing_created_at, d.updated_at_ms)
        },
{
    let now_ms = crate::clock::now_timestamp_ms();
    build_device(
        id,
        name,
        lat_bits,
        lng_bits,
        error_bits,
        status_value,
        disabled,
        existing_created_at,
        now_ms,
    )
}

/// Reflects a durably persisted record into the cache if its status is
/// urgent: a fire record becomes visible to readers at once, anything else
/// leaves the cache untouched until the next refresh. Call only after the
/// store write succeeded, so readers never see an uncommitted state.
pub fn reflect_urgent(cache: &mut DeviceCache, d: &Device)
    ensures
        d.status_code is Fire ==> final(cache)@ == old(cache)@.insert(d.id@, d@),
        !(d.status_code is Fire) ==> final(cache)@ == old(cache)@,
{
    match d.status_code {
        DeviceStatusCode::Fire => {
            let copy = d.clone();
            cache.upsert_one(copy);
        },
        DeviceStatusCode::NoFire => {},
    }
}

/// Serves a full snapshot of the cache, through the try-to-access handle:
/// a released cache is a `CacheUnavailable` error.
pub fn get_devices(cache: Option<&DeviceCache>) -> (r: Result<Vec<Device>, AppError>)
    ensures
        cache is None <==> r == Err::<Vec<Device>, AppError>(AppError::CacheUnavailable),
        cache matches Some(c) ==> r matches Ok(devs) && devices_map(devs@) == c@ && unique_ids(
            devs@,
        ),
{
    match cache {
        None => Err(AppError::CacheUnavailable),
        Some(c) => Ok(c.snapshot()),
    }
}

/// Serves one record from the cache by identifier, through the
/// try-to-access handle. `NotFound` exactly when the cache is reachable
/// and holds no record under the identifier.
pub fn get_cached_device(cache: Option<&DeviceCache>, id: &Vec<u8>) -> (r: Result<
    Device,
    AppError,
>)
    ensures
        cache is None <==> r == Err::<Device, AppError>(AppError::CacheUnavailable),
        cache matches Some(c) ==> match r {
            Ok(d) => c@.dom().contains(id@) && d@ == c@[id@],
            Err(e) => e == AppError::NotFound && !c@.dom().contains(id@),
        },
{
    match cache {
        None => Err(AppError::CacheUnavailable),
        Some(c) => match c.get(id) {
            Some(d) => Ok(d.clone()),
            None => Err(AppError::NotFound),
        },
    }
}

/// Law: `created_at` is invariant across repeated upserts of one
/// identifier, while `updated_at` is each upsert's own stamp. The first
/// write stamps creation with its own time; every later write, handed the
/// stamp the record already carries, preserves it.
pub proof fn lemma_created_at_across_upserts(c: i64, t_first: i64, t_later: i64)
    ensures
        spec_created_at(None, t_first) == t_first,
        spec_created_at(Some(c), t_later) == c,
{
}

/// Law: a device upserted with fire status is visible in any snapshot
/// taken after the upsert returned and before any further write: the
/// mapping the snapshot denotes holds the record under its identifier.
pub proof fn lemma_fire_immediately_visible(
    m: Map<Seq<u8>, DeviceModel>,
    d: Device,
    devs: Seq<Device>,
)
    requires
        d.status_code is Fire,
        devices_map(devs) == m.insert(d.id@, d@),
    ensures
        devices_map(devs).dom().contains(d.id@),
        devices_map(devs)[d.id@] == d@,
{
}

} // verus!

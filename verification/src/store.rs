//! Interpreting what the durable store hands back.
//!
//! The store itself is an external key-value backend reached over the
//! network; the process around this library moves the bytes. What the bytes
//! mean — and which error class a failed point lookup falls into — is decided
//! here, in verified code.

use vstd::prelude::*;
use crate::codec::{decode_device, spec_decode_device};
use crate::device::Device;
use crate::errors::AppError;

verus! {

/// Decodes a value read from the store. A value that is present but does
/// not hold exactly one device record is a `Deserialization` error.
pub fn decode_stored(bytes: &Vec<u8>) -> (r: Result<Device, AppError>)
    ensures
        match spec_decode_device(bytes@) {
            Some(m) => r matches Ok(d) && d@ == m,
            None => r == Err::<Device, AppError>(AppError::Deserialization),
        },
{
    match decode_device(bytes) {
        Some(d) => Ok(d),
        None => Err(AppError::Deserialization),
    }
}

/// Interprets the outcome of a point lookup: a transport or missing-key
/// failure is passed through as classified, a present value is decoded.
pub fn read_device(fetched: Result<Vec<u8>, AppError>) -> (r: Result<Device, AppError>)
    ensures
        match fetched {
            Err(e) => r == Err::<Device, AppError>(e),
            Ok(bytes) => match spec_decode_device(bytes@) {
                Some(m) => r matches Ok(d) && d@ == m,
                None => r == Err::<Device, AppError>(AppError::Deserialization),
            },
        },
{
    match fetched {
        Err(e) => Err(e),
        Ok(bytes) => decode_stored(&bytes),
    }
}

} // verus!

//! The error taxonomy of the subsystem.

use vstd::prelude::*;

verus! {

/// Every recoverable failure of the subsystem falls into one of these
/// classes; nothing in the library panics on a recoverable condition.
#[derive(Clone, Copy, Debug, PartialEq, Eq, Structural)]
pub enum AppError {
    /// Malformed input, such as an unknown status code. A user fault;
    /// never retried.
    Validation,
    /// The durable store could not be reached: connection, timeout or
    /// protocol fault. Retried by the scheduler on its next tick.
    StoreUnavailable,
    /// The key was absent on a point lookup. Not an error for a bulk
    /// enumeration, just an omission.
    NotFound,
    /// A stored value was present but did not decode to a device. Dropped
    /// in bulk fetches, surfaced on a point lookup.
    Deserialization,
    /// The owning process has released the cache. A degraded-mode signal:
    /// the caller fails the read rather than crash.
    CacheUnavailable,
}

impl AppError {
    /// The HTTP status that the surrounding layer reports for this error.
    pub fn http_status(&self) -> (r: u16)
        ensures
            *self is Validation ==> r == 400,
            *self is NotFound ==> r == 404,
            *self is StoreUnavailable ==> r == 500,
            *self is Deserialization ==> r == 500,
            *self is CacheUnavailable ==> r == 500,
    {
        match self {
            AppError::Validation => 400,
            AppError::NotFound => 404,
            AppError::StoreUnavailable => 500,
            AppError::Deserialization => 500,
            AppError::CacheUnavailable => 500,
        }
    }
}

/// The store driver's error value, opaque to the library; only the
/// classification predicates below are relied on.
#[verifier::external_type_specification]
#[verifier::external_body]
pub struct ExRedisError(deadpool_redis::redis::RedisError);

/// Whether the error was caused by an I/O timeout.
pub uninterp spec fn redis_err_is_timeout(e: deadpool_redis::redis::RedisError) -> bool;

/// Whether the error is a cluster redirection or cluster-down condition.
pub uninterp spec fn redis_err_is_cluster(e: deadpool_redis::redis::RedisError) -> bool;

/// Whether the error was caused by a dropped connection.
pub uninterp spec fn redis_err_is_dropped(e: deadpool_redis::redis::RedisError) -> bool;

/// Whether the error indicates a refused connection.
pub uninterp spec fn redis_err_is_refusal(e: deadpool_redis::redis::RedisError) -> bool;

/// Whether the failure is an I/O failure.
pub uninterp spec fn redis_err_is_io(e: deadpool_redis::redis::RedisError) -> bool;

/// Whether the error forces the connection to be replaced.
pub uninterp spec fn redis_err_is_unrecoverable(e: deadpool_redis::redis::RedisError) -> bool;

/// Relies on redis' `RedisError::is_timeout`: a predicate of the error value alone.
pub assume_specification[ deadpool_redis::redis::RedisError::is_timeout ](
    e: &deadpool_redis::redis::RedisError,
) -> (r: bool)
    ensures
        r == redis_err_is_timeout(*e),
;

/// Relies on redis' `RedisError::is_cluster_error`: a predicate of the error value alone.
pub assume_specification[ deadpool_redis::redis::RedisError::is_cluster_error ](
    e: &deadpool_redis::redis::RedisError,
) -> (r: bool)
    ensures
        r == redis_err_is_cluster(*e),
;

/// Relies on redis' `RedisError::is_connection_dropped`: a predicate of the error value alone.
pub assume_specification[ deadpool_redis::redis::RedisError::is_connection_dropped ](
    e: &deadpool_redis::redis::RedisError,
) -> (r: bool)
    ensures
        r == redis_err_is_dropped(*e),
;

/// Relies on redis' `RedisError::is_connection_refusal`: a predicate of the error value alone.
pub assume_specification[ deadpool_redis::redis::RedisError::is_connection_refusal ](
    e: &deadpool_redis::redis::RedisError,
) -> (r: bool)
    ensures
        r == redis_err_is_refusal(*e),
;

/// Relies on redis' `RedisError::is_io_error`: a predicate of the error value alone.
pub assume_specification[ deadpool_redis::redis::RedisError::is_io_error ](
    e: &deadpool_redis::redis::RedisError,
) -> (r: bool)
    ensures
        r == redis_err_is_io(*e),
;

/// Relies on redis' `RedisError::is_unrecoverable_error`: a predicate of the error value alone.
pub assume_specification[ deadpool_redis::redis::RedisError::is_unrecoverable_error ](
    e: &deadpool_redis::redis::RedisError,
) -> (r: bool)
    ensures
        r == redis_err_is_unrecoverable(*e),
;

/// Whether the error is a transport-level fault of the store: the
/// connection, the cluster or the I/O path failed, rather than the
/// request being answered with a non-value.
pub open spec fn spec_redis_err_transient(e: deadpool_redis::redis::RedisError) -> bool {
    redis_err_is_timeout(e) || redis_err_is_cluster(e) || redis_err_is_dropped(e)
        || redis_err_is_refusal(e) || redis_err_is_io(e) || redis_err_is_unrecoverable(e)
}

/// Classifies a store driver error for a point operation. A transport-level
/// fault is `StoreUnavailable`, so the caller may retry later; any other
/// failure on a point lookup means the store answered without the requested
/// value, which is `NotFound`.
pub fn classify_redis_error(err: &deadpool_redis::redis::RedisError) -> (r: AppError)
    ensures
        r == (if spec_redis_err_transient(*err) {
            AppError::StoreUnavailable
        } else {
            AppError::NotFound
        }),
{
    let transient = err.is_timeout() || err.is_cluster_error() || err.is_connection_dropped()
        || err.is_connection_refusal() || err.is_io_error() || err.is_unrecoverable_error();
    if transient {
        AppError::StoreUnavailable
    } else {
        AppError::NotFound
    }
}

} // verus!

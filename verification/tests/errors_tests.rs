use deadpool_redis::redis::{ErrorKind, RedisError};
use device_status::errors::{classify_redis_error, AppError};

#[test]
fn transport_faults_are_store_unavailable() {
    let timeout: RedisError =
        std::io::Error::new(std::io::ErrorKind::TimedOut, "timed out").into();
    assert!(timeout.is_timeout());
    assert_eq!(classify_redis_error(&timeout), AppError::StoreUnavailable);

    let refused: RedisError =
        std::io::Error::new(std::io::ErrorKind::ConnectionRefused, "refused").into();
    assert!(refused.is_connection_refusal());
    assert_eq!(classify_redis_error(&refused), AppError::StoreUnavailable);

    let broken: RedisError =
        std::io::Error::new(std::io::ErrorKind::BrokenPipe, "dropped").into();
    assert!(broken.is_connection_dropped());
    assert_eq!(classify_redis_error(&broken), AppError::StoreUnavailable);
}

#[test]
fn answered_non_value_is_not_found() {
    // The store answered, but not with the requested value — on a point
    // lookup that means the key was absent.
    let type_error: RedisError =
        (ErrorKind::UnexpectedReturnType, "response was nil").into();
    assert!(!type_error.is_timeout());
    assert!(!type_error.is_io_error());
    assert_eq!(classify_redis_error(&type_error), AppError::NotFound);
}

use memobuild::error::{is_retryable, MemoBuildError};

#[test]
fn test_cas_error_display() {
    let err = MemoBuildError::CASIntegrityFailure {
        expected: "abc123def456".to_string(),
        actual: "xyz789uvw012".to_string(),
        data_size: 1024,
    };
    let msg = err.to_string();
    assert!(msg.contains("abc123de"));
    assert!(msg.contains("xyz789uv"));
    assert!(msg.contains("1024"));
}

#[test]
fn test_retryable_detection() {
    let network_err = MemoBuildError::NetworkError {
        message: "timeout".to_string(),
        retryable: true,
        attempt: 1,
    };
    assert!(is_retryable(&network_err));

    let integrity_err = MemoBuildError::CASIntegrityFailure {
        expected: "abc".to_string(),
        actual: "def".to_string(),
        data_size: 100,
    };
    assert!(!is_retryable(&integrity_err));
}

#[test]
fn retryable_per_variant() {
    let not_retryable_network = MemoBuildError::NetworkError {
        message: "bad request".to_string(),
        retryable: false,
        attempt: 3,
    };
    assert!(!is_retryable(&not_retryable_network));
    assert!(!is_retryable(&MemoBuildError::StorageError {
        operation: "write".to_string(),
        reason: "disk full".to_string(),
    }));
    assert!(!is_retryable(&MemoBuildError::CacheCoherencyError {
        hash: "h".to_string(),
        reason: "blob missing".to_string(),
    }));
    assert!(is_retryable(&MemoBuildError::SyncError {
        message: "remote down".to_string(),
        recovered: true,
    }));
    assert!(is_retryable(&MemoBuildError::MetadataError {
        operation: "insert".to_string(),
        reason: "locked".to_string(),
    }));
    assert!(!is_retryable(&MemoBuildError::ConstraintViolation {
        reason: "bad shape".to_string(),
    }));
    assert!(!is_retryable(&MemoBuildError::Other("other".to_string())));
}

#[test]
fn messages_are_exact() {
    let cas = MemoBuildError::CASIntegrityFailure {
        expected: "aa".to_string(),
        actual: "bb".to_string(),
        data_size: 0,
    };
    assert_eq!(cas.to_string(), "CAS integrity failure: expected aa, got bb (size: 0 bytes)");
    let net = MemoBuildError::NetworkError {
        message: "timeout".to_string(),
        retryable: false,
        attempt: 120,
    };
    assert_eq!(net.to_string(), "Network error (attempt 120, retryable: false): timeout");
    let st = MemoBuildError::StorageError { operation: "read".to_string(), reason: "gone".to_string() };
    assert_eq!(st.to_string(), "Storage error in read: gone");
    let co = MemoBuildError::CacheCoherencyError { hash: "k".to_string(), reason: "r".to_string() };
    assert_eq!(co.to_string(), "Cache coherency error for k: r");
    let sy = MemoBuildError::SyncError { message: "m".to_string(), recovered: true };
    assert_eq!(sy.to_string(), "Sync error: m");
    let me = MemoBuildError::MetadataError { operation: "o".to_string(), reason: "r".to_string() };
    assert_eq!(me.to_string(), "Metadata error in o: r");
    let cv = MemoBuildError::ConstraintViolation { reason: "r".to_string() };
    assert_eq!(cv.to_string(), "Constraint violation: r");
    assert_eq!(MemoBuildError::Other("plain".to_string()).to_string(), "plain");
}

#[test]
fn decimal_rendering() {
    let big = MemoBuildError::CASIntegrityFailure {
        expected: "e".to_string(),
        actual: "a".to_string(),
        data_size: 18446744073709551615,
    };
    assert!(big.to_string().contains("(size: 18446744073709551615 bytes)"));
    let ten = MemoBuildError::NetworkError { message: "x".to_string(), retryable: true, attempt: 10 };
    assert_eq!(ten.to_string(), "Network error (attempt 10, retryable: true): x");
}

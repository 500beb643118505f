use memobuild::error::MemoBuildError;
use memobuild::remote::{
    cache_url, get_outcome, get_status, head_outcome, head_status, put_outcome, put_status, should_retry,
};

#[test]
fn url_of_a_key() {
    assert_eq!(cache_url("http://cache:8080", "ab12"), "http://cache:8080/cache/ab12");
}

#[test]
fn head_replies() {
    assert_eq!(head_outcome(200, 0).unwrap(), true);
    assert_eq!(head_outcome(404, 0).unwrap(), false);
    match head_outcome(503, 2) {
        Err(MemoBuildError::NetworkError { message, retryable, attempt }) => {
            assert_eq!(message, "unexpected status 503");
            assert!(retryable);
            assert_eq!(attempt, 2);
        }
        other => panic!("unexpected {:?}", other),
    }
}

#[test]
fn get_replies() {
    assert_eq!(get_outcome(200, b"blob".to_vec(), 0).unwrap(), Some(b"blob".to_vec()));
    assert_eq!(get_outcome(404, Vec::new(), 0).unwrap(), None);
    match get_outcome(403, Vec::new(), 1) {
        Err(MemoBuildError::NetworkError { retryable, .. }) => assert!(!retryable),
        other => panic!("unexpected {:?}", other),
    }
}

#[test]
fn put_replies() {
    assert!(put_outcome(201, 0).is_ok());
    assert!(put_outcome(200, 0).is_ok());
    assert!(put_outcome(500, 0).is_err());
    assert!(put_outcome(404, 0).is_err());
}

#[test]
fn retry_decisions() {
    let transient = MemoBuildError::NetworkError { message: "x".to_string(), retryable: true, attempt: 0 };
    assert!(should_retry(&transient, 0, 3));
    assert!(should_retry(&transient, 1, 3));
    assert!(!should_retry(&transient, 2, 3));
    let integrity = MemoBuildError::CASIntegrityFailure {
        expected: "a".to_string(),
        actual: "b".to_string(),
        data_size: 1,
    };
    assert!(!should_retry(&integrity, 0, 3));
}

#[test]
fn server_statuses() {
    let boom = || MemoBuildError::StorageError { operation: "o".to_string(), reason: "r".to_string() };
    assert_eq!(head_status(&Ok(true)), 200);
    assert_eq!(head_status(&Ok(false)), 404);
    assert_eq!(head_status(&Err(boom())), 500);
    assert_eq!(get_status(&Ok(Some(vec![1]))), 200);
    assert_eq!(get_status(&Ok(None)), 404);
    assert_eq!(get_status(&Err(boom())), 500);
    assert_eq!(put_status(&Ok(()), &Ok(())), 201);
    assert_eq!(put_status(&Ok(()), &Err(boom())), 500);
    assert_eq!(put_status(&Err(boom()), &Ok(())), 500);
}

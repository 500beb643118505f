//! The remote cache wire protocol: routes, how a client reads the status of
//! a reply, when it retries, and which status the server answers with.
use crate::error::{decimal, decimal_chars, is_retryable, retryable_spec, MemoBuildError};
use crate::text::{append_str, string_of};
use vstd::prelude::*;

verus! {

/// `<base>/cache/<key>`.
pub open spec fn cache_url_spec(base: Seq<char>, key: Seq<char>) -> Seq<char> {
    base + "/cache/"@ + key
}

/// The URL of a key on the cache service.
pub fn cache_url(base: &str, key: &str) -> (r: String)
    ensures
        r@ == cache_url_spec(base@, key@),
{
    let mut out: Vec<char> = Vec::new();
    append_str(&mut out, base);
    append_str(&mut out, "/cache/");
    append_str(&mut out, key);
    string_of(out.as_slice())
}

/// `e` is the error for a reply status that is neither success nor "not
/// found": server errors (5xx) may be retried, anything else may not.
pub open spec fn is_status_error(e: MemoBuildError, status: u16, attempt: u32) -> bool {
    match e {
        MemoBuildError::NetworkError { message, retryable, attempt: a } => message@
            == "unexpected status "@ + decimal(status as nat) && retryable == (500 <= status
            <= 599) && a == attempt,
        _ => false,
    }
}

fn status_error(status: u16, attempt: u32) -> (e: MemoBuildError)
    ensures
        is_status_error(e, status, attempt),
{
    let mut out: Vec<char> = Vec::new();
    append_str(&mut out, "unexpected status ");
    let mut digits = decimal_chars(status as u64);
    out.append(&mut digits);
    MemoBuildError::NetworkError {
        message: string_of(out.as_slice()),
        retryable: 500 <= status && status <= 599,
        attempt,
    }
}

/// Reads the reply to `HEAD /cache/<key>`: 200 present, 404 absent.
pub fn head_outcome(status: u16, attempt: u32) -> (r: Result<bool, MemoBuildError>)
    ensures
        status == 200 ==> r == Ok::<bool, MemoBuildError>(true),
        status == 404 ==> r == Ok::<bool, MemoBuildError>(false),
        status != 200 && status != 404 ==> r is Err && is_status_error(r->Err_0, status, attempt),
{
    if status == 200 {
        Ok(true)
    } else if status == 404 {
        Ok(false)
    } else {
        Err(status_error(status, attempt))
    }
}

/// Reads the reply to `GET /cache/<key>`: 200 carries the blob, 404 means
/// absent.
pub fn get_outcome(status: u16, body: Vec<u8>, attempt: u32) -> (r: Result<
    Option<Vec<u8>>,
    MemoBuildError,
>)
    ensures
        status == 200 ==> r is Ok && r->Ok_0 is Some && r->Ok_0->0@ == body@,
        status == 404 ==> r is Ok && r->Ok_0 is None,
        status != 200 && status != 404 ==> r is Err && is_status_error(r->Err_0, status, attempt),
{
    if status == 200 {
        Ok(Some(body))
    } else if status == 404 {
        Ok(None)
    } else {
        Err(status_error(status, attempt))
    }
}

/// Reads the reply to `PUT /cache/<key>`: any 2xx is success.
pub fn put_outcome(status: u16, attempt: u32) -> (r: Result<(), MemoBuildError>)
    ensures
        200 <= status <= 299 ==> r is Ok,
        !(200 <= status <= 299) ==> r is Err && is_status_error(r->Err_0, status, attempt),
{
    if 200 <= status && status <= 299 {
        Ok(())
    } else {
        Err(status_error(status, attempt))
    }
}

/// Whether a failed attempt (numbered from 0) is followed by another one:
/// only retryable errors are, and at most `max_attempts` attempts are made.
pub fn should_retry(err: &MemoBuildError, attempt: u32, max_attempts: u32) -> (r: bool)
    ensures
        r == (retryable_spec(*err) && attempt + 1 < max_attempts),
{
    is_retryable(err) && (attempt as u64) + 1 < max_attempts as u64
}

/// Server side: the status that answers `HEAD` for a metadata lookup.
pub fn head_status(found: &Result<bool, MemoBuildError>) -> (r: u16)
    ensures
        r == match found {
            Ok(true) => 200u16,
            Ok(false) => 404u16,
            Err(_) => 500u16,
        },
{
    match found {
        Ok(true) => 200,
        Ok(false) => 404,
        Err(_) => 500,
    }
}

/// Server side: the status that answers `GET` for a blob lookup.
pub fn get_status(found: &Result<Option<Vec<u8>>, MemoBuildError>) -> (r: u16)
    ensures
        r == match found {
            Ok(Some(_)) => 200u16,
            Ok(None) => 404u16,
            Err(_) => 500u16,
        },
{
    match found {
        Ok(Some(_)) => 200,
        Ok(None) => 404,
        Err(_) => 500,
    }
}

/// Server side: the status that answers `PUT`: created once both the blob
/// and its metadata are stored.
pub fn put_status(blob: &Result<(), MemoBuildError>, metadata: &Result<(), MemoBuildError>) -> (r:
    u16)
    ensures
        r == (if blob is Ok && metadata is Ok {
            201u16
        } else {
            500u16
        }),
{
    if blob.is_ok() && metadata.is_ok() {
        201
    } else {
        500
    }
}

} // verus!

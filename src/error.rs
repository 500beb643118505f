//! Error taxonomy of the build accelerator and the retry classification.
use crate::text::{chars_of, string_of};
use vstd::prelude::*;

verus! {

/// Main error type of the build accelerator.
#[derive(Debug, Clone, PartialEq, Eq)]
pub enum MemoBuildError {
    /// A blob's computed hash differs from the key it was requested under.
    CASIntegrityFailure { expected: String, actual: String, data_size: usize },
    /// Transport failure or server error of the remote tier.
    NetworkError { message: String, retryable: bool, attempt: u32 },
    /// Local storage operation failed.
    StorageError { operation: String, reason: String },
    /// Index and blob disagree in a way that cannot be reconciled.
    CacheCoherencyError { hash: String, reason: String },
    /// The remote write failed after the local write succeeded.
    SyncError { message: String, recovered: bool },
    /// Metadata store failure on the server side.
    MetadataError { operation: String, reason: String },
    /// A schema or shape invariant was broken.
    ConstraintViolation { reason: String },
    /// Any other failure, carried as its message.
    Other(String),
}

/// Which errors are worth another attempt.
pub open spec fn retryable_spec(err: MemoBuildError) -> bool {
    match err {
        MemoBuildError::NetworkError { retryable, .. } => retryable,
        MemoBuildError::MetadataError { .. } => true,
        MemoBuildError::SyncError { .. } => true,
        _ => false,
    }
}

/// Helper to determine if an error is retryable.
pub fn is_retryable(err: &MemoBuildError) -> (r: bool)
    ensures
        r == retryable_spec(*err),
{
    match err {
        MemoBuildError::NetworkError { retryable, .. } => *retryable,
        MemoBuildError::CASIntegrityFailure { .. } => false,
        MemoBuildError::StorageError { .. } => false,
        MemoBuildError::CacheCoherencyError { .. } => false,
        MemoBuildError::MetadataError { .. } => true,
        MemoBuildError::SyncError { .. } => true,
        MemoBuildError::ConstraintViolation { .. } => false,
        MemoBuildError::Other(_) => false,
    }
}

pub open spec fn digit_char(d: nat) -> char {
    if d == 0 {
        '0'
    } else if d == 1 {
        '1'
    } else if d == 2 {
        '2'
    } else if d == 3 {
        '3'
    } else if d == 4 {
        '4'
    } else if d == 5 {
        '5'
    } else if d == 6 {
        '6'
    } else if d == 7 {
        '7'
    } else if d == 8 {
        '8'
    } else {
        '9'
    }
}

/// Decimal notation of a natural number, without leading zeros.
pub open spec fn decimal(n: nat) -> Seq<char>
    decreases n,
{
    if n < 10 {
        seq![digit_char(n)]
    } else {
        decimal(n / 10).push(digit_char(n % 10))
    }
}

pub open spec fn bool_text(b: bool) -> Seq<char> {
    if b {
        "true"@
    } else {
        "false"@
    }
}

/// The human-readable message of an error.
pub open spec fn message_spec(err: MemoBuildError) -> Seq<char> {
    match err {
        MemoBuildError::CASIntegrityFailure { expected, actual, data_size } => "CAS integrity failure: expected "@
            + expected@ + ", got "@ + actual@ + " (size: "@ + decimal(data_size as nat)
            + " bytes)"@,
        MemoBuildError::NetworkError { message, retryable, attempt } => "Network error (attempt "@
            + decimal(attempt as nat) + ", retryable: "@ + bool_text(retryable) + "): "@
            + message@,
        MemoBuildError::StorageError { operation, reason } => "Storage error in "@ + operation@
            + ": "@ + reason@,
        MemoBuildError::CacheCoherencyError { hash, reason } => "Cache coherency error for "@
            + hash@ + ": "@ + reason@,
        MemoBuildError::SyncError { message, .. } => "Sync error: "@ + message@,
        MemoBuildError::MetadataError { operation, reason } => "Metadata error in "@ + operation@
            + ": "@ + reason@,
        MemoBuildError::ConstraintViolation { reason } => "Constraint violation: "@ + reason@,
        MemoBuildError::Other(message) => message@,
    }
}

fn digit(d: u64) -> (c: char)
    requires
        d < 10,
    ensures
        c == digit_char(d as nat),
{
    if d == 0 {
        '0'
    } else if d == 1 {
        '1'
    } else if d == 2 {
        '2'
    } else if d == 3 {
        '3'
    } else if d == 4 {
        '4'
    } else if d == 5 {
        '5'
    } else if d == 6 {
        '6'
    } else if d == 7 {
        '7'
    } else if d == 8 {
        '8'
    } else {
        '9'
    }
}

/// Decimal notation of `n`.
pub fn decimal_chars(n: u64) -> (r: Vec<char>)
    ensures
        r@ == decimal(n as nat),
{
    let mut m: u64 = n;
    let mut out: Vec<char> = Vec::new();
    assert(decimal(n as nat) =~= decimal(m as nat) + out@);
    while m >= 10
        invariant
            decimal(n as nat) == decimal(m as nat) + out@,
        decreases m,
    {
        let ghost before = out@;
        out.insert(0, digit(m % 10));
        assert(decimal(m as nat) == decimal((m / 10) as nat).push(digit_char((m % 10) as nat)));
        assert(decimal((m / 10) as nat) + out@ =~= decimal((m / 10) as nat).push(
            digit_char((m % 10) as nat),
        ) + before);
        m = m / 10;
    }
    let ghost before = out@;
    out.insert(0, digit(m));
    assert(out@ =~= decimal(m as nat) + before);
    out
}

fn push_str(out: &mut Vec<char>, s: &str)
    ensures
        final(out)@ == old(out)@ + s@,
{
    let mut more = chars_of(s);
    out.append(&mut more);
}

fn push_chars(out: &mut Vec<char>, s: Vec<char>)
    ensures
        final(out)@ == old(out)@ + s@,
{
    let mut more = s;
    out.append(&mut more);
}

impl MemoBuildError {
    /// The human-readable message of this error.
    pub fn to_string(&self) -> (r: String)
        ensures
            r@ == message_spec(*self),
    {
        let mut out: Vec<char> = Vec::new();
        match self {
            MemoBuildError::CASIntegrityFailure { expected, actual, data_size } => {
                push_str(&mut out, "CAS integrity failure: expected ");
                push_str(&mut out, expected.as_str());
                push_str(&mut out, ", got ");
                push_str(&mut out, actual.as_str());
                push_str(&mut out, " (size: ");
                push_chars(&mut out, decimal_chars(*data_size as u64));
                push_str(&mut out, " bytes)");
            },
            MemoBuildError::NetworkError { message, retryable, attempt } => {
                push_str(&mut out, "Network error (attempt ");
                push_chars(&mut out, decimal_chars(*attempt as u64));
                push_str(&mut out, ", retryable: ");
                if *retryable {
                    push_str(&mut out, "true");
                } else {
                    push_str(&mut out, "false");
                }
                push_str(&mut out, "): ");
                push_str(&mut out, message.as_str());
            },
            MemoBuildError::StorageError { operation, reason } => {
                push_str(&mut out, "Storage error in ");
                push_str(&mut out, operation.as_str());
                push_str(&mut out, ": ");
                push_str(&mut out, reason.as_str());
            },
            MemoBuildError::CacheCoherencyError { hash, reason } => {
                push_str(&mut out, "Cache coherency error for ");
                push_str(&mut out, hash.as_str());
                push_str(&mut out, ": ");
                push_str(&mut out, reason.as_str());
            },
            MemoBuildError::SyncError { message, .. } => {
                push_str(&mut out, "Sync error: ");
                push_str(&mut out, message.as_str());
            },
            MemoBuildError::MetadataError { operation, reason } => {
                push_str(&mut out, "Metadata error in ");
                push_str(&mut out, operation.as_str());
                push_str(&mut out, ": ");
                push_str(&mut out, reason.as_str());
            },
            MemoBuildError::ConstraintViolation { reason } => {
                push_str(&mut out, "Constraint violation: ");
                push_str(&mut out, reason.as_str());
            },
            MemoBuildError::Other(message) => {
                push_str(&mut out, message.as_str());
            },
        }
        string_of(out.as_slice())
    }
}

} // verus!

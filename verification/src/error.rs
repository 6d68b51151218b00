//! Typed failures shared by every operation of the library.

use vstd::prelude::*;

verus! {

/// The failure classes an operation can report. The payload names the
/// hostname, version, file or command the operation failed on.
#[derive(Debug)]
pub enum ValetError {
    /// A file could not be read, written or removed.
    IoFailure(String),
    /// An external command exited with a failure.
    ProcessFailure(String),
    /// The request itself cannot be satisfied: unsupported version,
    /// malformed hostname or unusable host configuration.
    ValidationFailure(String),
    /// A generated file carries a marker but a required parameter of that
    /// marker's kind cannot be recovered.
    ParseFailure(String),
    /// An optional trust store could not be updated; never fatal.
    TrustStoreFailure(String),
}

impl ValetError {
    /// Short stable name of the failure class, for reporting.
    pub fn class_name(&self) -> (r: &'static str)
        ensures
            (self is IoFailure) ==> r@ == "io"@,
            (self is ProcessFailure) ==> r@ == "process"@,
            (self is ValidationFailure) ==> r@ == "validation"@,
            (self is ParseFailure) ==> r@ == "parse"@,
            (self is TrustStoreFailure) ==> r@ == "trust-store"@,
    {
        match self {
            ValetError::IoFailure(_) => "io",
            ValetError::ProcessFailure(_) => "process",
            ValetError::ValidationFailure(_) => "validation",
            ValetError::ParseFailure(_) => "parse",
            ValetError::TrustStoreFailure(_) => "trust-store",
        }
    }

    /// The detail string carried by the failure.
    pub fn detail(&self) -> (r: &str)
        ensures
            match self {
                ValetError::IoFailure(d) => r@ == d@,
                ValetError::ProcessFailure(d) => r@ == d@,
                ValetError::ValidationFailure(d) => r@ == d@,
                ValetError::ParseFailure(d) => r@ == d@,
                ValetError::TrustStoreFailure(d) => r@ == d@,
            },
    {
        match self {
            ValetError::IoFailure(d) => d.as_str(),
            ValetError::ProcessFailure(d) => d.as_str(),
            ValetError::ValidationFailure(d) => d.as_str(),
            ValetError::ParseFailure(d) => d.as_str(),
            ValetError::TrustStoreFailure(d) => d.as_str(),
        }
    }
}

} // verus!

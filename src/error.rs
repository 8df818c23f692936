//! The errors that hashing and validating report.
use vstd::prelude::*;

verus! {

#[verifier::external_type_specification]
#[verifier::external_body]
pub struct ExIoError(std::io::Error);

/// Why a digest could not be computed or checked.
#[derive(Debug)]
pub enum SHAError {
    /// A digest did not match; carries the name of the file. The comparison
    /// itself answers `false` and never raises this: it is for callers that
    /// turn a mismatch into a failure.
    FailedValidation(String),
    /// Reading or opening failed; carries the underlying cause.
    IO(std::io::Error),
}

/// The message that starts the text of a failed validation.
pub open spec fn failed_validation_prefix() -> Seq<char> {
    "SHA validation failed for file: "@
}

/// The message that starts the text of an I/O failure.
pub open spec fn io_prefix() -> Seq<char> {
    "IO error: "@
}

impl SHAError {
    /// The human-readable text of this error.
    pub fn to_string(&self) -> (r: String)
        ensures
            match self {
                SHAError::FailedValidation(name) => r@ == failed_validation_prefix() + name@,
                SHAError::IO(e) => exists|cause: String|
                    vstd::string::to_string_from_display_ensures::<std::io::Error>(e, cause)
                        && r@ == io_prefix() + cause@,
            },
    {
        match self {
            SHAError::FailedValidation(name) => {
                String::from_str("SHA validation failed for file: ").concat(name.as_str())
            },
            SHAError::IO(e) => {
                let cause = e.to_string();
                String::from_str("IO error: ").concat(cause.as_str())
            },
        }
    }
}

} // verus!

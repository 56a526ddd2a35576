//! The error value every fallible operation of the crate reports.

use vstd::prelude::*;

verus! {

/// An error named by a coarse code, a detailed code and a human message.
///
/// The codes are short machine-readable names (for example `BadInput` /
/// `PassphraseMismatch`); contracts identify an error by its two codes.
#[derive(Debug)]
pub struct HelixError {
    pub code: String,
    pub detailed_code: String,
    pub message: String,
}

impl HelixError {
    /// Builds an error from its three parts.
    pub fn from(code: &str, detailed_code: &str, message: &str) -> (r: HelixError)
        ensures
            r.code@ == code@,
            r.detailed_code@ == detailed_code@,
            r.message@ == message@,
    {
        HelixError {
            code: code.to_owned(),
            detailed_code: detailed_code.to_owned(),
            message: message.to_owned(),
        }
    }
}

} // verus!

//! The texts of errors and paths from outside the library, as their
//! `Display` implementations render them. They are opaque: nothing is
//! claimed about their contents.

use vstd::prelude::*;
use std::path::Path;

verus! {

#[verifier::external_type_specification]
#[verifier::external_body]
pub struct ExIoError(std::io::Error);

/// `std::io::Error::to_string`.
#[verifier::external_body]
pub(crate) fn io_error_text(error: &std::io::Error) -> String {
    error.to_string()
}

/// `serde_json::Error::to_string`.
#[verifier::external_body]
pub(crate) fn json_error_text(error: &serde_json::Error) -> String {
    error.to_string()
}

/// `Path::display`, as a string.
#[verifier::external_body]
pub(crate) fn path_display_text(path: &Path) -> String {
    path.display().to_string()
}

} // verus!

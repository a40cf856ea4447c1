//! File-system paths as opaque values, and the few path operations the
//! library's rules need.

use vstd::prelude::*;
use std::path::Path;
use std::path::PathBuf;

verus! {

#[verifier::external_type_specification]
#[verifier::external_body]
pub struct ExPath(std::path::Path);

#[verifier::external_type_specification]
#[verifier::external_body]
pub struct ExPathBuf(std::path::PathBuf);

/// `PathBuf::clone`: a path buffer holding the same path.
pub assume_specification[ <std::path::PathBuf as Clone>::clone ](path: &PathBuf) -> (r: PathBuf)
    ensures
        r == *path,
;

/// `PathBuf::as_path`: the path borrowed; nothing is stated of the opaque
/// value.
pub assume_specification[ std::path::PathBuf::as_path ](path: &PathBuf) -> &Path;

/// `Path::file_name`, as the encoded bytes of the operating-system string.
/// Which component that is depends on the platform's path syntax, so nothing
/// is stated of it.
#[verifier::external_body]
pub(crate) fn path_file_name_bytes(path: &Path) -> (r: Option<Vec<u8>>) {
    match path.file_name() {
        Some(name) => Some(name.as_encoded_bytes().to_vec()),
        None => None,
    }
}

/// `Path::join`. The joined path is an opaque value, so nothing is stated of
/// it.
#[verifier::external_body]
pub(crate) fn path_join(directory: &Path, name: &str) -> (r: PathBuf) {
    directory.join(name)
}

/// `Path::file_name` as text, where it is valid Unicode
/// (`OsStr::to_str`). Which component that is depends on the platform's
/// path syntax, so nothing is stated of it.
#[verifier::external_body]
pub(crate) fn path_file_name_text(path: &Path) -> (r: Option<String>) {
    match path.file_name() {
        Some(name) => match name.to_str() {
            Some(text) => Some(text.to_owned()),
            None => None,
        },
        None => None,
    }
}

/// `Path::file_stem` as text (`OsStr::to_string_lossy`), empty where the path
/// has none. Which part of the name that is depends on the platform's path
/// syntax, so nothing is stated of it.
#[verifier::external_body]
pub(crate) fn path_file_stem_text(path: &Path) -> (r: String) {
    path.file_stem().unwrap_or_default().to_string_lossy().into_owned()
}

/// `Path::extension` as text (`OsStr::to_string_lossy`). Which part of the
/// name that is depends on the platform's path syntax, so nothing is stated
/// of it.
#[verifier::external_body]
pub(crate) fn path_extension_text(path: &Path) -> (r: Option<String>) {
    match path.extension() {
        Some(extension) => Some(extension.to_string_lossy().into_owned()),
        None => None,
    }
}

/// `Path::with_file_name`. The new path is an opaque value, so nothing is
/// stated of it.
#[verifier::external_body]
pub(crate) fn path_with_file_name(path: &Path, name: &str) -> (r: PathBuf) {
    path.with_file_name(name)
}


} // verus!

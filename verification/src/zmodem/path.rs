//! File names that cross the ZMODEM wire.
//!
//! An upload announces only the local file's base name; a download keeps only
//! the last component of whatever name the remote side sent, so that neither
//! `/` nor `\` can lead the file out of the chosen directory.

use vstd::prelude::*;
use std::path::Path;
use std::path::PathBuf;
use crate::text::{utf8_lossy, utf8_lossy_decoding};
use crate::paths::{path_extension_text, path_file_name_bytes, path_file_stem_text, path_join, path_with_file_name};
use crate::text::{decimal_chars, decimal_string};

verus! {

pub const DOT: u8 = 0x2e;
pub const SLASH: u8 = 0x2f;
pub const BACKSLASH: u8 = 0x5c;

/// Why a file name was refused.
#[derive(Clone, Copy, Debug, PartialEq, Eq, Structural)]
pub enum ZmodemNameError {
    /// The local upload path has no final component.
    MissingFileName,
    /// The name is empty, `.` or `..`.
    EmptyOrUnsafe,
    /// The name holds a NUL byte.
    ContainsNul,
}

impl ZmodemNameError {
    pub fn message(&self) -> (r: &'static str)
        ensures
            r@ == (match self {
                ZmodemNameError::MissingFileName => "ZMODEM upload path has no file name"@,
                ZmodemNameError::EmptyOrUnsafe => "ZMODEM file name is empty or unsafe"@,
                ZmodemNameError::ContainsNul => "ZMODEM file name contains a NUL byte"@,
            }),
    {
        match self {
            ZmodemNameError::MissingFileName => "ZMODEM upload path has no file name",
            ZmodemNameError::EmptyOrUnsafe => "ZMODEM file name is empty or unsafe",
            ZmodemNameError::ContainsNul => "ZMODEM file name contains a NUL byte",
        }
    }
}

pub open spec fn is_dot_name(name: Seq<u8>) -> bool {
    name =~= seq![DOT] || name =~= seq![DOT, DOT]
}

/// The verdict on a candidate name.
pub open spec fn name_verdict(name: Seq<u8>) -> Result<(), ZmodemNameError> {
    if name.len() == 0 || is_dot_name(name) {
        Err(ZmodemNameError::EmptyOrUnsafe)
    } else if name.contains(0u8) {
        Err(ZmodemNameError::ContainsNul)
    } else {
        Ok(())
    }
}

pub open spec fn is_path_separator(byte: u8) -> bool {
    byte == SLASH || byte == BACKSLASH
}

/// The part of `name` after its last `/` or `\` (all of it when it has none).
pub open spec fn last_component(name: Seq<u8>) -> Seq<u8>
    decreases name.len(),
{
    if name.len() == 0 {
        name
    } else if is_path_separator(name.last()) {
        Seq::empty()
    } else {
        last_component(name.drop_last()).push(name.last())
    }
}

pub fn validate_name(name: &[u8]) -> (r: Result<(), ZmodemNameError>)
    ensures
        r == name_verdict(name@),
{
    let len = name.len();
    if len == 0 || (len == 1 && name[0] == DOT) || (len == 2 && name[0] == DOT && name[1] == DOT) {
        proof {
            if len == 1 {
                assert(name@ =~= seq![DOT]);
            }
            if len == 2 {
                assert(name@ =~= seq![DOT, DOT]);
            }
        }
        return Err(ZmodemNameError::EmptyOrUnsafe);
    }
    assert(!is_dot_name(name@)) by {
        if name@ =~= seq![DOT] {
            assert(name@[0] == DOT);
        }
        if name@ =~= seq![DOT, DOT] {
            assert(name@[0] == DOT && name@[1] == DOT);
        }
    }
    let mut i: usize = 0;
    while i < len
        invariant
            len == name.len(),
            i <= len,
            forall|j: int| 0 <= j < i ==> name@[j] != 0u8,
        decreases len - i,
    {
        if name[i] == 0 {
            assert(name@.contains(0u8)) by {
                assert(name@[i as int] == 0u8);
            }
            return Err(ZmodemNameError::ContainsNul);
        }
        i = i + 1;
    }
    assert(!name@.contains(0u8));
    Ok(())
}

proof fn lemma_last_component_from(name: Seq<u8>, start: int)
    requires
        0 <= start <= name.len(),
        start == 0 || is_path_separator(name[start - 1]),
        forall|j: int| start <= j < name.len() ==> !is_path_separator(#[trigger] name[j]),
    ensures
        last_component(name) =~= name.subrange(start, name.len() as int),
    decreases name.len(),
{
    if name.len() == 0 {
    } else if name.len() == start {
        assert(is_path_separator(name.last()));
    } else {
        assert(!is_path_separator(name[name.len() - 1]));
        lemma_last_component_from(name.drop_last(), start);
        assert(name.drop_last().subrange(start, name.len() - 1).push(name.last())
            =~= name.subrange(start, name.len() as int));
    }
}

/// The last component of a name sent by the remote side.
pub fn remote_base_name(remote_name: &[u8]) -> (r: Vec<u8>)
    ensures
        r@ == last_component(remote_name@),
{
    let len = remote_name.len();
    let mut start = len;
    while start > 0
        invariant
            start <= len,
            len == remote_name.len(),
            forall|j: int| start <= j < len ==> !is_path_separator(#[trigger] remote_name@[j]),
        ensures
            start <= len,
            forall|j: int| start <= j < len ==> !is_path_separator(#[trigger] remote_name@[j]),
            start == 0 || is_path_separator(remote_name@[start - 1]),
        decreases start,
    {
        let byte = remote_name[start - 1];
        if byte == SLASH || byte == BACKSLASH {
            break;
        }
        start = start - 1;
    }
    let mut out: Vec<u8> = Vec::new();
    let mut k = start;
    while k < len
        invariant
            start <= k <= len,
            len == remote_name.len(),
            out@ =~= remote_name@.subrange(start as int, k as int),
        decreases len - k,
    {
        out.push(remote_name[k]);
        k = k + 1;
    }
    proof {
        lemma_last_component_from(remote_name@, start as int);
    }
    out
}

/// The name an upload announces, from the final component of the local path
/// (`None` where the path has none).
pub fn checked_upload_name(file_name: Option<Vec<u8>>) -> (r: Result<Vec<u8>, ZmodemNameError>)
    ensures
        match file_name {
            None => r == Err::<Vec<u8>, ZmodemNameError>(ZmodemNameError::MissingFileName),
            Some(name) => match name_verdict(name@) {
                Ok(_) => r matches Ok(out) && out@ == name@,
                Err(e) => r == Err::<Vec<u8>, ZmodemNameError>(e),
            },
        },
{
    match file_name {
        None => Err(ZmodemNameError::MissingFileName),
        Some(name) => match validate_name(name.as_slice()) {
            Ok(()) => Ok(name),
            Err(e) => Err(e),
        },
    }
}

/// The name under which a local file is offered for upload.
pub fn upload_file_name(path: &Path) -> (r: Result<Vec<u8>, ZmodemNameError>)
    ensures
        r matches Ok(name) ==> name_verdict(name@) is Ok,
{
    checked_upload_name(path_file_name_bytes(path))
}

/// The name under which a download named `remote_name` is saved: the text
/// of its last component, refused exactly when that component is not a safe
/// name.
pub fn download_file_name(remote_name: &[u8]) -> (r: Result<String, ZmodemNameError>)
    ensures
        match name_verdict(last_component(remote_name@)) {
            Ok(_) => r matches Ok(name) && name@ == utf8_lossy_decoding(last_component(remote_name@)),
            Err(e) => r == Err::<String, ZmodemNameError>(e),
        },
{
    let name = remote_base_name(remote_name);
    match validate_name(name.as_slice()) {
        Ok(()) => Ok(utf8_lossy(name.as_slice())),
        Err(e) => Err(e),
    }
}

/// Where a downloaded file named `remote_name` is written inside `directory`:
/// `directory` joined with `download_file_name(remote_name)`, refused
/// exactly when that name is.
pub fn download_path(directory: &Path, remote_name: &[u8]) -> (r: Result<PathBuf, ZmodemNameError>)
    ensures
        r is Ok <==> name_verdict(last_component(remote_name@)) is Ok,
        name_verdict(last_component(remote_name@)) matches Err(e) ==> r == Err::<PathBuf, ZmodemNameError>(e),
{
    match download_file_name(remote_name) {
        Ok(name) => Ok(path_join(directory, name.as_str())),
        Err(e) => Err(e),
    }
}

/// How many numbered alternatives a download tries when its name is taken.
pub const MAX_DUPLICATE_SUFFIX: usize = 10000;

/// The name of the `suffix`-th alternative to a taken download name:
/// `stem (suffix).extension`, or `stem (suffix)` without an extension.
pub open spec fn suffixed_name(stem: Seq<char>, suffix: nat, extension: Option<Seq<char>>) -> Seq<char> {
    let base = stem + " ("@ + decimal_chars(suffix) + ")"@;
    match extension {
        Some(extension) => base + "."@ + extension,
        None => base,
    }
}

pub fn suffixed_file_name(stem: &str, suffix: usize, extension: Option<&str>) -> (r: String)
    ensures
        r@ == suffixed_name(stem@, suffix as nat, match extension {
            Some(extension) => Some(extension@),
            None => None,
        }),
{
    let mut name = String::from_str(stem);
    name.append(" (");
    let digits = decimal_string(suffix as u64);
    name.append(digits.as_str());
    name.append(")");
    match extension {
        Some(extension) => {
            name.append(".");
            name.append(extension);
        },
        None => {},
    }
    name
}

/// The path that the `suffix`-th alternative to `path` has: the same
/// directory, with the file name numbered as `suffixed_name` says.
pub fn suffixed_download_path(path: &Path, suffix: usize) -> (r: PathBuf) {
    let stem = path_file_stem_text(path);
    let extension = path_extension_text(path);
    let name = match &extension {
        Some(extension) => suffixed_file_name(stem.as_str(), suffix, Some(extension.as_str())),
        None => suffixed_file_name(stem.as_str(), suffix, None),
    };
    path_with_file_name(path, name.as_str())
}


} // verus!

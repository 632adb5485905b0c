//! Where the executable picker opens: the folder of the executable already
//! configured, when that executable exists.
use crate::text::{parent_directory, path_parent, string_from_chars};
use vstd::prelude::*;

verus! {

/// Whether a path names an existing regular file. What is on disk decides, so
/// nothing is promised of the answer.
#[verifier::external_body]
pub(crate) fn path_is_file(path: &str) -> (res: bool) {
    std::path::Path::new(path).is_file()
}

/// The folder the picker opens in, given whether the configured path names
/// an existing file: that file's parent folder.
pub fn initial_directory_for(path: &str, is_file: bool) -> (res: Option<String>)
    ensures
        !is_file ==> res is None,
        is_file ==> match parent_directory(path@) {
            Some(parent) => res is Some && res->0@ == parent,
            None => res is None,
        },
{
    if !is_file {
        return None;
    }
    match path_parent(path) {
        Some(parent) => Some(string_from_chars(&parent)),
        None => None,
    }
}

/// The folder the picker opens in for a configured executable path: the
/// executable's parent folder when the executable exists, nothing otherwise.
pub fn initial_directory_from_executable_path(initial_path: Option<&str>) -> (res: Option<String>)
    ensures
        initial_path is None ==> res is None,
        res is Some ==> initial_path is Some && parent_directory(initial_path->0@) == Some(res->0@),
{
    match initial_path {
        Some(path) => {
            let exists = path_is_file(path);
            initial_directory_for(path, exists)
        },
        None => None,
    }
}

} // verus!

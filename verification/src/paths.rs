//! Paths and the home directory, as the platform sees them. Nothing here is
//! proved: each function hands a question to `std::path` or to `homedir` and
//! brings the answer back as text. What `std::path` answers depends on the
//! path alone, so its answers have names that contracts can speak of.

use crate::text::option_view;
use std::path::{Path, PathBuf};
use vstd::prelude::*;

verus! {

/// `homedir::GetHomeError`, the error of a lookup of the home directory.
/// Nothing is read from it.
#[verifier::external_type_specification]
#[verifier::external_body]
pub struct ExGetHomeError(homedir::GetHomeError);

/// `homedir::my_home`: the home directory of the user that runs the process,
/// taken from the environment or the user database. What comes back depends
/// on the machine, so nothing is claimed of it.
#[verifier::external_body]
pub(crate) fn my_home() -> (home: Result<Option<String>, homedir::GetHomeError>) {
    homedir::my_home().map(|home| home.map(|dir| dir.to_string_lossy().into_owned()))
}

/// The file name of `path`: what `Path::file_name` gives, the final
/// component of the path where it has one that names a file or a directory.
pub uninterp spec fn file_name_of(path: Seq<char>) -> Option<Seq<char>>;

/// The parent of `path`: what `PathBuf::pop` leaves, the path without its
/// final component, or the path itself where it has no parent.
pub uninterp spec fn parent_of(path: Seq<char>) -> Seq<char>;

/// `Path::file_name`: the final component of `path`, where it has one that
/// names a file or a directory. The answer depends on the path alone, and
/// is the file name that [`file_name_of`] names.
#[verifier::external_body]
pub(crate) fn path_file_name(path: &str) -> (name: Option<String>)
    ensures
        option_view(name) == file_name_of(path@),
{
    Path::new(path).file_name().and_then(|name| name.to_str()).map(|name| name.to_string())
}

/// `PathBuf::pop`: `path` cut down to its parent, or `path` itself where it
/// has none. The answer depends on the path alone, and is the parent that
/// [`parent_of`] names.
#[verifier::external_body]
pub(crate) fn path_parent(path: &str) -> (parent: String)
    ensures
        parent@ == parent_of(path@),
{
    let mut parent = PathBuf::from(path);
    parent.pop();
    parent.to_string_lossy().into_owned()
}

} // verus!

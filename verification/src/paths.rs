//! Paths in the file system, as the library carries them.

use std::path::PathBuf;
use vstd::prelude::*;

verus! {

/// `std::path::PathBuf`, carried as it is: nothing is known of what it holds
/// but through `path_text`.
#[verifier::external_type_specification]
#[verifier::external_body]
pub struct ExPathBuf(PathBuf);

/// The characters of a path, as `Path::to_string_lossy` reads them.
pub uninterp spec fn path_text(path: PathBuf) -> Seq<char>;

/// The path that `text` spells.
///
/// Trusted: `PathBuf::from` keeps the text it is given, so the path it
/// returns reads as `text`.
#[verifier::external_body]
pub(crate) fn path_from(text: &str) -> (path: PathBuf)
    ensures
        path_text(path) == text@,
{
    PathBuf::from(text)
}

} // verus!

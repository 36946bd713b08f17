//! File-system path helpers.

use vstd::prelude::*;

verus! {

/// The stem (final component without its extension) that `std::path::Path::file_stem`
/// gives for the path spelled `path`, as text.
pub uninterp spec fn path_file_stem(path: Seq<char>) -> Option<Seq<char>>;

/// Calls `std::path::Path::file_stem` on `path` and turns the stem into a `String`.
/// Trusted: the result is `path_file_stem` of the path's characters; nothing more
/// is claimed of `file_stem`.
#[verifier::external_body]
pub(crate) fn file_stem(path: &str) -> (r: Option<String>)
    ensures
        match r {
            Some(s) => path_file_stem(path@) == Some(s@),
            None => path_file_stem(path@) is None,
        },
{
    match std::path::Path::new(path).file_stem() {
        Some(stem) => Some(stem.to_string_lossy().into_owned()),
        None => None,
    }
}

} // verus!

//! Filesystem paths as the standard library builds them. Paths are opaque
//! here: they are made from strings and joined, never inspected.
use vstd::prelude::*;

use std::path::PathBuf;

verus! {

#[verifier::external_type_specification]
#[verifier::external_body]
pub struct ExPathBuf(PathBuf);

/// The path `PathBuf::from` makes of the string `s`.
pub uninterp spec fn path_of(s: Seq<char>) -> PathBuf;

/// The path `PathBuf::from(base).join(rest)` makes of two strings.
pub uninterp spec fn joined_path(base: Seq<char>, rest: Seq<char>) -> PathBuf;

/// `PathBuf::from(s)`: the path spelled by `s`.
#[verifier::external_body]
pub(crate) fn path_from(s: &str) -> (r: PathBuf)
    ensures
        r == path_of(s@),
{
    PathBuf::from(s)
}

/// `PathBuf::from(base).join(rest)`: `rest` appended to `base` with a
/// separator, or `rest` alone when it is absolute.
#[verifier::external_body]
pub(crate) fn path_join(base: &str, rest: &str) -> (r: PathBuf)
    ensures
        r == joined_path(base@, rest@),
{
    PathBuf::from(base).join(rest)
}

} // verus!

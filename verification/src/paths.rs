//! The boundary to `std::path`. Nothing in this file is proved; each contract
//! names the result of the std function that it stands for.
use std::path::{Path, PathBuf};
use vstd::prelude::*;

verus! {

#[verifier::external_type_specification]
#[verifier::external_body]
pub struct ExPath(Path);

#[verifier::external_type_specification]
#[verifier::external_body]
pub struct ExPathBuf(PathBuf);

/// The path without its last component: what `Path::parent` gives.
pub uninterp spec fn parent_of(path: &Path) -> Option<&Path>;

/// The path that a text denotes: what `Path::new` gives.
pub uninterp spec fn path_of(text: Seq<char>) -> &'static Path;

/// The path `base` with `name` adjoined: what `Path::join` gives.
pub uninterp spec fn joined(base: &Path, name: Seq<char>) -> PathBuf;

/// The path that an owned path holds: what `PathBuf::as_path` gives.
pub uninterp spec fn path_in(buf: &PathBuf) -> &Path;

/// `PathBuf::as_path`.
pub assume_specification[ PathBuf::as_path ](buf: &PathBuf) -> (res: &Path)
    ensures
        res == path_in(buf),
;

/// `Path::parent`.
pub assume_specification[ Path::parent ](path: &Path) -> (res: Option<&Path>)
    ensures
        res == parent_of(path),
;

/// `Path::new`, on a string literal.
#[verifier::external_body]
pub(crate) fn path_new(text: &'static str) -> (res: &'static Path)
    ensures
        res == path_of(text@),
{
    Path::new(text)
}

/// `Path::join`, with a text.
#[verifier::external_body]
pub(crate) fn path_join(base: &Path, name: &str) -> (res: PathBuf)
    ensures
        res == joined(base, name@),
{
    base.join(name)
}

} // verus!

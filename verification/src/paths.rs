//! What this crate relies on of `std::path`.
use std::path::PathBuf;
use vstd::prelude::*;

verus! {

#[verifier::external_type_specification]
#[verifier::external_body]
pub struct ExPathBuf(std::path::PathBuf);

/// The bytes that make up a path.
pub uninterp spec fn path_contents(path: PathBuf) -> Seq<u8>;

/// `PathBuf::clone` makes a path of the same bytes.
pub assume_specification[ <PathBuf as Clone>::clone ](path: &PathBuf) -> (copy: PathBuf)
    ensures
        path_contents(copy) == path_contents(*path),
;

} // verus!

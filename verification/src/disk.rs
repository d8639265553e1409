//! What is on disk right now, asked through `std::path::Path`.
//!
//! The answers depend on the disk at the moment of asking, so nothing is
//! claimed of them: a caller is verified for every answer it could get.
use vstd::prelude::*;

verus! {

/// `Path::is_file`: whether a file is at `path` right now. What is on disk
/// decides it, so nothing is claimed of the answer.
#[verifier::external_body]
pub(crate) fn is_file(path: &str) -> (r: bool) {
    std::path::Path::new(path).is_file()
}

/// `Path::is_dir`: whether a folder is at `path` right now. What is on disk
/// decides it, so nothing is claimed of the answer.
#[verifier::external_body]
pub(crate) fn is_dir(path: &str) -> (r: bool) {
    std::path::Path::new(path).is_dir()
}

} // verus!

//! Filesystem paths, carried through the library as opaque values.
use vstd::prelude::*;

verus! {

/// `std::path::PathBuf`, opaque to the proofs.
#[verifier::external_type_specification]
#[verifier::external_body]
pub struct ExPathBuf(std::path::PathBuf);

/// `PathBuf::clone`: a copy of the path. Nothing more is stated of it.
pub assume_specification [<std::path::PathBuf as std::clone::Clone>::clone](p: &std::path::PathBuf) -> std::path::PathBuf;

/// `Path::is_dir`: whether the path names a directory on disk now. What it answers
/// depends on the filesystem, so nothing is stated of it.
#[verifier::external_body]
pub(crate) fn path_is_dir(p: &std::path::PathBuf) -> (r: bool) {
    p.is_dir()
}

/// `Path::display`, as a `String`: the path's text (lossily decoded). The path is
/// opaque here, so nothing is stated of the text.
#[verifier::external_body]
pub(crate) fn path_display(p: &std::path::PathBuf) -> String {
    p.display().to_string()
}

} // verus!

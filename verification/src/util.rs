//! Filesystem odds and ends for callers of the library.

use vstd::prelude::*;

verus! {

/// Relies on `std::path::Path::exists`: reports whether the path names an
/// existing filesystem entity. The result depends on the state of the
/// filesystem, so nothing is promised of it.
#[verifier::external_body]
fn path_exists_on_disk(path: &str) -> bool {
    std::path::Path::new(path).exists()
}

/// Whether `path` names an existing filesystem entity.
pub fn path_is_exist(path: &str) -> bool {
    path_exists_on_disk(path)
}

} // verus!

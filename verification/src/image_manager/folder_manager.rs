//! Settings of the manager that resolves image manifests inside one local
//! folder.

use vstd::prelude::*;

verus! {

/// Resolves image manifests against a single folder on the host.
pub struct FolderImageManager {
    pub path: String,
}

impl FolderImageManager {
    pub fn new(path: String) -> (r: Self)
        ensures
            r.path@ == path@,
    {
        Self { path }
    }
}

} // verus!

//! Resolved images and the folder-backed image manager's configuration. The
//! filesystem lookups themselves are carried out by the surrounding binary;
//! this crate holds the resolved values.

use vstd::prelude::*;

verus! {

/// An image resolved to a path on the host.
pub struct Image {
    pub id: String,
    pub name: String,
    pub path: String,
}

/// Settings of the image manager that resolves ids inside one local folder.
pub struct FolderImageManager {
    pub path: String,
}

impl FolderImageManager {
    pub fn new(path: String) -> (r: Self)
        ensures
            r.path@ == path@,
    {
        Self { path }
    }
}

} // verus!

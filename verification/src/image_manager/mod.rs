//! Manifest-based image resolution: the manifest that names an image and
//! where to obtain it, and the settings of the two resolution strategies
//! (local folder, download with cache). The lookups and downloads themselves
//! are carried out by the surrounding binary.

pub mod folder_manager;
pub mod url_manager;

use vstd::prelude::*;

verus! {

/// An image resolved to a path on the host.
pub struct Image {
    pub id: String,
    pub path: String,
}

/// Names an image and says where it can be obtained.
pub struct ImageManifest {
    pub id: String,
    pub location: String,
}

} // verus!

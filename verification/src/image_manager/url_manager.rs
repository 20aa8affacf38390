//! Settings of the manager that downloads images into a local cache.

use vstd::prelude::*;

verus! {

/// Resolves image manifests by downloading them into a cache folder.
pub struct UrlImageManager {
    pub cache: String,
}

impl UrlImageManager {
    pub fn new(cache: String) -> (r: Self)
        ensures
            r.cache@ == cache@,
    {
        Self { cache }
    }
}

} // verus!

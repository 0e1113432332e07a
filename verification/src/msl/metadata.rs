//! Records of the raw-image service.

use vstd::prelude::*;

verus! {

/// What a listing reads of one image of the service's answer.
#[derive(Debug, Clone)]
pub struct ImageRecord {
    /// Identifier of the image.
    pub imageid: String,
    /// Where the image can be fetched.
    pub url: String,
    /// Whether the image is a thumbnail.
    pub is_thumbnail: bool,
}

} // verus!

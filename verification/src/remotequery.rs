//! What a caller asks of a raw-image service.

use vstd::prelude::*;

verus! {

/// A query for raw images: which cameras and sols, which page of the answer,
/// which images of it to list, and what to do with them.
#[derive(Debug, Clone)]
pub struct RemoteQuery {
    /// Names of the cameras, as the service files them.
    pub cameras: Vec<String>,
    /// Number of images on a page of the answer.
    pub num_per_page: i32,
    /// The page asked for; `None` asks for every page.
    pub page: Option<i32>,
    /// First sol asked for.
    pub minsol: i32,
    /// Last sol asked for.
    pub maxsol: i32,
    /// Whether thumbnails are listed too.
    pub thumbnails: bool,
    /// Whether images are listed only, not fetched.
    pub list_only: bool,
    /// Texts of which an image identifier must hold one to be listed; empty
    /// lists every image.
    pub search: Vec<String>,
    /// Whether images already on disk are left alone.
    pub only_new: bool,
    /// Directory that receives the images.
    pub output_path: String,
}

} // verus!

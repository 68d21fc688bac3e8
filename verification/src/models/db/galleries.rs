//! `galleries` table model: the album a set of photos of an Images library
//! belongs to, referenced by `images.gallery_id`.

use vstd::prelude::*;

verus! {

/// A photo album.
#[derive(Debug, Clone)]
pub struct Gallery {
    pub id: i64,
    pub library_id: i64,
    pub name: String,
    pub description: Option<String>,
    /// Cover photo URL, usually the first photo's thumbnail.
    pub cover_url: Option<String>,
    /// Earliest photo capture date, used for sorting galleries.
    pub taken_at: Option<String>,
}

} // verus!

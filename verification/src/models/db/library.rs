//! The single-path `libraries` row of the earlier schema.

use vstd::prelude::*;

verus! {

/// The library kinds of the single-path schema.
#[derive(Debug, Clone, Copy, PartialEq, Eq, Structural)]
pub enum LibraryType {
    Movies,
    TvShows,
    MusicVideos,
    Other,
}

/// A library with one root path.
#[derive(Debug, Clone)]
pub struct Library {
    pub id: i64,
    pub name: String,
    pub path: String,
    pub library_type: LibraryType,
}

} // verus!

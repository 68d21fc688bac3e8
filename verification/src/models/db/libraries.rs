//! `libraries` table model, with the folder paths a library scans.

use vstd::prelude::*;

verus! {

/// The kind of media a library holds; stored as its snake_case name.
#[derive(Debug, Clone, Copy, PartialEq, Eq, Structural)]
pub enum LibraryType {
    Movies,
    TvShows,
    Music,
    MusicVideos,
    Books,
    Images,
    Other,
}

/// A library and all of the folder paths it scans.
#[derive(Debug, Clone)]
pub struct Library {
    pub id: i64,
    pub name: String,
    pub paths: Vec<String>,
    pub library_type: LibraryType,
    /// Default reading mode for books without a per-book override. Only
    /// meaningful for `Books` libraries.
    pub default_reading_mode: Option<String>,
}

/// Raw `libraries` table row, without the associated `library_paths`.
#[derive(Debug, Clone)]
pub struct LibraryRow {
    pub id: i64,
    pub name: String,
    pub library_type: LibraryType,
    pub default_reading_mode: Option<String>,
}

} // verus!

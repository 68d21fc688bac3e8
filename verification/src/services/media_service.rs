//! Shapes of the read layer.

use vstd::prelude::*;
use crate::models::db::libraries::LibraryType;
use crate::number::int_str;
use crate::paths::{path_file_name, path_file_name_of};

verus! {

/// The direct stream URL of an item.
pub open spec fn stream_url_of(item_id: i64) -> Seq<char> {
    "/api/v1/stream/"@ + int_str(item_id as int)
}

/// The URL an item streams from directly.
pub fn stream_url(item_id: i64) -> (r: String)
    ensures
        r@ == stream_url_of(item_id),
{
    let mut out = crate::text::chars_of("/api/v1/stream/");
    crate::number::push_i64(&mut out, item_id);
    crate::text::string_from_chars(out.as_slice())
}

/// The file name shown for an item's source file: the last component of
/// its path, empty when there is none.
pub open spec fn source_file_name_of(path: Seq<char>) -> Seq<char> {
    match path_file_name_of(path) {
        Some(n) => n,
        None => Seq::empty(),
    }
}

/// The file name shown for the source file at `path`.
pub fn source_file_name(path: &str) -> (r: String)
    ensures
        r@ == source_file_name_of(path@),
{
    match path_file_name(path) {
        Some(n) => n,
        None => String::new(),
    }
}

/// What the cards of a library show, by library type.
#[derive(Debug, Clone, Copy, PartialEq, Eq, Structural)]
pub enum CardSource {
    /// One card per series.
    Series,
    /// One card per book.
    Books,
    /// One card per album.
    Albums,
    /// One streamable card per music video.
    MusicVideos,
    /// One streamable card per movie.
    Movies,
}

/// What the cards of a library of type `t` show: TV libraries list their
/// series, book libraries their books, music libraries their albums,
/// music-video libraries their videos, and every other library movies.
pub open spec fn card_source_of(t: LibraryType) -> CardSource {
    match t {
        LibraryType::TvShows => CardSource::Series,
        LibraryType::Books => CardSource::Books,
        LibraryType::Music => CardSource::Albums,
        LibraryType::MusicVideos => CardSource::MusicVideos,
        _ => CardSource::Movies,
    }
}

/// What the cards of a library of type `library_type` show.
pub fn card_source(library_type: LibraryType) -> (r: CardSource)
    ensures
        r == card_source_of(library_type),
{
    match library_type {
        LibraryType::TvShows => CardSource::Series,
        LibraryType::Books => CardSource::Books,
        LibraryType::Music => CardSource::Albums,
        LibraryType::MusicVideos => CardSource::MusicVideos,
        _ => CardSource::Movies,
    }
}

} // verus!

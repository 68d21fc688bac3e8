//! `tracks` detail row (1:1 with a `media_items` spine row of type `track`).

use vstd::prelude::*;

verus! {

/// The track-specific columns of a music item.
#[derive(Debug, Clone)]
pub struct Track {
    pub item_id: i64,
    pub album_id: Option<i64>,
    pub artist_id: Option<i64>,
    pub track_number: Option<i64>,
    pub disc_number: Option<i64>,
    pub title: Option<String>,
    pub duration: Option<i64>,
}

} // verus!

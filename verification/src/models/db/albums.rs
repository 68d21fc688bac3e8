//! `albums` table model.

use vstd::prelude::*;

verus! {

/// An album of a music library.
#[derive(Debug, Clone)]
pub struct Album {
    pub id: i64,
    pub artist_id: Option<i64>,
    pub library_id: i64,
    pub title: String,
    pub year: Option<i64>,
    pub cover_url: Option<String>,
    pub provider_ids: Option<String>,
}

} // verus!

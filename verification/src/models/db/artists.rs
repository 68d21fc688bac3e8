//! `artists` table model.

use vstd::prelude::*;

verus! {

/// An artist of a music library.
#[derive(Debug, Clone)]
pub struct Artist {
    pub id: i64,
    pub library_id: i64,
    pub name: String,
    pub bio: Option<String>,
    pub image_url: Option<String>,
    pub provider_ids: Option<String>,
}

} // verus!

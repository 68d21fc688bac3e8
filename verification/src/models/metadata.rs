//! Records that metadata providers return.

use vstd::prelude::*;

verus! {

/// A cast or crew credit.
#[derive(Debug, Clone)]
pub struct CastMember {
    pub name: String,
    pub character: String,
    /// "actor", or the job (Director, ...).
    pub role: String,
    pub profile_url: Option<String>,
    pub order: i32,
}

/// One episode of a season as a provider lists it.
#[derive(Debug, Clone)]
pub struct EpisodeMetadata {
    /// Provider-specific id (or a generic id string).
    pub id: String,
    pub episode_number: i32,
    pub season_number: i32,
    pub name: String,
    pub overview: String,
    pub still_path: Option<String>,
    pub air_date: Option<String>,
}

} // verus!

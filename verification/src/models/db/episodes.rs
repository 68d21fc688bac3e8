//! `episodes` detail row (1:1 with a `media_items` spine row of type `episode`).

use vstd::prelude::*;

verus! {

/// The episode-specific columns of a TV item.
#[derive(Debug, Clone)]
pub struct Episode {
    pub item_id: i64,
    pub season_id: Option<i64>,
    pub episode_number: Option<i64>,
    pub title: Option<String>,
    pub plot: Option<String>,
    pub still_url: Option<String>,
    pub runtime: Option<i64>,
    pub air_date: Option<String>,
}

} // verus!

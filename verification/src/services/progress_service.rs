//! Per-user playback and reading progress.

use vstd::prelude::*;

verus! {

/// A row of the "continue watching" rail; the handler adds the stream URL.
#[derive(Debug, Clone)]
pub struct ContinueWatchingRow {
    pub id: i64,
    pub item_type: String,
    pub title: Option<String>,
    pub poster_url: Option<String>,
    pub position: i64,
    pub total_duration: i64,
    pub reading_style: Option<String>,
}

/// A user's stored position and reading style for an item, `(0, None)`
/// when nothing is stored.
pub fn stored_progress(row: Option<(i64, Option<String>)>) -> (r: (i64, Option<String>))
    ensures
        r == match row {
            Some(p) => p,
            None => (0i64, None::<String>),
        },
{
    match row {
        Some(p) => p,
        None => (0, None),
    }
}

} // verus!

//! Playlist rules: ownership and names.

use vstd::prelude::*;
use crate::error::AppError;
use crate::text::{chars_of, string_from_chars, trim_chars, trimmed};

verus! {

/// Whether the caller may use a playlist with this owner (`None`: no such
/// playlist): allowed for its owner, forbidden for anyone else, not found
/// when it does not exist.
pub fn check_playlist_owner(owner: Option<i64>, user_id: i64) -> (r: Result<(), AppError>)
    ensures
        r is Ok <==> owner == Some(user_id),
        owner is None ==> (r matches Err(AppError::NotFound(m)) && m@ == "Playlist not found"@),
        (owner is Some && owner != Some(user_id)) ==> (r matches Err(AppError::Forbidden(m)) && m@
            == "Not your playlist"@),
{
    match owner {
        Some(uid) => if uid == user_id {
            Ok(())
        } else {
            Err(AppError::Forbidden(String::from_str("Not your playlist")))
        },
        None => Err(AppError::NotFound(String::from_str("Playlist not found"))),
    }
}

/// The name a new playlist gets: the trimmed name, which must not be
/// blank.
pub fn playlist_name(name: &str) -> (r: Result<String, AppError>)
    ensures
        r is Ok <==> trimmed(name@).len() > 0,
        r matches Ok(n) ==> n@ == trimmed(name@),
        r matches Err(e) ==> (e matches AppError::BadRequest(m) && m@ == "Playlist name is required"@),
{
    let cs = chars_of(name);
    let t = trim_chars(cs.as_slice());
    if t.len() == 0 {
        return Err(AppError::BadRequest(String::from_str("Playlist name is required")));
    }
    Ok(string_from_chars(t.as_slice()))
}

} // verus!

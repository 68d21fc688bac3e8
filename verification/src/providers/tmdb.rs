//! The TMDB metadata provider: its URLs, the order in which a lookup by id
//! tries TMDB's endpoints, and what its answers become.
//!
//! The HTTP requests and the JSON bodies are handled by the caller; what a
//! body holds comes here as plain values.

use vstd::prelude::*;
use crate::error::AppError;
use crate::models::metadata::EpisodeMetadata;
use crate::number::{int_str, parse_i64, parse_i64_spec, push_i64};
use crate::text::{append_str, chars_eq_str, chars_of, string_from_chars, trim_chars, trimmed};

verus! {

/// The URL of a TMDB API endpoint.
pub open spec fn api_url_of(endpoint: Seq<char>) -> Seq<char> {
    "https://api.themoviedb.org/3/"@ + endpoint
}

/// The URL of a TMDB API endpoint.
pub fn api_url(endpoint: &str) -> (r: String)
    ensures
        r@ == api_url_of(endpoint@),
{
    let mut out: Vec<char> = Vec::new();
    append_str(&mut out, "https://api.themoviedb.org/3/");
    append_str(&mut out, endpoint);
    string_from_chars(out.as_slice())
}

/// The URL of a poster image (500 px wide) at TMDB image path `path`.
pub fn poster_url(path: &str) -> (r: String)
    ensures
        r@ == "https://image.tmdb.org/t/p/w500"@ + path@,
{
    let mut out: Vec<char> = Vec::new();
    append_str(&mut out, "https://image.tmdb.org/t/p/w500");
    append_str(&mut out, path);
    string_from_chars(out.as_slice())
}

/// The URL of a backdrop image (original size) at TMDB image path `path`.
pub fn backdrop_url(path: &str) -> (r: String)
    ensures
        r@ == "https://image.tmdb.org/t/p/original"@ + path@,
{
    let mut out: Vec<char> = Vec::new();
    append_str(&mut out, "https://image.tmdb.org/t/p/original");
    append_str(&mut out, path);
    string_from_chars(out.as_slice())
}

/// The year TMDB's date text gives: its first four characters (fewer when
/// the text is shorter).
pub open spec fn year_text_of(date: Seq<char>) -> Seq<char> {
    if date.len() <= 4 {
        date
    } else {
        date.take(4)
    }
}

/// The year of a TMDB date.
pub fn year_text(date: &str) -> (r: String)
    ensures
        r@ == year_text_of(date@),
{
    let cs = chars_of(date);
    if cs.len() <= 4 {
        return string_from_chars(cs.as_slice());
    }
    let mut out: Vec<char> = Vec::new();
    let mut i: usize = 0;
    while i < 4
        invariant
            0 <= i <= 4,
            cs@.len() > 4,
            out@ == cs@.take(i as int),
        decreases 4 - i,
    {
        out.push(cs[i]);
        assert(out@ =~= cs@.take(i + 1));
        i = i + 1;
    }
    string_from_chars(out.as_slice())
}

/// The kind a TMDB search result is taken for: a movie when it has a
/// release date, else a series.
pub fn search_result_kind(has_date: bool) -> (r: &'static str)
    ensures
        r@ == (if has_date {
            "movie"@
        } else {
            "series"@
        }),
{
    if has_date {
        "movie"
    } else {
        "series"
    }
}

/// Whether requests can be made with this API key: refused when it is
/// blank.
pub fn check_api_key(api_key: &str) -> (r: Result<(), AppError>)
    ensures
        r is Ok <==> trimmed(api_key@).len() > 0,
        r matches Err(e) ==> (e matches AppError::BadRequest(m) && m@ == "TMDB API Key not set"@),
{
    let t = trim_chars(chars_of(api_key).as_slice());
    if t.len() == 0 {
        Err(AppError::BadRequest(String::from_str("TMDB API Key not set")))
    } else {
        Ok(())
    }
}

/// The API key stored in the settings (`None`: no such setting), which
/// must not be blank.
pub fn stored_api_key(stored: Option<String>) -> (r: Result<String, AppError>)
    ensures
        match stored {
            None => r matches Err(AppError::BadRequest(m)) && m@ == "TMDB API Key not found in settings"@,
            Some(k) => if trimmed(k@).len() == 0 {
                r matches Err(AppError::BadRequest(m)) && m@ == "TMDB API Key is empty in settings"@
            } else {
                r matches Ok(s) && s@ == k@
            },
        },
{
    match stored {
        None => Err(AppError::BadRequest(String::from_str("TMDB API Key not found in settings"))),
        Some(k) => {
            let t = trim_chars(chars_of(k.as_str()).as_slice());
            if t.len() == 0 {
                Err(AppError::BadRequest(String::from_str("TMDB API Key is empty in settings")))
            } else {
                Ok(k)
            }
        },
    }
}

/// The endpoints (endpoint, kind of the answer) a lookup by id tries, in
/// order: for a given media type, `movie` for movies and `tv` for anything
/// else; without one, the movie endpoint and then the TV endpoint.
pub open spec fn detail_attempts_of(media_type: Option<Seq<char>>) -> Seq<(Seq<char>, Seq<char>)> {
    match media_type {
        Some(t) => if t == "movie"@ {
            seq![("movie"@, "movie"@)]
        } else {
            seq![("tv"@, "series"@)]
        },
        None => seq![("movie"@, "movie"@), ("tv"@, "series"@)],
    }
}

/// The text of the attempts.
pub open spec fn attempts_view(v: Seq<(&'static str, &'static str)>) -> Seq<(Seq<char>, Seq<char>)> {
    v.map_values(|p: (&'static str, &'static str)| (p.0@, p.1@))
}

/// The endpoints a lookup by id tries, in order.
pub fn detail_attempts(media_type: Option<&str>) -> (r: Vec<(&'static str, &'static str)>)
    ensures
        attempts_view(r@) == detail_attempts_of(
            match media_type {
                Some(t) => Some(t@),
                None => None,
            },
        ),
{
    let mut v: Vec<(&'static str, &'static str)> = Vec::new();
    match media_type {
        Some(t) => {
            if chars_eq_str(chars_of(t).as_slice(), "movie") {
                v.push(("movie", "movie"));
            } else {
                v.push(("tv", "series"));
            }
        },
        None => {
            v.push(("movie", "movie"));
            v.push(("tv", "series"));
        },
    }
    assert(attempts_view(v@) =~= detail_attempts_of(
        match media_type {
            Some(t) => Some(t@),
            None => None,
        },
    ));
    v
}

/// The error when every attempt of a lookup by id failed.
pub open spec fn detail_miss_message(media_type: Option<Seq<char>>) -> Seq<char> {
    match media_type {
        Some(t) => if t == "series"@ || t == "tv"@ {
            "TMDB ID not found for series"@
        } else {
            "TMDB ID not found for "@ + t
        },
        None => "TMDB ID not found"@,
    }
}

/// The error of a lookup by id that found nothing.
pub fn detail_miss(media_type: Option<&str>) -> (r: AppError)
    ensures
        r matches AppError::NotFound(m) && m@ == detail_miss_message(
            match media_type {
                Some(t) => Some(t@),
                None => None,
            },
        ),
{
    match media_type {
        Some(t) => {
            let cs = chars_of(t);
            if chars_eq_str(cs.as_slice(), "series") || chars_eq_str(cs.as_slice(), "tv") {
                AppError::NotFound(String::from_str("TMDB ID not found for series"))
            } else {
                let mut out: Vec<char> = Vec::new();
                append_str(&mut out, "TMDB ID not found for ");
                crate::text::append_chars(&mut out, cs.as_slice());
                AppError::NotFound(string_from_chars(out.as_slice()))
            }
        },
        None => AppError::NotFound(String::from_str("TMDB ID not found")),
    }
}

/// The endpoint of one record: `{endpoint}/{id}`.
pub fn detail_endpoint(endpoint: &str, id: &str) -> (r: String)
    ensures
        r@ == endpoint@ + "/"@ + id@,
{
    let mut out: Vec<char> = Vec::new();
    append_str(&mut out, endpoint);
    append_str(&mut out, "/");
    append_str(&mut out, id);
    string_from_chars(out.as_slice())
}

/// The endpoint of a season's episode list: `tv/{series}/season/{n}`.
pub fn season_endpoint(series_id: &str, season_number: i32) -> (r: String)
    ensures
        r@ == "tv/"@ + series_id@ + "/season/"@ + int_str(season_number as int),
{
    let mut out: Vec<char> = Vec::new();
    append_str(&mut out, "tv/");
    append_str(&mut out, series_id);
    append_str(&mut out, "/season/");
    push_i64(&mut out, season_number as i64);
    string_from_chars(out.as_slice())
}

/// A JSON field read as text: `None` when the key is absent, `Some(None)`
/// when it holds something other than a string.
pub open spec fn field_text(f: Option<Option<String>>) -> Option<Seq<char>> {
    match f {
        Some(Some(s)) => Some(s@),
        _ => None,
    }
}

/// The first of two keys that is present (the second only when the first
/// is absent), read as text.
pub open spec fn first_present(a: Option<Option<String>>, b: Option<Option<String>>) -> Option<Seq<char>> {
    match a {
        Some(_) => field_text(a),
        None => field_text(b),
    }
}

/// Reads the first of two keys that is present.
fn first_present_text(a: Option<Option<String>>, b: Option<Option<String>>) -> (r: Option<String>)
    ensures
        match r {
            Some(s) => first_present(a, b) == Some(s@),
            None => first_present(a, b) is None,
        },
{
    let f = match a {
        Some(x) => x,
        None => match b {
            Some(y) => y,
            None => None,
        },
    };
    f
}

/// The title of a TMDB record: its `title` (movies) or, when that key is
/// absent, its `name` (series); "Unknown" when that is not a string.
pub fn record_title(title: Option<Option<String>>, name: Option<Option<String>>) -> (r: String)
    ensures
        r@ == match first_present(title, name) {
            Some(t) => t,
            None => "Unknown"@,
        },
{
    match first_present_text(title, name) {
        Some(t) => t,
        None => String::from_str("Unknown"),
    }
}

/// The year of a TMDB record: from its `release_date` or, when that key is
/// absent, its `first_air_date`.
pub fn record_year(release_date: Option<Option<String>>, first_air_date: Option<Option<String>>) -> (r:
    Option<String>)
    ensures
        match r {
            Some(y) => first_present(release_date, first_air_date) matches Some(d) && y@
                == year_text_of(d),
            None => first_present(release_date, first_air_date) is None,
        },
{
    match first_present_text(release_date, first_air_date) {
        Some(d) => Some(year_text(d.as_str())),
        None => None,
    }
}

/// The runtime of a TMDB record: its `runtime` (movies), else the first of
/// its `episode_run_time` list (series).
pub fn record_runtime(runtime: Option<i32>, episode_run_time: Option<Vec<i32>>) -> (r: Option<i32>)
    ensures
        r == match runtime {
            Some(t) => Some(t),
            None => match episode_run_time {
                Some(v) => if v@.len() > 0 {
                    Some(v@[0])
                } else {
                    None
                },
                None => None,
            },
        },
{
    match runtime {
        Some(t) => Some(t),
        None => match episode_run_time {
            Some(v) => if v.len() > 0 {
                Some(v[0])
            } else {
                None
            },
            None => None,
        },
    }
}

/// The numeric TMDB id stored for a record: the id read as a number, 0
/// when it is not one.
pub fn numeric_id(id: &str) -> (r: i64)
    ensures
        r == match parse_i64_spec(id@) {
            Some(n) => n,
            None => 0,
        },
{
    match parse_i64(chars_of(id).as_slice()) {
        Some(n) => n,
        None => 0,
    }
}

/// An episode of a TMDB season listing.
#[derive(Debug, Clone)]
pub struct TmdbEpisode {
    pub episode_number: i32,
    pub name: String,
    pub overview: String,
    pub still_path: Option<String>,
}

/// The episode metadata of a TMDB episode of season `season_number`: its
/// number doubles as its id, and its still is the 500 px image.
pub fn season_episode(ep: TmdbEpisode, season_number: i32) -> (r: EpisodeMetadata)
    ensures
        r.id@ == int_str(ep.episode_number as int),
        r.episode_number == ep.episode_number,
        r.season_number == season_number,
        r.name == ep.name,
        r.overview == ep.overview,
        match ep.still_path {
            Some(p) => r.still_path matches Some(u) && u@ == "https://image.tmdb.org/t/p/w500"@ + p@,
            None => r.still_path is None,
        },
        r.air_date is None,
{
    let mut id: Vec<char> = Vec::new();
    push_i64(&mut id, ep.episode_number as i64);
    assert(id@ =~= int_str(ep.episode_number as int));
    let still_path = match &ep.still_path {
        Some(p) => Some(poster_url(p.as_str())),
        None => None,
    };
    EpisodeMetadata {
        id: string_from_chars(id.as_slice()),
        episode_number: ep.episode_number,
        season_number,
        name: ep.name,
        overview: ep.overview,
        still_path,
        air_date: None,
    }
}

} // verus!

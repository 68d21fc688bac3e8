//! The scanner's rules for files: which files a library picks up, and what
//! a file's path says about it (series, season and episode; gallery; album
//! and artist).

use vstd::prelude::*;
use crate::models::db::libraries::LibraryType;
use crate::models::metadata::EpisodeMetadata;
use crate::number::{int_str, leading_year, parse_i64, parse_i64_spec, push_i64, year_prefix};
use crate::paths::{
    path_components, path_components_of, path_extension, path_extension_of, path_file_name,
    path_file_name_of, path_file_stem, path_file_stem_of, path_parent, path_parent_of,
    path_strip_prefix, path_strip_prefix_of,
};
use crate::pattern::{capture_group, group, regex_captures_of};
use crate::services::books::book_extensions;
use crate::services::images::{image_extensions, IMAGE_EXTENSIONS};
use crate::text::{
    append_str, chars_eq, chars_eq_str, chars_of, in_str_list, lowercase, lowercase_chars,
    nonblank, nonblank_trimmed, opt_str_view, str_views, string_from_chars, string_views,
};

verus! {

/// Video file extensions (Movies, TV, Music Videos and Other libraries).
pub open spec fn video_extensions() -> Seq<Seq<char>> {
    seq![
        "mp4"@,
        "mkv"@,
        "avi"@,
        "mov"@,
        "webm"@,
        "wmv"@,
        "m4v"@,
        "mpg"@,
        "mpeg"@,
        "flv"@,
        "ts"@,
    ]
}

/// Audio file extensions (Music libraries).
pub open spec fn audio_extensions() -> Seq<Seq<char>> {
    seq![
        "mp3"@,
        "flac"@,
        "m4a"@,
        "m4b"@,
        "aac"@,
        "ogg"@,
        "oga"@,
        "opus"@,
        "wav"@,
        "wma"@,
        "alac"@,
        "aiff"@,
        "aif"@,
        "ape"@,
        "wv"@,
        "mpc"@,
    ]
}

/// The extensions a library of type `t` scans.
pub open spec fn scan_extensions(t: LibraryType) -> Seq<Seq<char>> {
    match t {
        LibraryType::Books => book_extensions(),
        LibraryType::Music => audio_extensions(),
        LibraryType::Images => image_extensions(),
        _ => video_extensions(),
    }
}

/// Whether a library of type `t` picks up the file at `path`: its
/// extension, lowercased, is one the library type scans.
pub open spec fn scans_file(t: LibraryType, path: Seq<char>) -> bool {
    match path_extension_of(path) {
        Some(ext) => scan_extensions(t).contains(lowercase(ext)),
        None => false,
    }
}

/// A video library (Movies, TV shows, Music Videos, Other) picks up a file
/// exactly when the file has an extension that, lowercased, is one of mp4,
/// mkv, avi, mov, webm, wmv, m4v, mpg, mpeg, flv or ts; a Music library
/// exactly when it is one of mp3, flac, m4a, m4b, aac, ogg, oga, opus,
/// wav, wma, alac, aiff, aif, ape, wv or mpc; a Books library exactly when
/// it is pdf, cbz or epub; an Images library exactly when it is one of jpg,
/// jpeg, png, gif, webp, bmp, tiff, tif, heic or heif.
pub proof fn scanned_extensions(t: LibraryType, path: Seq<char>)
    ensures
        path_extension_of(path) is None ==> !scans_file(t, path),
        ({
            let e = lowercase(path_extension_of(path)->0);
            &&& (t == LibraryType::Movies || t == LibraryType::TvShows || t
                == LibraryType::MusicVideos || t == LibraryType::Other) && path_extension_of(path) is Some
                ==> (scans_file(t, path) <==> (e == "mp4"@ || e == "mkv"@ || e == "avi"@ || e == "mov"@ || e == "webm"@ || e == "wmv"@ || e == "m4v"@ || e == "mpg"@ || e == "mpeg"@ || e == "flv"@ || e == "ts"@))
            &&& t == LibraryType::Music && path_extension_of(path) is Some ==> (scans_file(t, path)
                <==> (e == "mp3"@ || e == "flac"@ || e == "m4a"@ || e == "m4b"@ || e == "aac"@ || e == "ogg"@ || e == "oga"@ || e == "opus"@ || e == "wav"@ || e == "wma"@ || e == "alac"@ || e == "aiff"@ || e == "aif"@ || e == "ape"@ || e == "wv"@ || e == "mpc"@))
            &&& t == LibraryType::Books && path_extension_of(path) is Some ==> (scans_file(t, path)
                <==> (e == "pdf"@ || e == "cbz"@ || e == "epub"@))
            &&& t == LibraryType::Images && path_extension_of(path) is Some ==> (scans_file(t, path)
                <==> (e == "jpg"@ || e == "jpeg"@ || e == "png"@ || e == "gif"@ || e == "webp"@ || e == "bmp"@ || e == "tiff"@ || e == "tif"@ || e == "heic"@ || e == "heif"@))
        }),
{
    if path_extension_of(path) is Some {
        let e = lowercase(path_extension_of(path)->0);
        let v = video_extensions();
        assert(v.contains(e) <==> (e == "mp4"@ || e == "mkv"@ || e == "avi"@ || e == "mov"@ || e == "webm"@ || e == "wmv"@ || e == "m4v"@ || e == "mpg"@ || e == "mpeg"@ || e == "flv"@ || e == "ts"@)) by {
            if v.contains(e) {
                let i = choose|i: int| 0 <= i < v.len() && v[i] == e;
                assert(v[i] == e);
            }
            if e == "mp4"@ { assert(v[0] == e); }
            if e == "mkv"@ { assert(v[1] == e); }
            if e == "avi"@ { assert(v[2] == e); }
            if e == "mov"@ { assert(v[3] == e); }
            if e == "webm"@ { assert(v[4] == e); }
            if e == "wmv"@ { assert(v[5] == e); }
            if e == "m4v"@ { assert(v[6] == e); }
            if e == "mpg"@ { assert(v[7] == e); }
            if e == "mpeg"@ { assert(v[8] == e); }
            if e == "flv"@ { assert(v[9] == e); }
            if e == "ts"@ { assert(v[10] == e); }
        }
        let a = audio_extensions();
        assert(a.contains(e) <==> (e == "mp3"@ || e == "flac"@ || e == "m4a"@ || e == "m4b"@ || e == "aac"@ || e == "ogg"@ || e == "oga"@ || e == "opus"@ || e == "wav"@ || e == "wma"@ || e == "alac"@ || e == "aiff"@ || e == "aif"@ || e == "ape"@ || e == "wv"@ || e == "mpc"@)) by {
            if a.contains(e) {
                let i = choose|i: int| 0 <= i < a.len() && a[i] == e;
                assert(a[i] == e);
            }
            if e == "mp3"@ { assert(a[0] == e); }
            if e == "flac"@ { assert(a[1] == e); }
            if e == "m4a"@ { assert(a[2] == e); }
            if e == "m4b"@ { assert(a[3] == e); }
            if e == "aac"@ { assert(a[4] == e); }
            if e == "ogg"@ { assert(a[5] == e); }
            if e == "oga"@ { assert(a[6] == e); }
            if e == "opus"@ { assert(a[7] == e); }
            if e == "wav"@ { assert(a[8] == e); }
            if e == "wma"@ { assert(a[9] == e); }
            if e == "alac"@ { assert(a[10] == e); }
            if e == "aiff"@ { assert(a[11] == e); }
            if e == "aif"@ { assert(a[12] == e); }
            if e == "ape"@ { assert(a[13] == e); }
            if e == "wv"@ { assert(a[14] == e); }
            if e == "mpc"@ { assert(a[15] == e); }
        }
        let b = book_extensions();
        assert(b.contains(e) <==> (e == "pdf"@ || e == "cbz"@ || e == "epub"@)) by {
            if b.contains(e) {
                let i = choose|i: int| 0 <= i < b.len() && b[i] == e;
                assert(b[i] == e);
            }
            if e == "pdf"@ { assert(b[0] == e); }
            if e == "cbz"@ { assert(b[1] == e); }
            if e == "epub"@ { assert(b[2] == e); }
        }
        let g = image_extensions();
        assert(g.contains(e) <==> (e == "jpg"@ || e == "jpeg"@ || e == "png"@ || e == "gif"@ || e == "webp"@ || e == "bmp"@ || e == "tiff"@ || e == "tif"@ || e == "heic"@ || e == "heif"@)) by {
            if g.contains(e) {
                let i = choose|i: int| 0 <= i < g.len() && g[i] == e;
                assert(g[i] == e);
            }
            if e == "jpg"@ { assert(g[0] == e); }
            if e == "jpeg"@ { assert(g[1] == e); }
            if e == "png"@ { assert(g[2] == e); }
            if e == "gif"@ { assert(g[3] == e); }
            if e == "webp"@ { assert(g[4] == e); }
            if e == "bmp"@ { assert(g[5] == e); }
            if e == "tiff"@ { assert(g[6] == e); }
            if e == "tif"@ { assert(g[7] == e); }
            if e == "heic"@ { assert(g[8] == e); }
            if e == "heif"@ { assert(g[9] == e); }
        }
    }
}

/// Whether a library of type `library_type` picks up the file at `path`.
pub fn library_scans_file(library_type: LibraryType, path: &str) -> (r: bool)
    ensures
        r == scans_file(library_type, path@),
{
    let ext = match path_extension(path) {
        Some(e) => e,
        None => {
            return false;
        },
    };
    let e = chars_of(ext.as_str());
    let low = lowercase_chars(e.as_slice());
    match library_type {
        LibraryType::Books => {
            let list: [&str; 3] = ["pdf", "cbz", "epub"];
            assert(str_views(list@) =~= book_extensions());
            in_str_list(low.as_slice(), &list)
        },
        LibraryType::Music => {
            let list: [&str; 16] = [
                "mp3",
                "flac",
                "m4a",
                "m4b",
                "aac",
                "ogg",
                "oga",
                "opus",
                "wav",
                "wma",
                "alac",
                "aiff",
                "aif",
                "ape",
                "wv",
                "mpc",
            ];
            assert(str_views(list@) =~= audio_extensions());
            in_str_list(low.as_slice(), &list)
        },
        LibraryType::Images => {
            let list = IMAGE_EXTENSIONS;
            assert(str_views(list@) =~= image_extensions());
            in_str_list(low.as_slice(), &list)
        },
        _ => {
            let list: [&str; 11] = [
                "mp4",
                "mkv",
                "avi",
                "mov",
                "webm",
                "wmv",
                "m4v",
                "mpg",
                "mpeg",
                "flv",
                "ts",
            ];
            assert(str_views(list@) =~= video_extensions());
            in_str_list(low.as_slice(), &list)
        },
    }
}

/// The item type a video file of a library of type `t` becomes.
pub open spec fn video_item_type_of(t: LibraryType) -> Seq<char> {
    match t {
        LibraryType::TvShows => "episode"@,
        LibraryType::MusicVideos => "music_video"@,
        _ => "movie"@,
    }
}

/// The item type a video file of a library of type `library_type` becomes:
/// TV libraries hold episodes, music-video libraries music videos, and all
/// others movies.
pub fn video_item_type(library_type: LibraryType) -> (r: &'static str)
    ensures
        r@ == video_item_type_of(library_type),
{
    match library_type {
        LibraryType::TvShows => "episode",
        LibraryType::MusicVideos => "music_video",
        _ => "movie",
    }
}

/// The patterns an episode number is looked for with, in order: `S01E05`,
/// `1x05`, `Episode 5`/`Ep5`, `- 05 -`, and `E05`.
pub open spec fn episode_patterns() -> Seq<Seq<char>> {
    seq![
        "s\\d+e(\\d+)"@,
        "\\d+x(\\d+)"@,
        "ep(?:isode)?\\s*(\\d+)"@,
        "[-\\s](\\d{1,3})[-\\s]"@,
        "(?:^|\\s)e(\\d+)"@,
    ]
}

/// The first episode number that pattern `k` or a later one finds in the
/// lowercased name: the first capture group, when it reads as an `i64`.
pub open spec fn episode_from(lower: Seq<char>, k: int) -> Option<i64>
    decreases 5 - k,
{
    if k < 0 || k >= 5 {
        None
    } else {
        match group(regex_captures_of(episode_patterns()[k], lower), 1) {
            Some(g) => match parse_i64_spec(g) {
                Some(n) => Some(n),
                None => episode_from(lower, k + 1),
            },
            None => episode_from(lower, k + 1),
        }
    }
}

/// The episode number a file name holds, if any.
pub open spec fn episode_number_of(filename: Seq<char>) -> Option<i64> {
    episode_from(lowercase(filename), 0)
}

/// The episode number a file name holds, by the first of the episode
/// patterns that matches the lowercased name with a number.
pub fn parse_episode_number(filename: &str) -> (r: Option<i64>)
    ensures
        r == episode_number_of(filename@),
{
    let cs = chars_of(filename);
    let low = lowercase_chars(cs.as_slice());
    let lower = string_from_chars(low.as_slice());
    let patterns: [&str; 5] = [
        "s\\d+e(\\d+)",
        "\\d+x(\\d+)",
        "ep(?:isode)?\\s*(\\d+)",
        "[-\\s](\\d{1,3})[-\\s]",
        "(?:^|\\s)e(\\d+)",
    ];
    assert(str_views(patterns@) =~= episode_patterns());
    let mut k: usize = 0;
    while k < 5
        invariant
            0 <= k <= 5,
            lower@ == lowercase(filename@),
            str_views(patterns@) == episode_patterns(),
            episode_number_of(filename@) == episode_from(lower@, k as int),
        decreases 5 - k,
    {
        assert(patterns@[k as int]@ == episode_patterns()[k as int]);
        if let Some(g) = capture_group(patterns[k], lower.as_str(), 1) {
            let gc = chars_of(g.as_str());
            if let Some(n) = parse_i64(gc.as_slice()) {
                return Some(n);
            }
        }
        k = k + 1;
    }
    None
}

/// The season a (lowercased) season folder names: the number after
/// "season", or 1.
pub open spec fn season_of(folder: Seq<char>) -> i64 {
    match group(regex_captures_of("season\\s*(\\d+)"@, folder), 1) {
        Some(g) => match parse_i64_spec(g) {
            Some(n) => n,
            None => 1,
        },
        None => 1,
    }
}

/// The season number of a season folder is the decimal number that the
/// pattern `season\s*(\d+)` (the word "season", optional white space, then
/// one or more digits) captures in the lowercased folder name, whatever
/// its number of digits; a folder without such a number is season 1.
pub proof fn season_folder_number(folder: Seq<char>, n: i64)
    ensures
        n >= 0 && group(regex_captures_of("season\\s*(\\d+)"@, folder), 1) == Some(
            crate::number::dec_str(n as nat),
        ) ==> season_of(folder) == n,
        group(regex_captures_of("season\\s*(\\d+)"@, folder), 1) is None ==> season_of(folder)
            == 1,
{
    if n >= 0 {
        crate::number::lemma_parse_dec_str(n);
    }
}

fn season_number(folder_lower: &str) -> (r: i64)
    ensures
        r == season_of(folder_lower@),
{
    match capture_group("season\\s*(\\d+)", folder_lower, 1) {
        Some(g) => {
            let gc = chars_of(g.as_str());
            match parse_i64(gc.as_slice()) {
                Some(n) => n,
                None => 1,
            }
        },
        None => 1,
    }
}

/// Series, season and episode of a video file under a TV library root:
/// `Series/Season N/file` (season from the folder name), `Series/file`
/// (season 1), or a file directly in the root (the library's name as the
/// series, season 1); the episode number comes from the file name, else 1.
/// Nothing when the file is not under the root or has no file name.
pub open spec fn tv_show_info(path: Seq<char>, root: Seq<char>, library_name: Seq<char>) -> Option<
    (Seq<char>, i64, i64),
> {
    match path_strip_prefix_of(path, root) {
        None => None,
        Some(rel) => {
            let comps = path_components_of(rel);
            if comps.len() == 0 {
                None
            } else {
                match path_file_stem_of(path) {
                    None => None,
                    Some(stem) => {
                        let ep = match episode_number_of(stem) {
                            Some(n) => n,
                            None => 1,
                        };
                        if comps.len() >= 3 {
                            Some((comps[0], season_of(lowercase(comps[1])), ep))
                        } else if comps.len() == 2 {
                            Some((comps[0], 1, ep))
                        } else {
                            Some((library_name, 1, ep))
                        }
                    },
                }
            }
        },
    }
}

/// The view of a parsed TV file position.
pub open spec fn tv_view(r: Option<(String, i64, i64)>) -> Option<(Seq<char>, i64, i64)> {
    match r {
        Some((s, a, b)) => Some((s@, a, b)),
        None => None,
    }
}

/// Series name, season number and episode number of a file in a TV
/// library.
pub fn parse_tv_show_info(path: &str, library_path: &str, library_name: &str) -> (r: Option<
    (String, i64, i64),
>)
    ensures
        tv_view(r) == tv_show_info(path@, library_path@, library_name@),
{
    let relative = match path_strip_prefix(path, library_path) {
        Some(rel) => rel,
        None => {
            return None;
        },
    };
    let components = path_components(relative.as_str());
    if components.len() == 0 {
        return None;
    }
    let filename = match path_file_stem(path) {
        Some(f) => f,
        None => {
            return None;
        },
    };
    let episode_number = match parse_episode_number(filename.as_str()) {
        Some(n) => n,
        None => 1,
    };
    assert(string_views(components@)[0] == components@[0]@);
    if components.len() >= 3 {
        assert(string_views(components@)[1] == components@[1]@);
        let series_name = components[0].clone();
        let sf = chars_of(components[1].as_str());
        let low = lowercase_chars(sf.as_slice());
        let season_folder = string_from_chars(low.as_slice());
        let season = season_number(season_folder.as_str());
        return Some((series_name, season, episode_number));
    }
    if components.len() == 2 {
        return Some((components[0].clone(), 1, episode_number));
    }
    Some((String::from_str(library_name), 1, episode_number))
}

/// The book series a book file belongs to: the series folder it sits in
/// (when that is not the library itself), with its chapter number.
pub open spec fn book_series_of(path: Seq<char>, root: Seq<char>, library_name: Seq<char>) -> Option<
    (Seq<char>, i64),
> {
    match tv_show_info(path, root, library_name) {
        Some((series, _, chapter)) => if series != library_name {
            Some((series, chapter))
        } else {
            None
        },
        None => None,
    }
}

/// The series folder and chapter number of a book file, if it sits in a
/// series folder.
pub fn book_series(path: &str, root_path: &str, library_name: &str) -> (r: Option<(String, i64)>)
    ensures
        match r {
            Some((s, c)) => book_series_of(path@, root_path@, library_name@) == Some((s@, c)),
            None => book_series_of(path@, root_path@, library_name@) is None,
        },
{
    match parse_tv_show_info(path, root_path, library_name) {
        Some((series_name, _, ep_num)) => {
            let sc = chars_of(series_name.as_str());
            let lc = chars_of(library_name);
            if !chars_eq(sc.as_slice(), lc.as_slice()) {
                Some((series_name, ep_num))
            } else {
                None
            }
        },
        None => None,
    }
}

/// A file's stem, or "Unknown" when it has none.
pub open spec fn stem_or_unknown(path: Seq<char>) -> Seq<char> {
    match path_file_stem_of(path) {
        Some(s) => s,
        None => "Unknown"@,
    }
}

/// The name an item falls back to: the file's stem, or "Unknown".
pub fn file_stem_or_unknown(path: &str) -> (r: String)
    ensures
        r@ == stem_or_unknown(path@),
{
    match path_file_stem(path) {
        Some(s) => s,
        None => String::from_str("Unknown"),
    }
}

/// The gallery (album) of a photo: its folder's name when the folder is
/// not the scan root itself, else the scan root's name, else the library's
/// name.
pub open spec fn gallery_name_of(path: Seq<char>, root: Seq<char>, library_name: Seq<char>) -> Seq<
    char,
> {
    let from_parent = match path_parent_of(path) {
        Some(p) => if p != root {
            path_file_name_of(p)
        } else {
            None
        },
        None => None,
    };
    match from_parent {
        Some(n) => n,
        None => match path_file_name_of(root) {
            Some(n) => n,
            None => library_name,
        },
    }
}

/// The gallery name of a photo found at `path` under the scan root
/// `root_path`.
pub fn gallery_name(path: &str, root_path: &str, library_name: &str) -> (r: String)
    ensures
        r@ == gallery_name_of(path@, root_path@, library_name@),
{
    if let Some(p) = path_parent(path) {
        let pc = chars_of(p.as_str());
        let rc = chars_of(root_path);
        if !chars_eq(pc.as_slice(), rc.as_slice()) {
            if let Some(n) = path_file_name(p.as_str()) {
                return n;
            }
        }
    }
    match path_file_name(root_path) {
        Some(n) => n,
        None => String::from_str(library_name),
    }
}

/// The artist, album and title a track is filed under: the trimmed tags
/// when not blank, else "Unknown Artist"; the album folder's name or
/// "Unknown Album"; and the file's name.
pub open spec fn track_names_of(
    path: Seq<char>,
    artist: Option<Seq<char>>,
    album: Option<Seq<char>>,
    title: Option<Seq<char>>,
    file_stem: Seq<char>,
) -> (Seq<char>, Seq<char>, Seq<char>) {
    (
        match nonblank(artist) {
            Some(a) => a,
            None => "Unknown Artist"@,
        },
        match nonblank(album) {
            Some(a) => a,
            None => match path_parent_of(path) {
                Some(p) => match path_file_name_of(p) {
                    Some(n) => n,
                    None => "Unknown Album"@,
                },
                None => "Unknown Album"@,
            },
        },
        match nonblank(title) {
            Some(t) => t,
            None => file_stem,
        },
    )
}

/// Artist, album and title of the track at `path` from its tags.
pub fn track_names(
    path: &str,
    artist: Option<&str>,
    album: Option<&str>,
    title: Option<&str>,
    file_stem: &str,
) -> (r: (String, String, String))
    ensures
        (r.0@, r.1@, r.2@) == track_names_of(
            path@,
            opt_str_view(artist),
            opt_str_view(album),
            opt_str_view(title),
            file_stem@,
        ),
{
    let artist_name = match nonblank_trimmed(artist) {
        Some(a) => a,
        None => String::from_str("Unknown Artist"),
    };
    let album_title = match nonblank_trimmed(album) {
        Some(a) => a,
        None => match path_parent(path) {
            Some(p) => match path_file_name(p.as_str()) {
                Some(n) => n,
                None => String::from_str("Unknown Album"),
            },
            None => String::from_str("Unknown Album"),
        },
    };
    let track_title = match nonblank_trimmed(title) {
        Some(t) => t,
        None => String::from_str(file_stem),
    };
    (artist_name, album_title, track_title)
}

/// The position, in a provider's season listing, of the first episode with
/// this number.
pub fn find_episode(episodes: &Vec<EpisodeMetadata>, episode_number: i64) -> (r: Option<usize>)
    ensures
        match r {
            Some(i) => i < episodes@.len() && episodes@[i as int].episode_number as i64
                == episode_number && forall|j: int|
                0 <= j < i ==> episodes@[j].episode_number as i64 != episode_number,
            None => forall|j: int|
                0 <= j < episodes@.len() ==> episodes@[j].episode_number as i64 != episode_number,
        },
{
    let mut i: usize = 0;
    while i < episodes.len()
        invariant
            0 <= i <= episodes@.len(),
            forall|j: int| 0 <= j < i ==> episodes@[j].episode_number as i64 != episode_number,
        decreases episodes@.len() - i,
    {
        if episodes[i].episode_number as i64 == episode_number {
            return Some(i);
        }
        i = i + 1;
    }
    None
}

/// What scanning does with a video file after filing it, by library type.
#[derive(Debug, Clone, Copy, PartialEq, Eq, Structural)]
pub enum VideoIngest {
    /// A music video, titled by its file name.
    MusicVideo,
    /// A bare movie entry titled by its file name (Other libraries).
    Stub,
    /// An episode placed in its series and season.
    Episode,
    /// A movie, enriched with fetched metadata.
    Movie,
}

/// What scanning does with a video file of a library of type `t`.
pub open spec fn video_ingest_of(t: LibraryType) -> VideoIngest {
    match t {
        LibraryType::MusicVideos => VideoIngest::MusicVideo,
        LibraryType::Other => VideoIngest::Stub,
        LibraryType::TvShows => VideoIngest::Episode,
        _ => VideoIngest::Movie,
    }
}

/// What scanning does with a video file of a library of type
/// `library_type`.
pub fn video_ingest(library_type: LibraryType) -> (r: VideoIngest)
    ensures
        r == video_ingest_of(library_type),
{
    match library_type {
        LibraryType::MusicVideos => VideoIngest::MusicVideo,
        LibraryType::Other => VideoIngest::Stub,
        LibraryType::TvShows => VideoIngest::Episode,
        _ => VideoIngest::Movie,
    }
}

/// Whether a quick scan (no forced refresh) leaves a file alone because the
/// library already holds it, so that manual edits survive.
pub fn fast_scan_skips(force_refresh: bool, already_known: bool) -> (r: bool)
    ensures
        r == (!force_refresh && already_known),
{
    !force_refresh && already_known
}

/// Whether a movie is (re)enriched: on a forced refresh, or when its stored
/// row (`None`: no row) has no poster yet.
pub fn movie_needs_metadata(force_refresh: bool, stored_poster: Option<Option<String>>) -> (r: bool)
    ensures
        r == (force_refresh || !(stored_poster matches Some(Some(_)))),
{
    force_refresh || !matches!(stored_poster, Some(Some(_)))
}

/// Whether an episode's provider details are fetched: on a forced refresh,
/// or when its stored plot (`None`: no row) is missing or empty.
pub fn episode_needs_metadata(force_refresh: bool, stored_plot: Option<Option<String>>) -> (r: bool)
    ensures
        r == (force_refresh || !(stored_plot matches Some(Some(p)) && p@.len() > 0)),
{
    if force_refresh {
        return true;
    }
    match stored_plot {
        Some(Some(p)) => p.as_str().unicode_len() == 0,
        _ => true,
    }
}

/// Whether series-level metadata is (re)applied: on a forced refresh, or
/// when the series has no poster yet, so a new episode does not undo edits
/// to the series.
pub fn series_needs_metadata(force_refresh: bool, stored_poster: Option<Option<String>>) -> (r: bool)
    ensures
        r == (force_refresh || !(stored_poster matches Some(Some(_)))),
{
    force_refresh || !matches!(stored_poster, Some(Some(_)))
}

/// The series, season and episode an episode file is filed under: what its
/// path says, else the library's name, season 1, episode 1.
pub open spec fn episode_placement_of(path: Seq<char>, root: Seq<char>, library_name: Seq<char>) -> (
    Seq<char>,
    i64,
    i64,
) {
    match tv_show_info(path, root, library_name) {
        Some(t) => t,
        None => (library_name, 1, 1),
    }
}

/// The series, season and episode an episode file is filed under.
pub fn episode_placement(path: &str, root_path: &str, library_name: &str) -> (r: (String, i64, i64))
    ensures
        (r.0@, r.1, r.2) == episode_placement_of(path@, root_path@, library_name@),
{
    match parse_tv_show_info(path, root_path, library_name) {
        Some(t) => t,
        None => (String::from_str(library_name), 1, 1),
    }
}

/// The year of a track: the year tag, else the recording date, read from
/// its first four characters.
pub fn tag_year(year: Option<&str>, recording_date: Option<&str>) -> (r: Option<i64>)
    ensures
        r == match year {
            Some(y) => leading_year(y@),
            None => match recording_date {
                Some(d) => leading_year(d@),
                None => None,
            },
        },
{
    match year {
        Some(y) => year_prefix(y),
        None => match recording_date {
            Some(d) => year_prefix(d),
            None => None,
        },
    }
}

/// The file extension of embedded cover art with MIME type `mime`: `png`
/// for PNG, `jpg` for anything else.
pub fn cover_extension(mime: Option<&str>) -> (r: &'static str)
    ensures
        (mime matches Some(m) && m@ == "image/png"@) ==> r@ == "png"@,
        !(mime matches Some(m) && m@ == "image/png"@) ==> r@ == "jpg"@,
{
    match mime {
        Some(m) => {
            let cs = chars_of(m);
            if chars_eq_str(cs.as_slice(), "image/png") {
                "png"
            } else {
                "jpg"
            }
        },
        None => "jpg",
    }
}

/// The file name of an album's saved cover: `album_{id}.{ext}`.
pub open spec fn album_cover_file_of(album_id: i64, ext: Seq<char>) -> Seq<char> {
    "album_"@ + int_str(album_id as int) + "."@ + ext
}

/// The file name under which an album's embedded cover is saved.
pub fn album_cover_file(album_id: i64, ext: &str) -> (r: String)
    ensures
        r@ == album_cover_file_of(album_id, ext@),
{
    let mut out: Vec<char> = Vec::new();
    append_str(&mut out, "album_");
    push_i64(&mut out, album_id);
    append_str(&mut out, ".");
    append_str(&mut out, ext);
    assert(out@ =~= album_cover_file_of(album_id, ext@));
    string_from_chars(out.as_slice())
}

/// The URL a saved image file is served from.
pub fn saved_image_url(file_name: &str) -> (r: String)
    ensures
        r@ == "/api/v1/images/"@ + file_name@,
{
    let mut out: Vec<char> = Vec::new();
    append_str(&mut out, "/api/v1/images/");
    append_str(&mut out, file_name);
    string_from_chars(out.as_slice())
}

/// The URL of a photo's thumbnail, which the first photo of a gallery
/// lends it as its cover.
pub fn photo_thumbnail_url(item_id: i64) -> (r: String)
    ensures
        r@ == "/api/v1/media/"@ + int_str(item_id as int) + "/thumbnail"@,
{
    let mut out: Vec<char> = Vec::new();
    append_str(&mut out, "/api/v1/media/");
    push_i64(&mut out, item_id);
    append_str(&mut out, "/thumbnail");
    string_from_chars(out.as_slice())
}

} // verus!

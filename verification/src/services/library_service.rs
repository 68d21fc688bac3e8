//! Library management: a library's folder paths, and browsing its folders.
//!
//! Browsing reads directories, which is left to the caller; what is decided
//! here is which folders a request may read, what entry each directory
//! item becomes, which media item an entry shows, and the order of the
//! listing.

use vstd::prelude::*;
use crate::error::AppError;
use crate::models::db::libraries::{Library, LibraryRow, LibraryType};
use crate::paths::{
    path_join, path_join_of, path_starts_with, path_starts_with_of, path_strip_prefix,
    path_strip_prefix_of,
};
use crate::services::scanner::{library_scans_file, scans_file};
use crate::sort::{
    asymmetric, not_after_transitive, pairwise_sorted, stable_sort, stable_sorted,
    stable_sorted_is_pairwise_sorted, stable_sorted_is_permutation, SortOrder,
};
use crate::text::{
    chars_of, lemma_lex_less_asymmetric, lemma_lex_not_less_transitive, lex_less, opt_string_view, str_less, string_from_chars,
    string_views,
};

verus! {

/// A library row together with its folder paths.
pub fn hydrate(row: LibraryRow, paths: Vec<String>) -> (r: Library)
    ensures
        r.id == row.id,
        r.name == row.name,
        r.paths == paths,
        r.library_type == row.library_type,
        r.default_reading_mode == row.default_reading_mode,
{
    Library {
        id: row.id,
        name: row.name,
        paths,
        library_type: row.library_type,
        default_reading_mode: row.default_reading_mode,
    }
}

/// The path kept in a library's legacy `path` column: its first folder, or
/// the empty string for a library without one.
pub fn primary_path(paths: &Vec<String>) -> (r: String)
    ensures
        r@ == (if paths@.len() > 0 {
            paths@[0]@
        } else {
            Seq::<char>::empty()
        }),
{
    if paths.len() > 0 {
        paths[0].clone()
    } else {
        String::new()
    }
}

/// Whether `s` contains `..` anywhere.
pub open spec fn has_dot_dot(s: Seq<char>) -> bool {
    exists|i: int| 0 <= i && i + 1 < s.len() && #[trigger] s[i] == '.' && s[i + 1] == '.'
}

/// Whether `s` contains `..` anywhere.
pub fn contains_dot_dot(s: &str) -> (r: bool)
    ensures
        r == has_dot_dot(s@),
{
    let cs = chars_of(s);
    let mut i: usize = 0;
    while i < cs.len()
        invariant
            cs@ == s@,
            forall|k: int| 0 <= k < i && k + 1 < cs@.len() ==> !(#[trigger] cs@[k] == '.' && cs@[k + 1] == '.'),
        decreases cs@.len() - i,
    {
        if i + 1 < cs.len() && cs[i] == '.' && cs[i + 1] == '.' {
            return true;
        }
        i = i + 1;
    }
    false
}

/// The folders a browse request reads, each paired with the library root
/// that the entries' paths are made relative to.
pub enum BrowseTargets {
    /// Read every one of these folders, merging their entries.
    All(Vec<(String, String)>),
    /// Read the first of these folders that exists; if none exists the
    /// path lies outside the library.
    FirstExisting(Vec<(String, String)>),
}

/// The text of each pair.
pub open spec fn pair_views(v: Seq<(String, String)>) -> Seq<(Seq<char>, Seq<char>)> {
    v.map_values(|p: (String, String)| (p.0@, p.1@))
}

/// Each root read as itself.
pub open spec fn root_targets(roots: Seq<Seq<char>>) -> Seq<(Seq<char>, Seq<char>)> {
    roots.map_values(|r: Seq<char>| (r, r))
}

/// For each root in order, the relative path joined onto it, kept where
/// the result still lies under that root.
pub open spec fn candidate_targets(roots: Seq<Seq<char>>, rel: Seq<char>) -> Seq<(Seq<char>, Seq<char>)>
    decreases roots.len(),
{
    if roots.len() == 0 {
        Seq::empty()
    } else {
        let rest = candidate_targets(roots.drop_last(), rel);
        let root = roots.last();
        let c = path_join_of(root, rel);
        if path_starts_with_of(c, root) {
            rest.push((c, root))
        } else {
            rest
        }
    }
}

/// The relative path of a request, empty when none is given.
pub open spec fn requested_path(relative_path: Option<String>) -> Seq<char> {
    match relative_path {
        Some(p) => p@,
        None => Seq::empty(),
    }
}

/// Which folders browsing a library with these folder paths reads for a
/// request: nothing for a library without folders; a path containing `..`
/// is refused; no path lists every root; a path is looked up under each
/// root in turn.
pub fn browse_targets(paths: &Vec<String>, relative_path: Option<String>) -> (r: Result<
    BrowseTargets,
    AppError,
>)
    ensures
        paths@.len() == 0 ==> (r matches Ok(BrowseTargets::All(v)) && v@.len() == 0),
        paths@.len() > 0 && has_dot_dot(requested_path(relative_path)) ==> (r matches Err(
            AppError::BadRequest(m),
        ) && m@ == "Invalid path"@),
        paths@.len() > 0 && !has_dot_dot(requested_path(relative_path)) && requested_path(
            relative_path,
        ).len() == 0 ==> (r matches Ok(BrowseTargets::All(v)) && pair_views(v@) == root_targets(
            string_views(paths@),
        )),
        paths@.len() > 0 && !has_dot_dot(requested_path(relative_path)) && requested_path(
            relative_path,
        ).len() > 0 ==> (r matches Ok(BrowseTargets::FirstExisting(v)) && pair_views(v@)
            == candidate_targets(string_views(paths@), requested_path(relative_path))),
{
    if paths.len() == 0 {
        return Ok(BrowseTargets::All(Vec::new()));
    }
    let rel = match relative_path {
        Some(p) => p,
        None => String::new(),
    };
    if contains_dot_dot(rel.as_str()) {
        return Err(AppError::BadRequest(String::from_str("Invalid path")));
    }
    let ghost roots = string_views(paths@);
    let mut out: Vec<(String, String)> = Vec::new();
    if rel.as_str().unicode_len() == 0 {
        let mut i: usize = 0;
        while i < paths.len()
            invariant
                0 <= i <= paths@.len(),
                roots == string_views(paths@),
                pair_views(out@) == root_targets(roots.take(i as int)),
            decreases paths@.len() - i,
        {
            let ghost before = out@;
            let pair = (paths[i].clone(), paths[i].clone());
            let ghost pv = (pair.0@, pair.1@);
            out.push(pair);
            assert(pair_views(out@) =~= pair_views(before).push(pv));
            assert(roots[i as int] == paths@[i as int]@);
            assert(pair_views(out@) =~= root_targets(roots.take(i + 1)));
            i = i + 1;
        }
        assert(roots.take(paths@.len() as int) =~= roots);
        Ok(BrowseTargets::All(out))
    } else {
        let mut i: usize = 0;
        while i < paths.len()
            invariant
                0 <= i <= paths@.len(),
                roots == string_views(paths@),
                pair_views(out@) == candidate_targets(roots.take(i as int), rel@),
            decreases paths@.len() - i,
        {
            let root = paths[i].as_str();
            let c = path_join(root, rel.as_str());
            assert(roots.take(i + 1).drop_last() =~= roots.take(i as int));
            assert(roots[i as int] == paths@[i as int]@);
            if path_starts_with(c.as_str(), root) {
                let ghost before = out@;
                let pair = (c, paths[i].clone());
                let ghost pv = (pair.0@, pair.1@);
                out.push(pair);
                assert(pair_views(out@) =~= pair_views(before).push(pv));
                assert(pair_views(out@) =~= candidate_targets(roots.take(i + 1), rel@));
            }
            i = i + 1;
        }
        assert(roots.take(paths@.len() as int) =~= roots);
        Ok(BrowseTargets::FirstExisting(out))
    }
}

/// The first candidate folder that exists (`exists` tells, for each
/// candidate, whether its folder exists); none existing means the request
/// points outside the library.
pub fn pick_existing(candidates: &Vec<(String, String)>, exists: &Vec<bool>) -> (r: Result<
    (String, String),
    AppError,
>)
    requires
        exists@.len() == candidates@.len(),
    ensures
        r is Ok <==> exists|i: int| 0 <= i < exists@.len() && #[trigger] exists@[i],
        r matches Ok(t) ==> exists|i: int|
            0 <= i < exists@.len() && #[trigger] exists@[i] && (forall|k: int|
                0 <= k < i ==> !exists@[k]) && t == candidates@[i],
        r matches Err(e) ==> (e matches AppError::BadRequest(m) && m@
            == "Path outside library root"@),
{
    let mut i: usize = 0;
    while i < candidates.len()
        invariant
            exists@.len() == candidates@.len(),
            0 <= i <= candidates@.len(),
            forall|k: int| 0 <= k < i ==> !exists@[k],
        decreases candidates@.len() - i,
    {
        if exists[i] {
            return Ok((candidates[i].0.clone(), candidates[i].1.clone()));
        }
        i = i + 1;
    }
    Err(AppError::BadRequest(String::from_str("Path outside library root")))
}

/// One item of a folder listing.
#[derive(Debug, Clone)]
pub struct FileSystemEntry {
    pub name: String,
    /// The item's path relative to its library root, with `/` separators.
    pub path: String,
    pub is_directory: bool,
    /// The media item of a video file the library has scanned.
    pub media_id: Option<i64>,
    pub poster_url: Option<String>,
}

/// `s` with every `\` turned into `/`.
pub open spec fn forward_slashes(s: Seq<char>) -> Seq<char> {
    s.map_values(|c: char|
        if c == '\\' {
            '/'
        } else {
            c
        })
}

/// The listed path of an item: its path relative to the root (the full
/// path where it does not lie under the root), with `/` separators.
pub open spec fn entry_path(full_path: Seq<char>, root: Seq<char>) -> Seq<char> {
    forward_slashes(
        match path_strip_prefix_of(full_path, root) {
            Some(rel) => rel,
            None => full_path,
        },
    )
}

/// Whether a name is hidden (starts with `.`).
pub open spec fn is_hidden(name: Seq<char>) -> bool {
    name.len() > 0 && name[0] == '.'
}

/// The path under which an item is matched to a scanned media item: a
/// file with a video extension, by its full path.
pub open spec fn lookup_path(full_path: Seq<char>, is_dir: bool) -> Option<Seq<char>> {
    if !is_dir && scans_file(LibraryType::Movies, full_path) {
        Some(full_path)
    } else {
        None
    }
}

/// The listing entry for a directory item named `name` at `full_path`
/// under `root`, with the path to match it to a media item by; hidden items
/// are not listed.
pub fn browse_entry(name: &str, full_path: &str, is_dir: bool, root: &str) -> (r: Option<
    (FileSystemEntry, Option<String>),
>)
    ensures
        r is None <==> is_hidden(name@),
        r matches Some(p) ==> {
            &&& p.0.name@ == name@
            &&& p.0.path@ == entry_path(full_path@, root@)
            &&& p.0.is_directory == is_dir
            &&& p.0.media_id is None
            &&& p.0.poster_url is None
            &&& opt_string_view(p.1) == lookup_path(full_path@, is_dir)
        },
{
    let n = chars_of(name);
    if n.len() > 0 && n[0] == '.' {
        return None;
    }
    let abs = if !is_dir && library_scans_file(LibraryType::Movies, full_path) {
        Some(string_from_chars(chars_of(full_path).as_slice()))
    } else {
        None
    };
    let rel = match path_strip_prefix(full_path, root) {
        Some(p) => p,
        None => string_from_chars(chars_of(full_path).as_slice()),
    };
    let rc = chars_of(rel.as_str());
    let mut out: Vec<char> = Vec::new();
    let mut i: usize = 0;
    while i < rc.len()
        invariant
            0 <= i <= rc@.len(),
            out@ == forward_slashes(rc@.take(i as int)),
        decreases rc@.len() - i,
    {
        if rc[i] == '\\' {
            out.push('/');
        } else {
            out.push(rc[i]);
        }
        assert(out@ =~= forward_slashes(rc@.take(i + 1)));
        i = i + 1;
    }
    assert(rc@.take(rc@.len() as int) =~= rc@);
    let entry = FileSystemEntry {
        name: string_from_chars(n.as_slice()),
        path: string_from_chars(out.as_slice()),
        is_directory: is_dir,
        media_id: None,
        poster_url: None,
    };
    Some((entry, abs))
}

/// The media item found for `path` among query results `(id, file path,
/// poster)`: the last result with that file path, as a map filled from
/// the results in order keeps it.
pub open spec fn last_match(results: Seq<(i64, String, Option<String>)>, path: Seq<char>) -> Option<
    (i64, Option<Seq<char>>),
>
    decreases results.len(),
{
    if results.len() == 0 {
        None
    } else if results.last().1@ == path {
        Some((results.last().0, opt_string_view(results.last().2)))
    } else {
        last_match(results.drop_last(), path)
    }
}

/// Whether `after` is `before` with the media item found for `abs` shown
/// on it (unchanged where nothing is found).
pub open spec fn shows_media(
    before: FileSystemEntry,
    after: FileSystemEntry,
    abs: Option<Seq<char>>,
    results: Seq<(i64, String, Option<String>)>,
) -> bool {
    match abs {
        Some(a) => match last_match(results, a) {
            Some(found) => {
                &&& after.name == before.name
                &&& after.path == before.path
                &&& after.is_directory == before.is_directory
                &&& after.media_id == Some(found.0)
                &&& opt_string_view(after.poster_url) == found.1
            },
            None => after == before,
        },
        None => after == before,
    }
}

/// Finds the last result whose file path is `path`.
fn find_last_match(results: &Vec<(i64, String, Option<String>)>, path: &String) -> (r: Option<usize>)
    ensures
        match r {
            Some(j) => j < results@.len() && last_match(results@, path@) == Some(
                (results@[j as int].0, opt_string_view(results@[j as int].2)),
            ),
            None => last_match(results@, path@) is None,
        },
{
    let mut j: usize = results.len();
    assert(results@.take(j as int) =~= results@);
    while j > 0
        invariant
            j <= results@.len(),
            last_match(results@, path@) == last_match(results@.take(j as int), path@),
        decreases j,
    {
        let ghost pre = results@.take(j as int);
        assert(pre.drop_last() =~= results@.take(j - 1));
        if results[j - 1].1 == *path {
            return Some(j - 1);
        }
        j = j - 1;
    }
    None
}

/// The entries with the media items matched to them: an entry whose
/// lookup path (`abs_paths`, by position) is the file path of a query
/// result shows that item's id and poster.
pub fn attach_media(
    entries: Vec<FileSystemEntry>,
    abs_paths: &Vec<Option<String>>,
    results: &Vec<(i64, String, Option<String>)>,
) -> (r: Vec<FileSystemEntry>)
    ensures
        r@.len() == entries@.len(),
        forall|i: int|
            0 <= i < r@.len() ==> shows_media(
                entries@[i],
                #[trigger] r@[i],
                if i < abs_paths@.len() {
                    opt_string_view(abs_paths@[i])
                } else {
                    None
                },
                results@,
            ),
{
    let ghost all = entries@;
    let n: usize = entries.len();
    let mut out: Vec<FileSystemEntry> = Vec::new();
    let mut i: usize = 0;
    for e in it: entries.into_iter()
        invariant
            it.seq() == all,
            all.len() == n,
            i == it.index(),
            out@.len() == i,
            forall|k: int|
                0 <= k < i ==> shows_media(
                    all[k],
                    #[trigger] out@[k],
                    if k < abs_paths@.len() {
                        opt_string_view(abs_paths@[k])
                    } else {
                        None
                    },
                    results@,
                ),
    {
        let mut e = e;
        if i < abs_paths.len() {
            match &abs_paths[i] {
                Some(a) => {
                    match find_last_match(results, a) {
                        Some(j) => {
                            e.media_id = Some(results[j].0);
                            e.poster_url = results[j].2.clone();
                        },
                        None => {},
                    }
                },
                None => {},
            }
        }
        out.push(e);
        i = i + 1;
    }
    out
}

impl SortOrder for FileSystemEntry {
    /// Directories come before files; within each, names ascend in code
    /// point order.
    open spec fn comes_after(a: Self, b: Self) -> bool {
        if a.is_directory == b.is_directory {
            lex_less(b.name@, a.name@)
        } else {
            b.is_directory
        }
    }

    fn is_after(a: &Self, b: &Self) -> (r: bool) {
        if a.is_directory == b.is_directory {
            str_less(b.name.as_str(), a.name.as_str())
        } else {
            b.is_directory
        }
    }
}

/// The listing in display order: directories first, then files, each by
/// name; entries that compare equal keep their order.
pub fn sort_entries(entries: Vec<FileSystemEntry>) -> (r: Vec<FileSystemEntry>)
    ensures
        r@ == stable_sorted(entries@),
{
    stable_sort(entries)
}

/// A sorted listing is ordered over every pair of positions: no file comes
/// before a directory, and of two entries of the same kind the earlier
/// name is never greater in code point order. The listing holds exactly
/// the entries it was given.
pub proof fn listing_is_ordered(entries: Seq<FileSystemEntry>)
    ensures
        pairwise_sorted(stable_sorted(entries)),
        stable_sorted(entries).to_multiset() == entries.to_multiset(),
        forall|i: int, j: int|
            0 <= i < j < stable_sorted(entries).len() ==> {
                let (x, y) = (#[trigger] stable_sorted(entries)[i], #[trigger] stable_sorted(
                    entries,
                )[j]);
                &&& !(!x.is_directory && y.is_directory)
                &&& x.is_directory == y.is_directory ==> !lex_less(y.name@, x.name@)
            },
{
    assert(asymmetric::<FileSystemEntry>()) by {
        assert forall|a: FileSystemEntry, b: FileSystemEntry|
            #[trigger] FileSystemEntry::comes_after(a, b) implies !FileSystemEntry::comes_after(
            b,
            a,
        ) by {
            lemma_lex_less_asymmetric(b.name@, a.name@);
        }
    }
    assert(not_after_transitive::<FileSystemEntry>()) by {
        assert forall|a: FileSystemEntry, b: FileSystemEntry, c: FileSystemEntry|
            #![trigger FileSystemEntry::comes_after(a, b), FileSystemEntry::comes_after(b, c)]
            !FileSystemEntry::comes_after(a, b) && !FileSystemEntry::comes_after(b, c)
            implies !FileSystemEntry::comes_after(a, c) by {
            lemma_lex_not_less_transitive(a.name@, b.name@, c.name@);
        }
    }
    stable_sorted_is_pairwise_sorted(entries);
    stable_sorted_is_permutation(entries);
}

} // verus!

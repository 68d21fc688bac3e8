//! File paths: joining a relative name onto a directory (as `Path::join`
//! does on Unix), and std's `Path` operations, whose results are stated or
//! named here for the Unix targets the server is built for.

use vstd::prelude::*;
use crate::text::{chars_of, opt_string_view, string_from_chars};

verus! {

/// `base` joined with the relative name `name`: a `/` goes between them
/// unless `base` is empty or already ends with one.
pub open spec fn joined(base: Seq<char>, name: Seq<char>) -> Seq<char> {
    if base.len() == 0 || base.last() == '/' {
        base + name
    } else {
        base + seq!['/'] + name
    }
}

/// Whether `name` is relative (does not start with `/`).
pub open spec fn is_relative(name: Seq<char>) -> bool {
    name.len() == 0 || name[0] != '/'
}

/// `base` joined with the relative name `name`.
pub fn join_path(base: &str, name: &[char]) -> (r: String)
    requires
        is_relative(name@),
    ensures
        r@ == joined(base@, name@),
{
    let mut out = chars_of(base);
    if out.len() > 0 && out[out.len() - 1] != '/' {
        out.push('/');
    }
    let ghost head = out@;
    let mut i: usize = 0;
    while i < name.len()
        invariant
            0 <= i <= name@.len(),
            out@ == head + name@.take(i as int),
        decreases name@.len() - i,
    {
        out.push(name[i]);
        assert(out@ =~= head + name@.take(i + 1));
        i = i + 1;
    }
    assert(name@.take(name@.len() as int) =~= name@);
    assert(out@ =~= joined(base@, name@));
    string_from_chars(out.as_slice())
}

/// The index of the last `c` in `s`, if any.
pub open spec fn last_index_of(s: Seq<char>, c: char) -> Option<int>
    decreases s.len(),
{
    if s.len() == 0 {
        None
    } else if s.last() == c {
        Some(s.len() - 1)
    } else {
        last_index_of(s.drop_last(), c)
    }
}

/// Whether a path is a single plain file name: not empty, without `/`, and
/// neither `.` nor `..`. Its final component is the name itself.
pub open spec fn is_plain_name(p: Seq<char>) -> bool {
    p.len() > 0 && !p.contains('/') && p != "."@ && p != ".."@
}

/// The extension of a plain file name, by the rule std documents for
/// `Path::extension`: the part after the last `.`, and none when the name
/// has no `.` or its only `.` is the first character.
pub open spec fn plain_name_extension(p: Seq<char>) -> Option<Seq<char>> {
    match last_index_of(p, '.') {
        Some(i) => if i > 0 {
            Some(p.skip(i + 1))
        } else {
            None
        },
        None => None,
    }
}

proof fn lemma_last_index_after(a: Seq<char>, b: Seq<char>, c: char)
    requires
        !b.contains(c),
    ensures
        last_index_of(a + seq![c] + b, c) == Some(a.len() as int),
    decreases b.len(),
{
    let s = a + seq![c] + b;
    if b.len() == 0 {
        assert(s.last() == c);
    } else {
        assert(s.drop_last() =~= a + seq![c] + b.drop_last());
        assert(!b.drop_last().contains(c)) by {
            if b.drop_last().contains(c) {
                let k = choose|k: int| 0 <= k < b.drop_last().len() && b.drop_last()[k] == c;
                assert(b[k] == c);
            }
        }
        assert(s.last() == b[b.len() - 1]);
        lemma_last_index_after(a, b.drop_last(), c);
    }
}

/// The extension of a plain file name `stem.ext`, where `ext` holds no `.`,
/// is `ext`.
pub proof fn lemma_dotted_name_extension(stem: Seq<char>, ext: Seq<char>)
    requires
        stem.len() > 0,
        !stem.contains('/'),
        ext.len() > 0,
        !ext.contains('/'),
        !ext.contains('.'),
    ensures
        path_extension_of(stem + seq!['.'] + ext) == Some(ext),
{
    let name = stem + seq!['.'] + ext;
    reveal_strlit(".");
    reveal_strlit("..");
    assert(name.len() >= 3);
    assert(!name.contains('/')) by {
        if name.contains('/') {
            let k = choose|k: int| 0 <= k < name.len() && name[k] == '/';
            if k < stem.len() {
                assert(stem[k] == '/');
            } else if k > stem.len() {
                assert(ext[k - stem.len() - 1] == '/');
            }
        }
    }
    assert(name != "."@ && name != ".."@) by {
        assert(name.len() != "."@.len());
        assert(name.len() != ".."@.len());
    }
    lemma_last_index_after(stem, ext, '.');
    assert(name.skip(stem.len() as int + 1) =~= ext);
}

/// What std's `Path::extension` gives for a path that is not a plain file
/// name (its final component found by `Path::components`).
pub uninterp spec fn std_path_extension(path: Seq<char>) -> Option<Seq<char>>;

/// What std's `Path::extension` gives for a path.
pub open spec fn path_extension_of(path: Seq<char>) -> Option<Seq<char>> {
    if is_plain_name(path) {
        plain_name_extension(path)
    } else {
        std_path_extension(path)
    }
}

/// The stem of a plain file name, by the rule std documents for
/// `Path::file_stem`: the part before the last `.`, or the whole name when
/// it has no `.` or its only `.` is the first character.
pub open spec fn plain_name_stem(p: Seq<char>) -> Seq<char> {
    match last_index_of(p, '.') {
        Some(i) => if i > 0 {
            p.take(i)
        } else {
            p
        },
        None => p,
    }
}

/// What std's `Path::file_stem` gives for a path that is not a plain file
/// name.
pub uninterp spec fn std_path_file_stem(path: Seq<char>) -> Option<Seq<char>>;

/// What std's `Path::file_stem` gives for a path.
pub open spec fn path_file_stem_of(path: Seq<char>) -> Option<Seq<char>> {
    if is_plain_name(path) {
        Some(plain_name_stem(path))
    } else {
        std_path_file_stem(path)
    }
}

/// What std's `Path::file_name` gives for a path that is not a plain file
/// name.
pub uninterp spec fn std_path_file_name(path: Seq<char>) -> Option<Seq<char>>;

/// What std's `Path::file_name` gives for a path: a plain file name is its
/// own final component.
pub open spec fn path_file_name_of(path: Seq<char>) -> Option<Seq<char>> {
    if is_plain_name(path) {
        Some(path)
    } else {
        std_path_file_name(path)
    }
}

/// What std's `Path::parent` gives for a path.
pub uninterp spec fn path_parent_of(path: Seq<char>) -> Option<Seq<char>>;

/// What std's `Path::strip_prefix` gives for a path and a base.
pub uninterp spec fn path_strip_prefix_of(path: Seq<char>, base: Seq<char>) -> Option<Seq<char>>;

/// What std's `Path::components` yields for a path, each component as text.
pub uninterp spec fn path_components_of(path: Seq<char>) -> Seq<Seq<char>>;

/// std's `Path::extension` (the text of a path that came from a `str` is
/// valid UTF-8, so the conversion back loses nothing): stated for a plain
/// file name, named by `std_path_extension` for other paths.
#[verifier::external_body]
pub(crate) fn path_extension(path: &str) -> (r: Option<String>)
    ensures
        is_plain_name(path@) ==> opt_string_view(r) == plain_name_extension(path@),
        !is_plain_name(path@) ==> opt_string_view(r) == std_path_extension(path@),
{
    std::path::Path::new(path).extension().map(|e| e.to_string_lossy().to_string())
}

/// std's `Path::file_stem`: stated for a plain file name, named by
/// `std_path_file_stem` for other paths.
#[verifier::external_body]
pub(crate) fn path_file_stem(path: &str) -> (r: Option<String>)
    ensures
        is_plain_name(path@) ==> opt_string_view(r) == Some(plain_name_stem(path@)),
        !is_plain_name(path@) ==> opt_string_view(r) == std_path_file_stem(path@),
{
    std::path::Path::new(path).file_stem().map(|e| e.to_string_lossy().to_string())
}

/// std's `Path::file_name`: a plain file name is given back whole; named
/// by `std_path_file_name` for other paths.
#[verifier::external_body]
pub(crate) fn path_file_name(path: &str) -> (r: Option<String>)
    ensures
        is_plain_name(path@) ==> opt_string_view(r) == Some(path@),
        !is_plain_name(path@) ==> opt_string_view(r) == std_path_file_name(path@),
{
    std::path::Path::new(path).file_name().map(|e| e.to_string_lossy().to_string())
}

/// std's `Path::parent`. Named by `path_parent_of`.
#[verifier::external_body]
pub(crate) fn path_parent(path: &str) -> (r: Option<String>)
    ensures
        opt_string_view(r) == path_parent_of(path@),
{
    std::path::Path::new(path).parent().map(|e| e.to_string_lossy().to_string())
}

/// std's `Path::strip_prefix`; `None` where std returns its error. Named
/// by `path_strip_prefix_of`.
#[verifier::external_body]
pub(crate) fn path_strip_prefix(path: &str, base: &str) -> (r: Option<String>)
    ensures
        opt_string_view(r) == path_strip_prefix_of(path@, base@),
{
    std::path::Path::new(path).strip_prefix(base).ok().map(|e| e.to_string_lossy().to_string())
}

/// std's `Path::components`, each component's `as_os_str` as text. Named
/// by `path_components_of`.
#[verifier::external_body]
pub(crate) fn path_components(path: &str) -> (r: Vec<String>)
    ensures
        crate::text::string_views(r@) == path_components_of(path@),
{
    std::path::Path::new(path).components().map(|c| c.as_os_str().to_string_lossy().to_string()).collect()
}

/// What std's `Path::join` gives on Unix for a base and a second path: an
/// absolute second path (one starting with `/`) replaces the base;
/// otherwise it is appended, after a `/` unless the base is empty or
/// already ends with one.
pub open spec fn path_join_of(base: Seq<char>, other: Seq<char>) -> Seq<char> {
    if is_relative(other) {
        joined(base, other)
    } else {
        other
    }
}

/// What std's `Path::starts_with` says of a path and a base: whether the
/// base's components are a prefix of the path's.
pub uninterp spec fn path_starts_with_of(path: Seq<char>, base: Seq<char>) -> bool;

/// `base` joined with `other` as `Path::join` does on Unix (see
/// `path_join_of`).
pub fn path_join(base: &str, other: &str) -> (r: String)
    ensures
        r@ == path_join_of(base@, other@),
{
    let cs = chars_of(other);
    if cs.len() > 0 && cs[0] == '/' {
        string_from_chars(cs.as_slice())
    } else {
        join_path(base, cs.as_slice())
    }
}

/// std's `Path::starts_with`. Named by `path_starts_with_of`.
#[verifier::external_body]
pub(crate) fn path_starts_with(path: &str, base: &str) -> (r: bool)
    ensures
        r == path_starts_with_of(path@, base@),
{
    std::path::Path::new(path).starts_with(base)
}

} // verus!

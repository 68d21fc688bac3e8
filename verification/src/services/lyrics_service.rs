//! Lyrics text: lines, LRC timestamp tags, and plain lyrics.

use vstd::prelude::*;
use crate::number::{int_str, push_i64};
use crate::text::{
    append_str, chars_of, nonblank, nonblank_trimmed, opt_string_view, split_chars, split_on,
    string_from_chars, string_views, trim_chars, trim_start, trimmed, views,
};

verus! {

/// The lines of `s` as `str::lines` yields them: split at `\n`, a `\r`
/// before a `\n` removed, and no final empty line after a trailing `\n`.
pub open spec fn lines_of(s: Seq<char>) -> Seq<Seq<char>> {
    let pieces = split_on(s, '\n');
    let ended = pieces.drop_last().map_values(
        |p: Seq<char>|
            if p.len() > 0 && p.last() == '\r' {
                p.drop_last()
            } else {
                p
            },
    );
    if pieces.last().len() == 0 {
        ended
    } else {
        ended.push(pieces.last())
    }
}

/// The lines of `text`.
pub fn text_lines(text: &str) -> (r: Vec<String>)
    ensures
        string_views(r@) == lines_of(text@),
{
    let cs = chars_of(text);
    let pieces = split_chars(cs.as_slice(), '\n');
    proof {
        crate::text::lemma_split_on_nonempty(text@, '\n');
    }
    let n = pieces.len();
    let ghost pv = split_on(text@, '\n');
    let mut out: Vec<String> = Vec::new();
    let mut i: usize = 0;
    while i + 1 < n
        invariant
            0 <= i < n,
            n == pieces@.len(),
            views(pieces@) == pv,
            pv == split_on(text@, '\n'),
            string_views(out@) == pv.drop_last().take(i as int).map_values(
                |p: Seq<char>|
                    if p.len() > 0 && p.last() == '\r' {
                        p.drop_last()
                    } else {
                        p
                    },
            ),
        decreases n - i,
    {
        let p = &pieces[i];
        assert(pv[i as int] == p@);
        let ghost before = string_views(out@);
        if p.len() > 0 && p[p.len() - 1] == '\r' {
            let q = vstd::slice::slice_subrange(p.as_slice(), 0, p.len() - 1);
            out.push(string_from_chars(q));
            assert(q@ =~= p@.drop_last());
        } else {
            out.push(string_from_chars(p.as_slice()));
        }
        assert(string_views(out@) =~= before.push(string_views(out@).last()));
        assert(string_views(out@) =~= pv.drop_last().take(i + 1).map_values(
            |p: Seq<char>|
                if p.len() > 0 && p.last() == '\r' {
                    p.drop_last()
                } else {
                    p
                },
        ));
        i = i + 1;
    }
    assert(pv.drop_last().take(i as int) =~= pv.drop_last());
    let last = &pieces[n - 1];
    assert(pv.last() == last@);
    if last.len() > 0 {
        let ghost before = string_views(out@);
        out.push(string_from_chars(last.as_slice()));
        assert(string_views(out@) =~= before.push(last@));
    }
    out
}

/// Plain lyrics: each line trimmed, blank lines dropped.
pub open spec fn plain_lines(lines: Seq<Seq<char>>) -> Seq<Seq<char>>
    decreases lines.len(),
{
    if lines.len() == 0 {
        Seq::empty()
    } else if trimmed(lines.last()).len() > 0 {
        plain_lines(lines.drop_last()).push(trimmed(lines.last()))
    } else {
        plain_lines(lines.drop_last())
    }
}

/// The lines of plain (unsynced) lyrics text: one per non-blank source
/// line, trimmed.
pub fn plain_lyric_lines(text: &str) -> (r: Vec<String>)
    ensures
        string_views(r@) == plain_lines(lines_of(text@)),
{
    let lines = text_lines(text);
    let ghost lv = string_views(lines@);
    let mut out: Vec<String> = Vec::new();
    let mut i: usize = 0;
    while i < lines.len()
        invariant
            0 <= i <= lines@.len(),
            lv == string_views(lines@),
            lv == lines_of(text@),
            string_views(out@) == plain_lines(lv.take(i as int)),
        decreases lines@.len() - i,
    {
        assert(lv.take(i + 1).drop_last() =~= lv.take(i as int));
        assert(lv[i as int] == lines@[i as int]@);
        let lc = chars_of(lines[i].as_str());
        let t = trim_chars(lc.as_slice());
        let ghost before = string_views(out@);
        if t.len() > 0 {
            out.push(string_from_chars(t.as_slice()));
            assert(string_views(out@) =~= before.push(t@));
        }
        i = i + 1;
    }
    assert(lv.take(lines@.len() as int) =~= lv);
    out
}

/// The index of the first `c` in `s` (`s.len()` when there is none).
pub open spec fn first_index(s: Seq<char>, c: char) -> int
    decreases s.len(),
{
    if s.len() == 0 {
        0
    } else if s[0] == c {
        0
    } else {
        1 + first_index(s.drop_first(), c)
    }
}

pub proof fn lemma_first_index(s: Seq<char>, c: char)
    ensures
        0 <= first_index(s, c) <= s.len(),
        first_index(s, c) < s.len() ==> s[first_index(s, c)] == c,
        forall|k: int| 0 <= k < first_index(s, c) ==> s[k] != c,
    decreases s.len(),
{
    if s.len() > 0 && s[0] != c {
        lemma_first_index(s.drop_first(), c);
        assert forall|k: int| 0 <= k < first_index(s, c) implies s[k] != c by {
            if k > 0 {
                assert(s[k] == s.drop_first()[k - 1]);
            }
        }
    }
}

/// The leading `[..]` tags of an LRC line (their insides, in order) and
/// the text after them: tags are read while the text starts with `[` and
/// holds a `]`, with white space after each tag skipped.
pub open spec fn lrc_tags(rest: Seq<char>) -> (Seq<Seq<char>>, Seq<char>)
    decreases rest.len(),
{
    let end = first_index(rest, ']');
    if rest.len() > 0 && rest[0] == '[' && 0 < end < rest.len() {
        proof {
            lemma_trim_start_len(rest.skip(end + 1));
        }
        let (tags, text) = lrc_tags(trim_start(rest.skip(end + 1)));
        (seq![rest.subrange(1, end)] + tags, text)
    } else {
        (Seq::empty(), rest)
    }
}

pub proof fn lemma_trim_start_len(s: Seq<char>)
    ensures
        trim_start(s).len() <= s.len(),
        exists|k: int| 0 <= k <= s.len() && trim_start(s) == s.skip(k),
    decreases s.len(),
{
    if s.len() > 0 && crate::text::is_white_space(s[0]) {
        lemma_trim_start_len(s.drop_first());
        let k = choose|k: int|
            0 <= k <= s.drop_first().len() && trim_start(s.drop_first()) == s.drop_first().skip(k);
        assert(s.drop_first().skip(k) =~= s.skip(k + 1));
    } else {
        assert(s.skip(0) =~= s);
    }
}

/// Splits an LRC line into the insides of its leading `[..]` tags and the
/// trimmed text after them.
pub fn split_lrc_line(raw: &str) -> (r: (Vec<String>, String))
    ensures
        string_views(r.0@) == lrc_tags(trimmed(raw@)).0,
        r.1@ == trimmed(lrc_tags(trimmed(raw@)).1),
{
    let cs = chars_of(raw);
    let mut rest = trim_chars(cs.as_slice());
    let mut tags: Vec<String> = Vec::new();
    assert(string_views(tags@) + lrc_tags(rest@).0 =~= lrc_tags(rest@).0);
    loop
        invariant
            lrc_tags(trimmed(raw@)).0 == string_views(tags@) + lrc_tags(rest@).0,
            lrc_tags(trimmed(raw@)).1 == lrc_tags(rest@).1,
        ensures
            lrc_tags(rest@).0.len() == 0,
            lrc_tags(rest@).1 == rest@,
        decreases rest@.len(),
    {
        if rest.len() == 0 || rest[0] != '[' {
            break;
        }
        let mut end: usize = 0;
        proof {
            lemma_first_index(rest@, ']');
        }
        while end < rest.len() && rest[end] != ']'
            invariant
                0 <= end <= rest@.len(),
                end <= first_index(rest@, ']'),
                first_index(rest@, ']') <= rest@.len(),
                first_index(rest@, ']') < rest@.len() ==> rest@[first_index(rest@, ']')] == ']',
                forall|k: int| 0 <= k < first_index(rest@, ']') ==> rest@[k] != ']',
            decreases rest@.len() - end,
        {
            end = end + 1;
        }
        assert(end == first_index(rest@, ']'));
        if end >= rest.len() {
            break;
        }
        assert(end > 0);
        let inside = vstd::slice::slice_subrange(rest.as_slice(), 1, end);
        let ghost before = string_views(tags@);
        tags.push(string_from_chars(inside));
        assert(string_views(tags@) =~= before.push(inside@));
        let after = vstd::slice::slice_subrange(rest.as_slice(), end + 1, rest.len());
        assert(after@ =~= rest@.skip(end + 1));
        let next = crate::text::trim_start_chars(after);
        proof {
            lemma_trim_start_len(rest@.skip(end + 1));
            assert(before.push(inside@) + lrc_tags(next@).0 =~= before + (seq![inside@] + lrc_tags(
                next@,
            ).0));
        }
        rest = next;
    }
    assert(string_views(tags@) + lrc_tags(rest@).0 =~= string_views(tags@));
    let text = trim_chars(rest.as_slice());
    (tags, string_from_chars(text.as_slice()))
}

/// The parts of an LRC timestamp (`mm:ss.xx` or `hh:mm:ss`), trimmed:
/// present only for two or three `:`-separated parts.
pub open spec fn timestamp_parts_of(s: Seq<char>) -> Option<Seq<Seq<char>>> {
    let parts = split_on(s, ':');
    if parts.len() == 2 || parts.len() == 3 {
        Some(trim_all(parts))
    } else {
        None
    }
}

/// Each piece trimmed.
pub open spec fn trim_all(ps: Seq<Seq<char>>) -> Seq<Seq<char>> {
    ps.map_values(|p: Seq<char>| trimmed(p))
}

/// The trimmed parts of a timestamp tag, for two or three parts.
pub fn timestamp_parts(s: &str) -> (r: Option<Vec<String>>)
    ensures
        match r {
            Some(v) => timestamp_parts_of(s@) == Some(string_views(v@)),
            None => timestamp_parts_of(s@) is None,
        },
{
    let cs = chars_of(s);
    let parts = split_chars(cs.as_slice(), ':');
    if parts.len() != 2 && parts.len() != 3 {
        return None;
    }
    let ghost pv = split_on(s@, ':');
    let mut out: Vec<String> = Vec::new();
    let mut i: usize = 0;
    while i < parts.len()
        invariant
            0 <= i <= parts@.len(),
            views(parts@) == pv,
            pv == split_on(s@, ':'),
            string_views(out@) == trim_all(pv.take(i as int)),
        decreases parts@.len() - i,
    {
        let t = trim_chars(parts[i].as_slice());
        assert(pv[i as int] == parts@[i as int]@);
        let ghost before = string_views(out@);
        out.push(string_from_chars(t.as_slice()));
        assert(string_views(out@) =~= before.push(t@));
        assert(string_views(out@) =~= trim_all(pv.take(i + 1)));
        i = i + 1;
    }
    assert(pv.take(parts@.len() as int) =~= pv);
    Some(out)
}

/// Where lyrics can come from, cheapest first.
#[derive(Debug, Clone, Copy, PartialEq, Eq, Structural)]
pub enum LyricsSource {
    /// A `.lrc` file next to the audio file (synced).
    LrcSidecar,
    /// Lyrics in the file's tags.
    Embedded,
    /// A `.txt` file next to the audio file (plain).
    TxtSidecar,
    /// An earlier lrclib answer kept on disk.
    Cache,
    /// The lrclib.net database.
    Lrclib,
}

/// The order in which sources are tried: all of them, unless a refresh is
/// forced, which goes to lrclib directly.
pub open spec fn source_order(force: bool) -> Seq<LyricsSource> {
    if force {
        seq![LyricsSource::Lrclib]
    } else {
        seq![
            LyricsSource::LrcSidecar,
            LyricsSource::Embedded,
            LyricsSource::TxtSidecar,
            LyricsSource::Cache,
            LyricsSource::Lrclib,
        ]
    }
}

/// The sources to try, in order.
pub fn lyrics_sources(force: bool) -> (r: Vec<LyricsSource>)
    ensures
        r@ == source_order(force),
{
    let mut v: Vec<LyricsSource> = Vec::new();
    if !force {
        v.push(LyricsSource::LrcSidecar);
        v.push(LyricsSource::Embedded);
        v.push(LyricsSource::TxtSidecar);
        v.push(LyricsSource::Cache);
    }
    v.push(LyricsSource::Lrclib);
    assert(v@ =~= source_order(force));
    v
}

/// The label lyrics found at a source carry (an answer from the cache keeps
/// the label it was stored with).
pub open spec fn source_label_of(s: LyricsSource) -> Option<Seq<char>> {
    match s {
        LyricsSource::LrcSidecar => Some("lrc"@),
        LyricsSource::Embedded => Some("embedded"@),
        LyricsSource::TxtSidecar => Some("txt"@),
        LyricsSource::Cache => None,
        LyricsSource::Lrclib => Some("lrclib"@),
    }
}

/// The label of lyrics found at `s`.
pub fn source_label(s: LyricsSource) -> (r: Option<&'static str>)
    ensures
        match r {
            Some(l) => source_label_of(s) == Some(l@),
            None => source_label_of(s) is None,
        },
{
    match s {
        LyricsSource::LrcSidecar => Some("lrc"),
        LyricsSource::Embedded => Some("embedded"),
        LyricsSource::TxtSidecar => Some("txt"),
        LyricsSource::Cache => None,
        LyricsSource::Lrclib => Some("lrclib"),
    }
}

/// Where lrclib answers of a track are kept: `lyrics/{item_id}.json`.
pub open spec fn cache_path_of(item_id: i64) -> Seq<char> {
    "lyrics/"@ + int_str(item_id as int) + ".json"@
}

/// The cache file of a track's lrclib answer.
pub fn cache_path(item_id: i64) -> (r: String)
    ensures
        r@ == cache_path_of(item_id),
{
    let mut out: Vec<char> = Vec::new();
    append_str(&mut out, "lyrics/");
    push_i64(&mut out, item_id);
    append_str(&mut out, ".json");
    assert(out@ =~= cache_path_of(item_id));
    string_from_chars(out.as_slice())
}

/// The track facts lrclib looks a match up by.
#[derive(Debug, Clone)]
pub struct TrackInfo {
    pub path: String,
    pub title: Option<String>,
    pub artist: Option<String>,
    pub album: Option<String>,
    pub duration: Option<i64>,
}

/// The query parameters of an lrclib lookup: the trimmed title (without
/// one there is nothing to look up), the trimmed artist (empty when
/// unknown), the trimmed album when it is not blank, and the duration.
pub open spec fn lrclib_params(info: TrackInfo) -> Option<Seq<(Seq<char>, Seq<char>)>> {
    match nonblank(opt_string_view(info.title)) {
        None => None,
        Some(title) => {
            let artist = trimmed(
                match info.artist {
                    Some(a) => a@,
                    None => Seq::empty(),
                },
            );
            let base = seq![("track_name"@, title), ("artist_name"@, artist)];
            let with_album = match nonblank(opt_string_view(info.album)) {
                Some(al) => base.push(("album_name"@, al)),
                None => base,
            };
            Some(
                match info.duration {
                    Some(d) => with_album.push(("duration"@, int_str(d as int))),
                    None => with_album,
                },
            )
        },
    }
}

/// The text of the query parameters.
pub open spec fn params_view(v: Seq<(&'static str, String)>) -> Seq<(Seq<char>, Seq<char>)> {
    v.map_values(|p: (&'static str, String)| (p.0@, p.1@))
}

/// The query parameters of an lrclib lookup for a track; `None` when the
/// track has no title to look up (a definitive miss).
pub fn lrclib_query(info: &TrackInfo) -> (r: Option<Vec<(&'static str, String)>>)
    ensures
        match r {
            Some(v) => lrclib_params(*info) == Some(params_view(v@)),
            None => lrclib_params(*info) is None,
        },
{
    let title = match nonblank_trimmed(
        match &info.title {
            Some(t) => Some(t.as_str()),
            None => None,
        },
    ) {
        Some(t) => t,
        None => {
            return None;
        },
    };
    let artist_chars = match &info.artist {
        Some(a) => chars_of(a.as_str()),
        None => Vec::new(),
    };
    let artist = string_from_chars(trim_chars(artist_chars.as_slice()).as_slice());
    let mut v: Vec<(&'static str, String)> = Vec::new();
    v.push(("track_name", title));
    v.push(("artist_name", artist));
    let ghost base = params_view(v@);
    assert(base =~= seq![("track_name"@, v@[0].1@), ("artist_name"@, v@[1].1@)]);
    match nonblank_trimmed(
        match &info.album {
            Some(a) => Some(a.as_str()),
            None => None,
        },
    ) {
        Some(al) => {
            let ghost before = params_view(v@);
            v.push(("album_name", al));
            assert(params_view(v@) =~= before.push(params_view(v@).last()));
        },
        None => {},
    }
    match info.duration {
        Some(d) => {
            let mut ds: Vec<char> = Vec::new();
            push_i64(&mut ds, d);
            assert(ds@ =~= int_str(d as int));
            let ghost before = params_view(v@);
            v.push(("duration", string_from_chars(ds.as_slice())));
            assert(params_view(v@) =~= before.push(params_view(v@).last()));
        },
        None => {},
    }
    Some(v)
}

/// How an lrclib answer with HTTP status `status` is taken.
#[derive(Debug, Clone, Copy, PartialEq, Eq, Structural)]
pub enum LrclibVerdict {
    /// lrclib is up and has no match: a definitive miss, safe to remember.
    Miss,
    /// A passing failure (server error, rate limit): not remembered.
    Transient,
    /// A match: read the body.
    Found,
}

/// How an lrclib answer with HTTP status `status` is taken: 404 is a miss,
/// any other status outside 200..=299 a passing failure.
pub fn lrclib_verdict(status: u16) -> (r: LrclibVerdict)
    ensures
        status == 404 ==> r == LrclibVerdict::Miss,
        status != 404 && !(200 <= status <= 299) ==> r == LrclibVerdict::Transient,
        200 <= status <= 299 ==> r == LrclibVerdict::Found,
{
    if status == 404 {
        LrclibVerdict::Miss
    } else if status < 200 || status > 299 {
        LrclibVerdict::Transient
    } else {
        LrclibVerdict::Found
    }
}

/// Which lyrics of an lrclib match are kept.
#[derive(Debug, Clone, Copy, PartialEq, Eq, Structural)]
pub enum LrclibPick {
    /// The synced (LRC) lyrics.
    Synced,
    /// The plain lyrics.
    Plain,
}

/// The lyrics kept from an lrclib match whose synced lyrics parse to
/// `synced_lines` lines and whose plain lyrics to `plain_lines` (0 for
/// lyrics that are missing or blank): synced lyrics when they give any
/// line, else plain ones when they do, else none (a miss).
pub fn pick_lrclib(synced_lines: usize, plain_lines: usize) -> (r: Option<LrclibPick>)
    ensures
        synced_lines > 0 ==> r == Some(LrclibPick::Synced),
        synced_lines == 0 && plain_lines > 0 ==> r == Some(LrclibPick::Plain),
        synced_lines == 0 && plain_lines == 0 ==> r is None,
{
    if synced_lines > 0 {
        Some(LrclibPick::Synced)
    } else if plain_lines > 0 {
        Some(LrclibPick::Plain)
    } else {
        None
    }
}

} // verus!

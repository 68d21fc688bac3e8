//! Decisions of the transcode service: job identity and cache directory
//! names, the VOD playlist, the FFmpeg run plan, when to restart a session,
//! and which cache directories to evict.

use std::hash::{Hash, Hasher};
use vstd::prelude::*;
use crate::number::{
    dec_padded, dec_str, hex_padded, int_str, lemma_dec_str, lemma_parse_dec_str, parse_i64,
    parse_i64_spec, push_hex_padded, push_i64, push_u64, push_u64_padded,
};
use crate::paths::{joined, path_join, path_join_of};
use crate::error::AppError;
use crate::services::transcode::codecs::{
    generic_browser, DeviceProfile, HardwareAccelerationType, PlayMethod,
};
use crate::services::media_service::stream_url_of;
use crate::services::transcode::probe::MediaProbeResult;
use crate::services::transcode::stream_builder::{play_decision, StreamBuilder};
use crate::services::transcode::profiles::{seconds_chars, seconds_text, TranscodingContext};
use crate::sort::{stable_sort, stable_sorted, SortOrder};
use crate::text::{
    append_chars, append_str, chars_of, opt_string_view, split_on, string_from_chars, string_views,
};

verus! {

/// Identifies a transcode job: every field that changes the produced bytes,
/// so that two requests differing in any of them get separate FFmpeg
/// sessions and cache directories.
#[derive(Debug, Clone, Copy, PartialEq, Eq, Hash, Structural)]
pub struct JobKey {
    pub media_id: i64,
    pub transcode_video: bool,
    pub transcode_audio: bool,
    /// Requested audio track (`None`: the server's default).
    pub audio_stream_index: Option<usize>,
    pub max_streaming_bitrate: Option<i32>,
    pub hwa: Option<HardwareAccelerationType>,
}

/// std's `DefaultHasher::new`, the derived `Hash::hash` of the key and
/// `Hasher::finish`. Nothing is stated of the result: the derived `Hash`
/// writes `usize` fields in the machine's width and byte order, and std
/// leaves the hash algorithm free to change between releases, so the value
/// is fixed only within one build on one machine.
#[verifier::external_body]
fn job_key_hash(key: &JobKey) -> u64 {
    let mut h = std::collections::hash_map::DefaultHasher::new();
    key.hash(&mut h);
    h.finish()
}

/// The cache directory name of a job with this media id and parameter
/// hash: `{media_id}-{hash as 16 hex digits}`.
pub open spec fn job_dir_name(media_id: i64, hash: u64) -> Seq<char> {
    int_str(media_id as int) + seq!['-'] + hex_padded(hash as nat, 16)
}

/// The media id that a cache directory name starts with: the text before
/// the first `-`, read as an `i64`.
pub open spec fn media_id_of_dir(name: Seq<char>) -> Option<i64> {
    parse_i64_spec(split_on(name, '-')[0])
}

proof fn lemma_split_no_sep(s: Seq<char>, sep: char)
    requires
        !s.contains(sep),
    ensures
        split_on(s, sep) == seq![s],
    decreases s.len(),
{
    if s.len() > 0 {
        assert(!s.drop_last().contains(sep)) by {
            if s.drop_last().contains(sep) {
                let k = choose|k: int| 0 <= k < s.drop_last().len() && s.drop_last()[k] == sep;
                assert(s[k] == sep);
            }
        }
        lemma_split_no_sep(s.drop_last(), sep);
        assert(s.last() != sep) by {
            assert(s[s.len() - 1] == s.last());
        }
        assert(s.drop_last().push(s.last()) =~= s);
        let init = split_on(s.drop_last(), sep);
        assert(init == seq![s.drop_last()]);
        assert(split_on(s, sep) == init.update(init.len() - 1, init.last().push(s.last())));
        assert(init.update(0, init.last().push(s.last())) =~= seq![s]);
    } else {
        assert(s =~= Seq::<char>::empty());
    }
}

proof fn lemma_split_first(s: Seq<char>, sep: char, k: int)
    requires
        0 <= k <= s.len(),
        !s.take(k).contains(sep),
        k < s.len() ==> s[k] == sep,
    ensures
        split_on(s, sep)[0] == s.take(k),
        split_on(s, sep).len() >= 1,
        k < s.len() ==> split_on(s, sep).len() >= 2,
    decreases s.len(),
{
    if k == s.len() {
        assert(s.take(k) =~= s);
        lemma_split_no_sep(s, sep);
    } else if k == s.len() - 1 {
        assert(s.drop_last() =~= s.take(k));
        lemma_split_no_sep(s.drop_last(), sep);
    } else {
        assert(s.drop_last().take(k) =~= s.take(k));
        assert(s.drop_last()[k] == s[k]);
        lemma_split_first(s.drop_last(), sep, k);
    }
}

fn media_id_prefix(name: &[char]) -> (r: Vec<char>)
    ensures
        r@ == split_on(name@, '-')[0],
{
    let mut i: usize = 0;
    while i < name.len() && name[i] != '-'
        invariant
            0 <= i <= name@.len(),
            !name@.take(i as int).contains('-'),
        decreases name@.len() - i,
    {
        assert(!name@.take(i + 1).contains('-')) by {
            if name@.take(i + 1).contains('-') {
                let j = choose|j: int| 0 <= j < i + 1 && #[trigger] name@.take(i + 1)[j] == '-';
                if j < i {
                    assert(name@.take(i as int)[j] == '-');
                }
            }
        }
        i = i + 1;
    }
    proof {
        lemma_split_first(name@, '-', i as int);
    }
    let mut r: Vec<char> = Vec::new();
    let mut j: usize = 0;
    while j < i
        invariant
            0 <= j <= i,
            i <= name@.len(),
            r@ == name@.take(j as int),
        decreases i - j,
    {
        r.push(name[j]);
        assert(r@ =~= name@.take(j + 1));
        j = j + 1;
    }
    r
}

/// The cache directory name of a job with media id `media_id` whose
/// parameters hash to `hash`.
pub fn job_dir_name_of(media_id: i64, hash: u64) -> (r: String)
    ensures
        r@ == job_dir_name(media_id, hash),
{
    let mut out: Vec<char> = Vec::new();
    push_i64(&mut out, media_id);
    out.push('-');
    push_hex_padded(&mut out, hash, 16);
    assert(out@ =~= job_dir_name(media_id, hash));
    string_from_chars(out.as_slice())
}

/// The cache directory named `dir_name` under `transcode_dir`.
pub fn cache_dir_of(transcode_dir: &str, dir_name: &str) -> (r: String)
    ensures
        r@ == path_join_of(transcode_dir@, dir_name@),
{
    path_join(transcode_dir, dir_name)
}

impl JobKey {
    /// The stable directory and session name of the job,
    /// `{media_id}-{paramhash}`: the media id prefix lets cache maintenance
    /// recover it without a sidecar file. The hash is std's default hasher
    /// over every field of the key (see `job_key_hash`).
    pub fn dir_name(&self) -> (r: String)
        ensures
            exists|h: u64| r@ == job_dir_name(self.media_id, h),
    {
        let h = job_key_hash(self);
        job_dir_name_of(self.media_id, h)
    }

    /// The job's cache directory under `transcode_dir`: the directory named
    /// by `dir_name` there (`cache_dir_of`).
    pub fn cache_dir(&self, transcode_dir: &str) -> (r: String)
        ensures
            exists|h: u64| r@ == joined(transcode_dir@, job_dir_name(self.media_id, h)),
    {
        let name = self.dir_name();
        proof {
            crate::number::lemma_int_str_relative(self.media_id);
        }
        cache_dir_of(transcode_dir, name.as_str())
    }

    /// Recover the media id encoded in a cache directory name, if any.
    pub fn media_id_from_dir(name: &str) -> (r: Option<i64>)
        ensures
            r == media_id_of_dir(name@),
    {
        let cs = chars_of(name);
        let prefix = media_id_prefix(cs.as_slice());
        parse_i64(prefix.as_slice())
    }
}

/// The media id of a job with a non-negative media id can be read back
/// from its cache directory name, whatever the parameter hash.
pub proof fn media_id_round_trip(media_id: i64, hash: u64)
    requires
        media_id >= 0,
    ensures
        media_id_of_dir(job_dir_name(media_id, hash)) == Some(media_id),
{
    let d = dec_str(media_id as nat);
    let name = job_dir_name(media_id, hash);
    lemma_dec_str(media_id as nat);
    assert(name.take(d.len() as int) =~= d);
    assert(!d.contains('-')) by {
        if d.contains('-') {
            let j = choose|j: int| 0 <= j < d.len() && d[j] == '-';
            assert(crate::number::is_digit(d[j]));
        }
    }
    assert(name[d.len() as int] == '-');
    lemma_split_first(name, '-', d.len() as int);
    lemma_parse_dec_str(media_id);
}

/// The number of segments of a VOD playlist for `d` ms of media in
/// segments of `t` ms: the segments needed to cover the duration, with a
/// trailing sliver shorter than half a second folded into the segment
/// before it, and at least one.
pub open spec fn segment_count(d: nat, t: nat) -> nat {
    let n: nat = d / t + if d % t == 0 {
        0nat
    } else {
        1nat
    };
    let folded: nat = if n > 1 && d - (n - 1) * t < 500 {
        (n - 1) as nat
    } else {
        n
    };
    if folded < 1 {
        1
    } else {
        folded
    }
}

/// The duration in ms of segment `i`: the segment length, except for the
/// last segment, which runs to the end of the media.
pub open spec fn segment_duration(d: nat, t: nat, i: nat) -> int {
    if i == segment_count(d, t) - 1 {
        d - i * t
    } else {
        t as int
    }
}

/// `?query`, or nothing for an empty query.
pub open spec fn query_suffix(q: Seq<char>) -> Seq<char> {
    if q.len() == 0 {
        Seq::empty()
    } else {
        seq!['?'] + q
    }
}

/// The playlist header; the target duration is one second more than the
/// segment length.
pub open spec fn playlist_header(segment_time: nat) -> Seq<char> {
    "#EXTM3U\n"@ + "#EXT-X-VERSION:7\n"@ + "#EXT-X-PLAYLIST-TYPE:VOD\n"@ + "#EXT-X-TARGETDURATION:"@
        + dec_str(segment_time + 1) + "\n"@ + "#EXT-X-MEDIA-SEQUENCE:0\n"@
}

/// The resume point, when the offset lies strictly inside the media.
pub open spec fn start_line(offset_ms: Option<u64>, d: nat) -> Seq<char> {
    match offset_ms {
        Some(o) => if 0 < o && o < d {
            "#EXT-X-START:TIME-OFFSET="@ + seconds_text(o as nat) + ",PRECISE=YES\n"@
        } else {
            Seq::empty()
        },
        None => Seq::empty(),
    }
}

/// The init segment line.
pub open spec fn map_line(q: Seq<char>) -> Seq<char> {
    "#EXT-X-MAP:URI=\"init.mp4"@ + query_suffix(q) + "\"\n"@
}

/// The two lines of segment `i`.
pub open spec fn segment_entry(d: nat, t: nat, i: nat, q: Seq<char>) -> Seq<char> {
    "#EXTINF:"@ + seconds_text(segment_duration(d, t, i) as nat) + ",\n"@ + "segment_"@ + dec_padded(
        i,
        5,
    ) + ".m4s"@ + query_suffix(q) + "\n"@
}

/// The lines of the first `k` segments.
pub open spec fn segment_entries(d: nat, t: nat, k: nat, q: Seq<char>) -> Seq<char>
    decreases k,
{
    if k == 0 {
        Seq::empty()
    } else {
        segment_entries(d, t, (k - 1) as nat, q) + segment_entry(d, t, (k - 1) as nat, q)
    }
}

/// The whole VOD playlist for `d` ms of media in segments of
/// `segment_time` seconds.
pub open spec fn vod_playlist_text(
    d: nat,
    segment_time: nat,
    offset_ms: Option<u64>,
    q: Seq<char>,
) -> Seq<char> {
    let t = segment_time * 1000;
    playlist_header(segment_time) + start_line(offset_ms, d) + map_line(q) + segment_entries(
        d,
        t,
        segment_count(d, t),
        q,
    ) + "#EXT-X-ENDLIST\n"@
}

proof fn lemma_segment_bounds(d: nat, t: nat)
    requires
        t > 0,
    ensures
        segment_count(d, t) >= 1,
        (segment_count(d, t) - 1) * t <= d,
        d - (segment_count(d, t) - 1) * t < t + 500,
{
    let q = d / t;
    let r = d % t;
    assert(d == q * t + r && 0 <= r < t) by (nonlinear_arith)
        requires
            t > 0,
            q == d / t,
            r == d % t,
    ;
    let n: nat = q + if r == 0 {
        0nat
    } else {
        1nat
    };
    if n > 1 && d - (n - 1) * t < 500 {
        assert((n - 2) * t <= d && d - (n - 2) * t < t + 500) by (nonlinear_arith)
            requires
                d == q * t + r,
                0 <= r < t,
                n > 1,
                n == q || n == q + 1,
                d - (n - 1) * t < 500,
        ;
    } else if n >= 1 {
        assert((n - 1) * t <= d && d - (n - 1) * t <= t) by (nonlinear_arith)
            requires
                d == q * t + r,
                0 <= r < t,
                n >= 1,
                r == 0 ==> n == q,
                r != 0 ==> n == q + 1,
        ;
    } else {
        assert(d == 0) by (nonlinear_arith)
            requires
                d == q * t + r,
                0 <= r < t,
                n == 0,
                r != 0 ==> n == q + 1,
                r == 0 ==> n == q,
        ;
    }
}

/// Every segment of a VOD playlist lasts between zero and the segment
/// length plus half a second, so under the advertised target duration
/// (segment length plus one second).
pub proof fn segment_durations_within_target(d: nat, segment_time: nat, i: nat)
    requires
        segment_time > 0,
        i < segment_count(d, segment_time * 1000),
    ensures
        0 <= segment_duration(d, segment_time * 1000, i) < (segment_time + 1) * 1000,
{
    let t = segment_time * 1000;
    lemma_segment_bounds(d, t);
    if i == segment_count(d, t) - 1 {
        assert(i * t == (segment_count(d, t) - 1) * t);
    }
}

/// The durations of the first `k` segments, added up.
pub open spec fn total_duration(d: nat, t: nat, k: nat) -> int
    decreases k,
{
    if k == 0 {
        0
    } else {
        total_duration(d, t, (k - 1) as nat) + segment_duration(d, t, (k - 1) as nat)
    }
}

proof fn lemma_total_before_last(d: nat, t: nat, k: nat)
    requires
        k < segment_count(d, t),
    ensures
        total_duration(d, t, k) == k * t,
    decreases k,
{
    if k > 0 {
        lemma_total_before_last(d, t, (k - 1) as nat);
        assert(segment_duration(d, t, (k - 1) as nat) == t);
        assert(total_duration(d, t, k) == total_duration(d, t, (k - 1) as nat) + t);
        assert((k - 1) * t + t == k * t) by (nonlinear_arith);
    } else {
        assert(k * t == 0) by (nonlinear_arith)
            requires
                k == 0,
        ;
    }
}

/// The segments of a VOD playlist cover exactly the media's duration.
pub proof fn segments_cover_duration(d: nat, segment_time: nat)
    requires
        segment_time > 0,
    ensures
        total_duration(d, segment_time * 1000, segment_count(d, segment_time * 1000)) == d,
{
    let t = segment_time * 1000;
    lemma_segment_bounds(d, t);
    let n = segment_count(d, t);
    lemma_total_before_last(d, t, (n - 1) as nat);
}

/// A VOD playlist covering the full duration (`duration_ms`), in segments
/// of `segment_time` seconds; FFmpeg produces the segments on demand. A
/// start offset strictly inside the media adds `#EXT-X-START` for resume,
/// and a non-empty `segment_query` is appended to every segment and init
/// URI, since players do not carry the playlist's query string over.
pub fn vod_playlist(
    duration_ms: u64,
    segment_time: u32,
    start_offset_ms: Option<u64>,
    segment_query: &str,
) -> (r: String)
    requires
        segment_time > 0,
    ensures
        r@ == vod_playlist_text(
            duration_ms as nat,
            segment_time as nat,
            start_offset_ms,
            segment_query@,
        ),
{
    let t: u64 = segment_time as u64 * 1000;
    let d = duration_ms;
    assert(d / t <= d / 1000) by (nonlinear_arith)
        requires
            t >= 1000,
    ;
    let mut n: u64 = d / t + if d % t == 0 {
        0
    } else {
        1
    };
    proof {
        lemma_segment_bounds(d as nat, t as nat);
        assert((d / t) * t <= d) by (nonlinear_arith)
            requires
                t > 0,
        ;
        assert(d == (d / t) * t + d % t) by (nonlinear_arith)
            requires
                t > 0,
        ;
    }
    if n > 1 {
        assert((n - 1) * t <= d) by (nonlinear_arith)
            requires
                t > 0,
                n == d / t || n == d / t + 1,
                n == d / t + 1 ==> d % t != 0,
                (d / t) * t <= d,
                d == (d / t) * t + d % t,
        ;
        let last_len: u64 = d - (n - 1) * t;
        if last_len < 500 {
            n = n - 1;
        }
    }
    if n < 1 {
        n = 1;
    }
    assert(n == segment_count(d as nat, t as nat));
    let mut out: Vec<char> = Vec::new();
    append_str(&mut out, "#EXTM3U\n");
    append_str(&mut out, "#EXT-X-VERSION:7\n");
    append_str(&mut out, "#EXT-X-PLAYLIST-TYPE:VOD\n");
    append_str(&mut out, "#EXT-X-TARGETDURATION:");
    push_u64(&mut out, segment_time as u64 + 1);
    append_str(&mut out, "\n");
    append_str(&mut out, "#EXT-X-MEDIA-SEQUENCE:0\n");
    assert(out@ =~= playlist_header(segment_time as nat));
    let ghost after_header = out@;
    if let Some(offset) = start_offset_ms {
        if offset > 0 && offset < d {
            append_str(&mut out, "#EXT-X-START:TIME-OFFSET=");
            let o = seconds_chars(offset);
            append_chars(&mut out, o.as_slice());
            append_str(&mut out, ",PRECISE=YES\n");
        }
    }
    assert(out@ =~= after_header + start_line(start_offset_ms, d as nat));
    let q = chars_of(segment_query);
    let mut suffix: Vec<char> = Vec::new();
    if q.len() > 0 {
        suffix.push('?');
        append_chars(&mut suffix, q.as_slice());
    }
    assert(suffix@ =~= query_suffix(segment_query@));
    let ghost before_map = out@;
    append_str(&mut out, "#EXT-X-MAP:URI=\"init.mp4");
    append_chars(&mut out, suffix.as_slice());
    append_str(&mut out, "\"\n");
    assert(out@ =~= before_map + map_line(segment_query@));
    let ghost before_segments = out@;
    let mut i: u64 = 0;
    while i < n
        invariant
            0 <= i <= n,
            n == segment_count(d as nat, t as nat),
            t == segment_time as u64 * 1000,
            t > 0,
            (n - 1) * t <= d,
            suffix@ == query_suffix(segment_query@),
            out@ == before_segments + segment_entries(d as nat, t as nat, i as nat, segment_query@),
        decreases n - i,
    {
        let seg: u64 = if i == n - 1 {
            assert(i * t <= d);
            d - i * t
        } else {
            t
        };
        assert(seg as int == segment_duration(d as nat, t as nat, i as nat));
        let ghost before = out@;
        append_str(&mut out, "#EXTINF:");
        let sd = seconds_chars(seg);
        append_chars(&mut out, sd.as_slice());
        append_str(&mut out, ",\n");
        append_str(&mut out, "segment_");
        push_u64_padded(&mut out, i, 5);
        append_str(&mut out, ".m4s");
        append_chars(&mut out, suffix.as_slice());
        append_str(&mut out, "\n");
        assert(out@ =~= before + segment_entry(d as nat, t as nat, i as nat, segment_query@));
        i = i + 1;
    }
    append_str(&mut out, "#EXT-X-ENDLIST\n");
    assert(out@ =~= vod_playlist_text(
        duration_ms as nat,
        segment_time as nat,
        start_offset_ms,
        segment_query@,
    ));
    string_from_chars(out.as_slice())
}

/// Where an FFmpeg run starts, in ms: near the end the container duration
/// often exceeds the last decodable frame, so a seek is pulled back to at
/// most two segments before the end, on the segment grid.
pub open spec fn clamped_start(start_ms: nat, duration_ms: Option<u64>, t: nat) -> nat {
    match duration_ms {
        Some(d) => {
            let room: nat = if d >= 2 * t {
                (d - 2 * t) as nat
            } else {
                0
            };
            let latest: nat = (room / t) * t;
            if start_ms > latest {
                latest
            } else {
                start_ms
            }
        },
        None => start_ms,
    }
}

/// A seek is never moved later, and one pulled back near the end starts on
/// the segment grid at least two segments before the end of the media.
pub proof fn clamped_start_backs_off_on_grid(start_ms: nat, duration_ms: u64, t: nat)
    requires
        t > 0,
    ensures
        clamped_start(start_ms, Some(duration_ms), t) <= start_ms,
        clamped_start(start_ms, Some(duration_ms), t) != start_ms ==> {
            &&& clamped_start(start_ms, Some(duration_ms), t) % t == 0
            &&& duration_ms >= 2 * t ==> clamped_start(start_ms, Some(duration_ms), t) + 2 * t
                <= duration_ms
        },
{
    let room: nat = if duration_ms >= 2 * t {
        (duration_ms - 2 * t) as nat
    } else {
        0
    };
    let latest: nat = (room / t) * t;
    assert(latest % t == 0 && latest <= room) by (nonlinear_arith)
        requires
            t > 0,
            latest == (room / t) * t,
    {
        vstd::arithmetic::div_mod::lemma_fundamental_div_mod(room as int, t as int);
        vstd::arithmetic::div_mod::lemma_mod_multiples_basic((room / t) as int, t as int);
    }
}

/// The smaller of two integers.
pub open spec fn min_int(a: int, b: int) -> int {
    if a <= b {
        a
    } else {
        b
    }
}

/// The FFmpeg run for a job: the clamped start and its segment number, the
/// video bit rate capped by the device (8 Mbit/s when it gives none) and by
/// the source (8 Mbit/s when unknown, at most 20 Mbit/s), the requested
/// audio track or the probe's default (or the first), and the device's
/// acceleration, audio bit rate (192 kbit/s) and channels (2).
pub open spec fn transcode_plan(
    key: JobKey,
    profile: DeviceProfile,
    start_ms: nat,
    duration_ms: Option<u64>,
    source_bitrate: Option<i64>,
    probe_audio_index: Option<usize>,
    video_stream_index: usize,
    segment_time: nat,
) -> TranscodingContext {
    let t = segment_time * 1000;
    let start = clamped_start(start_ms, duration_ms, t);
    TranscodingContext {
        hwa_type: match profile.hardware_acceleration {
            Some(h) => h,
            None => HardwareAccelerationType::Software,
        },
        video_stream_index,
        audio_stream_index: match key.audio_stream_index {
            Some(i) => i,
            None => match probe_audio_index {
                Some(i) => i,
                None => 0,
            },
        },
        max_video_bitrate: min_int(
            match profile.max_streaming_bitrate {
                Some(b) => b as int,
                None => 8_000_000,
            },
            min_int(
                match source_bitrate {
                    Some(b) => b as int,
                    None => 8_000_000,
                },
                20_000_000,
            ),
        ) as i64,
        audio_bitrate: match profile.music_streaming_transcoding_bitrate {
            Some(b) => b as i64,
            None => 192_000,
        },
        audio_channels: match profile.max_audio_channels {
            Some(c) => c,
            None => 2,
        },
        start_time_ms: start as u64,
        start_number: (start / t) as usize,
        is_video_transcode: key.transcode_video,
        is_audio_transcode: key.transcode_audio,
    }
}

/// Plans the FFmpeg run of a job starting at `start_ms`, from the probe's
/// duration, bit rate and default audio track.
pub fn plan_transcode(
    key: &JobKey,
    profile: &DeviceProfile,
    start_ms: u64,
    duration_ms: Option<u64>,
    source_bitrate: Option<i64>,
    probe_audio_index: Option<usize>,
    video_stream_index: usize,
    segment_time: u32,
) -> (r: TranscodingContext)
    requires
        segment_time > 0,
    ensures
        r == transcode_plan(
            *key,
            *profile,
            start_ms as nat,
            duration_ms,
            source_bitrate,
            probe_audio_index,
            video_stream_index,
            segment_time as nat,
        ),
{
    let t: u64 = segment_time as u64 * 1000;
    let mut start: u64 = start_ms;
    if let Some(d) = duration_ms {
        let room: u64 = if d >= 2 * t {
            d - 2 * t
        } else {
            0
        };
        assert((room / t) * t <= room) by (nonlinear_arith)
            requires
                t > 0,
        ;
        let latest: u64 = (room / t) * t;
        if start > latest {
            start = latest;
        }
    }
    assert(start / t <= start) by (nonlinear_arith)
        requires
            t > 0,
    ;
    let start_number: u64 = start / t;
    let hwa_type = match profile.hardware_acceleration {
        Some(h) => h,
        None => HardwareAccelerationType::Software,
    };
    let audio_stream_index = match key.audio_stream_index {
        Some(i) => i,
        None => match probe_audio_index {
            Some(i) => i,
            None => 0,
        },
    };
    let device_cap: i64 = match profile.max_streaming_bitrate {
        Some(b) => b as i64,
        None => 8_000_000,
    };
    let source: i64 = match source_bitrate {
        Some(b) => b,
        None => 8_000_000,
    };
    let source_cap: i64 = if source <= 20_000_000 {
        source
    } else {
        20_000_000
    };
    let max_video_bitrate: i64 = if device_cap <= source_cap {
        device_cap
    } else {
        source_cap
    };
    TranscodingContext {
        hwa_type,
        video_stream_index,
        audio_stream_index,
        max_video_bitrate,
        audio_bitrate: match profile.music_streaming_transcoding_bitrate {
            Some(b) => b as i64,
            None => 192_000,
        },
        audio_channels: match profile.max_audio_channels {
            Some(c) => c,
            None => 2,
        },
        start_time_ms: start,
        start_number: start_number as usize,
        is_video_transcode: key.transcode_video,
        is_audio_transcode: key.transcode_audio,
    }
}

/// Whether a segment request must (re)start FFmpeg: when no session runs
/// for the job, when the segment lies before the session's first segment
/// or more than 50 segments after it, or when the session's FFmpeg has
/// exited (it can produce no further segments).
pub open spec fn must_restart(session_start: Option<usize>, session_exited: bool, segment_index: usize) -> bool {
    let out_of_window = match session_start {
        Some(start) => segment_index < start || segment_index > start + 50,
        None => true,
    };
    out_of_window || session_exited
}

/// Whether the segment request must (re)start FFmpeg.
pub fn needs_restart(session_start: Option<usize>, session_exited: bool, segment_index: usize) -> (r:
    bool)
    ensures
        r == must_restart(session_start, session_exited, segment_index),
{
    let out_of_window = match session_start {
        Some(start) => segment_index < start || segment_index - start > 50,
        None => true,
    };
    out_of_window || session_exited
}

/// The time in ms at which segment `segment_index` starts.
pub fn segment_start_ms(segment_index: usize, segment_time: u32) -> (r: u64)
    requires
        segment_index * segment_time * 1000 <= u64::MAX,
    ensures
        r == segment_index * segment_time * 1000,
{
    segment_index as u64 * segment_time as u64 * 1000
}

/// A job cache directory, as cache maintenance sees it.
#[derive(Debug, Clone)]
pub struct CacheDir {
    pub name: String,
    /// Whether a transcode session is running for it.
    pub active: bool,
    /// Last modification time (nanoseconds since the Unix epoch; 0 when
    /// unknown).
    pub modified: u64,
    /// Total size of its files in bytes.
    pub size: u64,
}

impl SortOrder for CacheDir {
    /// Older directories come first.
    open spec fn comes_after(a: CacheDir, b: CacheDir) -> bool {
        a.modified > b.modified
    }

    fn is_after(a: &CacheDir, b: &CacheDir) -> (r: bool) {
        a.modified > b.modified
    }
}

/// Whether no transcode session is running for a directory.
pub open spec fn is_idle() -> spec_fn(CacheDir) -> bool {
    |d: CacheDir| !d.active
}

/// The directories that cache maintenance may evict, oldest first: those
/// without an active session.
pub open spec fn eviction_candidates(dirs: Seq<CacheDir>) -> Seq<CacheDir> {
    stable_sorted(dirs.filter(is_idle()))
}

/// The names of the directories evicted, in order, from `dirs`:
/// directories are taken while less than `need` bytes have been freed.
pub open spec fn evicted(dirs: Seq<CacheDir>, freed: nat, need: nat) -> Seq<Seq<char>>
    decreases dirs.len(),
{
    if dirs.len() == 0 || freed >= need {
        Seq::empty()
    } else {
        seq![dirs[0].name@] + evicted(dirs.drop_first(), freed + dirs[0].size as nat, need)
    }
}

/// What cache maintenance evicts: nothing without a limit (0 MB) or while
/// the cache is within it; otherwise directories without an active
/// session, oldest first, until the excess is freed (or none is left).
pub open spec fn cache_eviction(dirs: Seq<CacheDir>, current: nat, max_cache_size_mb: nat) -> Seq<
    Seq<char>,
> {
    let max_bytes = max_cache_size_mb * 1024 * 1024;
    if max_cache_size_mb == 0 || current <= max_bytes {
        Seq::empty()
    } else {
        evicted(eviction_candidates(dirs), 0, (current - max_bytes) as nat)
    }
}

/// The directories without an active session, in their order.
fn idle_dirs(dirs: Vec<CacheDir>) -> (r: Vec<CacheDir>)
    ensures
        r@ == dirs@.filter(is_idle()),
{
    let mut out: Vec<CacheDir> = Vec::new();
    let mut i: usize = 0;
    while i < dirs.len()
        invariant
            0 <= i <= dirs@.len(),
            out@ == dirs@.take(i as int).filter(is_idle()),
        decreases dirs@.len() - i,
    {
        assert(dirs@.take(i + 1).drop_last() =~= dirs@.take(i as int));
        assert(dirs@.take(i + 1).last() == dirs@[i as int]);
        proof {
            reveal(Seq::filter);
        }
        if !dirs[i].active {
            let d = CacheDir {
                name: dirs[i].name.clone(),
                active: dirs[i].active,
                modified: dirs[i].modified,
                size: dirs[i].size,
            };
            assert(d == dirs@[i as int]);
            out.push(d);
        }
        i = i + 1;
    }
    assert(dirs@.take(dirs@.len() as int) =~= dirs@);
    out
}

/// The directories to evict so that the transcode cache fits its limit.
pub fn cache_evictions(dirs: Vec<CacheDir>, current: u64, max_cache_size_mb: u64) -> (r: Vec<String>)
    requires
        max_cache_size_mb * 1024 * 1024 <= u64::MAX,
    ensures
        string_views(r@) == cache_eviction(dirs@, current as nat, max_cache_size_mb as nat),
{
    let mut out: Vec<String> = Vec::new();
    if max_cache_size_mb == 0 {
        return out;
    }
    let max_bytes: u64 = max_cache_size_mb * 1024 * 1024;
    if current <= max_bytes {
        return out;
    }
    let need: u64 = current - max_bytes;
    let sorted = stable_sort(idle_dirs(dirs));
    let mut freed: u128 = 0;
    let mut i: usize = 0;
    assert(sorted@.skip(0) =~= sorted@);
    assert(string_views(out@) =~= Seq::<Seq<char>>::empty());
    assert(string_views(out@) + evicted(sorted@.skip(0), 0, need as nat) =~= evicted(sorted@, 0, need as nat));
    while i < sorted.len()
        invariant_except_break
            0 <= i <= sorted@.len(),
            freed <= i * 0x1_0000_0000_0000_0000,
            string_views(out@) + evicted(sorted@.skip(i as int), freed as nat, need as nat)
                == evicted(sorted@, 0, need as nat),
        ensures
            string_views(out@) == evicted(sorted@, 0, need as nat),
        decreases sorted@.len() - i,
    {
        if freed >= need as u128 {
            assert(string_views(out@) =~= string_views(out@) + evicted(
                sorted@.skip(i as int),
                freed as nat,
                need as nat,
            ));
            break;
        }
        let ghost rest = sorted@.skip(i as int);
        assert(rest.drop_first() =~= sorted@.skip(i + 1));
        let ghost before = string_views(out@);
        out.push(sorted[i].name.clone());
        assert(string_views(out@) =~= before.push(sorted@[i as int].name@));
        freed = freed + sorted[i].size as u128;
        assert(string_views(out@) + evicted(sorted@.skip(i + 1), freed as nat, need as nat) =~= before
            + evicted(rest, (freed - sorted@[i as int].size) as nat, need as nat));
        i = i + 1;
    }
    proof {
        if i == sorted@.len() {
            assert(sorted@.skip(i as int) =~= Seq::<CacheDir>::empty());
        }
    }
    out
}

proof fn lemma_evicted_prefix(dirs: Seq<CacheDir>, freed: nat, need: nat)
    ensures
        evicted(dirs, freed, need).len() <= dirs.len(),
        forall|k: int|
            0 <= k < evicted(dirs, freed, need).len() ==> #[trigger] evicted(dirs, freed, need)[k]
                == dirs[k].name@,
    decreases dirs.len(),
{
    if dirs.len() > 0 && freed < need {
        lemma_evicted_prefix(dirs.drop_first(), freed + dirs[0].size as nat, need);
    }
}

/// The ids of sessions that have run for more than an hour.
pub open spec fn stale_ids(sessions: Seq<(String, u64)>) -> Seq<Seq<char>>
    decreases sessions.len(),
{
    if sessions.len() == 0 {
        Seq::empty()
    } else if sessions.last().1 > 3600 {
        stale_ids(sessions.drop_last()).push(sessions.last().0@)
    } else {
        stale_ids(sessions.drop_last())
    }
}

/// The sessions (id, seconds since start) that have timed out, in order.
pub fn stale_sessions(sessions: &Vec<(String, u64)>) -> (r: Vec<String>)
    ensures
        string_views(r@) == stale_ids(sessions@),
{
    let mut out: Vec<String> = Vec::new();
    let mut i: usize = 0;
    while i < sessions.len()
        invariant
            0 <= i <= sessions@.len(),
            string_views(out@) == stale_ids(sessions@.take(i as int)),
        decreases sessions@.len() - i,
    {
        assert(sessions@.take(i + 1).drop_last() =~= sessions@.take(i as int));
        let ghost before = string_views(out@);
        if sessions[i].1 > 3600 {
            out.push(sessions[i].0.clone());
            assert(string_views(out@) =~= before.push(sessions@[i as int].0@));
        }
        i = i + 1;
    }
    assert(sessions@.take(sessions@.len() as int) =~= sessions@);
    out
}

/// Cache eviction never touches a directory with an active session: it
/// evicts, in order, a prefix of the idle directories taken oldest first
/// (every idle directory is a candidate, each once).
pub proof fn eviction_spares_active_and_takes_oldest_first(
    dirs: Seq<CacheDir>,
    current: nat,
    max_cache_size_mb: nat,
)
    ensures
        ({
            let cands = eviction_candidates(dirs);
            let out = cache_eviction(dirs, current, max_cache_size_mb);
            &&& out.len() <= cands.len()
            &&& forall|k: int| 0 <= k < out.len() ==> #[trigger] out[k] == cands[k].name@
            &&& forall|k: int| 0 <= k < cands.len() ==> !(#[trigger] cands[k]).active
            &&& forall|i: int, j: int|
                0 <= i < j < cands.len() ==> (#[trigger] cands[i]).modified <= (
                #[trigger] cands[j]).modified
            &&& forall|k: int|
                0 <= k < dirs.len() && !(#[trigger] dirs[k]).active ==> cands.contains(dirs[k])
            &&& cands.to_multiset() == dirs.filter(is_idle()).to_multiset()
        }),
{
    let idle = dirs.filter(is_idle());
    let cands = eviction_candidates(dirs);
    assert(crate::sort::asymmetric::<CacheDir>());
    assert(crate::sort::not_after_transitive::<CacheDir>());
    crate::sort::stable_sorted_is_pairwise_sorted(idle);
    crate::sort::stable_sorted_is_permutation(idle);
    lemma_evicted_prefix(cands, 0, 0);
    let max_bytes = max_cache_size_mb * 1024 * 1024;
    if !(max_cache_size_mb == 0 || current <= max_bytes) {
        lemma_evicted_prefix(cands, 0, (current - max_bytes) as nat);
    }
    assert forall|k: int| 0 <= k < cands.len() implies !(#[trigger] cands[k]).active by {
        assert(cands.contains(cands[k]));
        vstd::seq_lib::to_multiset_contains(cands, cands[k]);
        vstd::seq_lib::to_multiset_contains(idle, cands[k]);
        let j = choose|j: int| 0 <= j < idle.len() && idle[j] == cands[k];
        dirs.lemma_filter_pred(is_idle(), j);
    }
    assert forall|k: int|
        0 <= k < dirs.len() && !(#[trigger] dirs[k]).active implies cands.contains(dirs[k]) by {
        dirs.lemma_filter_contains(is_idle(), k);
        vstd::seq_lib::to_multiset_contains(idle, dirs[k]);
        vstd::seq_lib::to_multiset_contains(cands, dirs[k]);
    }
}

/// What the stream endpoint reports about a media item.
#[derive(Debug, Clone)]
pub struct StreamInfo {
    pub needs_transcode: bool,
    pub video_codec: Option<String>,
    pub audio_codec: Option<String>,
    pub container: Option<String>,
    pub direct_stream_url: String,
    pub hls_url: Option<String>,
    /// The probed duration in whole milliseconds, when known.
    pub duration_ms: Option<u64>,
}

/// The URL of a media item's transcoded HLS master playlist.
pub open spec fn hls_master_url(media_id: i64) -> Seq<char> {
    "/api/v1/stream/"@ + int_str(media_id as int)
        + "/hls/master.m3u8?video_transcode=true&audio_transcode=true"@
}

/// Whether a probed file must be transcoded for device profile `p`.
pub open spec fn must_transcode(probe: MediaProbeResult, p: DeviceProfile) -> bool {
    play_decision(probe.media_info, p, None, None).0 == PlayMethod::Transcode
}

/// The stream information of media item `media_id` from its probe: it
/// needs a transcode when the device (the generic browser when the client
/// sends no profile) cannot play or remux it, and then gets an HLS URL.
pub fn stream_info(
    media_id: i64,
    probe: MediaProbeResult,
    profile: Option<DeviceProfile>,
    duration_ms: Option<u64>,
) -> (r: StreamInfo)
    ensures
        match profile {
            Some(p) => r.needs_transcode == must_transcode(probe, p),
            None => exists|d: DeviceProfile|
                generic_browser(d) && r.needs_transcode == must_transcode(probe, d),
        },
        r.video_codec == probe.video_codec,
        r.audio_codec == probe.audio_codec,
        r.container == probe.container,
        r.direct_stream_url@ == stream_url_of(media_id),
        opt_string_view(r.hls_url) == (if r.needs_transcode {
            Some(hls_master_url(media_id))
        } else {
            None
        }),
        r.duration_ms == duration_ms,
{
    let profile = match profile {
        Some(p) => p,
        None => DeviceProfile::default(),
    };
    let (method, _reason) = StreamBuilder::determine_play_method(&probe.media_info, &profile, None, None);
    let needs_transcode = method == PlayMethod::Transcode;
    let mut direct: Vec<char> = Vec::new();
    append_str(&mut direct, "/api/v1/stream/");
    push_i64(&mut direct, media_id);
    let ghost direct_text = direct@;
    let hls_url = if needs_transcode {
        let mut hls = direct.clone();
        append_str(&mut hls, "/hls/master.m3u8?video_transcode=true&audio_transcode=true");
        assert(hls@ =~= hls_master_url(media_id));
        Some(string_from_chars(hls.as_slice()))
    } else {
        None
    };
    assert(direct@ =~= stream_url_of(media_id));
    StreamInfo {
        needs_transcode,
        video_codec: probe.video_codec,
        audio_codec: probe.audio_codec,
        container: probe.container,
        direct_stream_url: string_from_chars(direct.as_slice()),
        hls_url,
        duration_ms,
    }
}

/// What to do next while waiting for a segment or the init segment.
#[derive(Debug)]
pub enum WaitStep {
    /// The file is there.
    Ready,
    /// Sleep, then look again.
    Wait,
    /// Give up with this error.
    Fail(AppError),
}

/// The next step of waiting for a media segment, from whether the file
/// exists, whether the job's FFmpeg has exited, and how long the wait has
/// run: a segment that an exited FFmpeg did not write never appears.
pub fn segment_wait_step(exists: bool, exited: bool, elapsed_secs: u64, timeout_secs: u64) -> (r:
    WaitStep)
    ensures
        exists ==> r is Ready,
        !exists && elapsed_secs >= timeout_secs ==> (r matches WaitStep::Fail(AppError::NotFound(m))
            && m@ == "Segment not ready in time"@),
        !exists && elapsed_secs < timeout_secs && exited ==> (r matches WaitStep::Fail(
            AppError::NotFound(m),
        ) && m@ == "Segment past end of stream"@),
        !exists && elapsed_secs < timeout_secs && !exited ==> r is Wait,
{
    if exists {
        WaitStep::Ready
    } else if elapsed_secs >= timeout_secs {
        WaitStep::Fail(AppError::NotFound(String::from_str("Segment not ready in time")))
    } else if exited {
        WaitStep::Fail(AppError::NotFound(String::from_str("Segment past end of stream")))
    } else {
        WaitStep::Wait
    }
}

/// The next step of waiting for the init segment.
pub fn init_wait_step(exists: bool, exited: bool, elapsed_secs: u64, timeout_secs: u64) -> (r:
    WaitStep)
    ensures
        exists ==> r is Ready,
        !exists && (elapsed_secs >= timeout_secs || exited) ==> (r matches WaitStep::Fail(
            AppError::NotFound(m),
        ) && m@ == "Init segment not ready"@),
        !exists && elapsed_secs < timeout_secs && !exited ==> r is Wait,
{
    if exists {
        WaitStep::Ready
    } else if elapsed_secs >= timeout_secs || exited {
        WaitStep::Fail(AppError::NotFound(String::from_str("Init segment not ready")))
    } else {
        WaitStep::Wait
    }
}

/// The next pause between looks, in ms: double the last, at most 500.
pub fn next_delay_ms(delay_ms: u64) -> (r: u64)
    requires
        delay_ms * 2 <= u64::MAX,
    ensures
        r == (if delay_ms * 2 <= 500 {
            delay_ms * 2
        } else {
            500
        }),
{
    let d = delay_ms * 2;
    if d <= 500 {
        d
    } else {
        500
    }
}

/// The cache directories left behind by a crash or restart: directories
/// whose name is a job's (starts with a media id) and that no running
/// session owns. Each entry is (name, is a directory, has a session).
pub open spec fn orphans(entries: Seq<(String, bool, bool)>) -> Seq<Seq<char>>
    decreases entries.len(),
{
    if entries.len() == 0 {
        Seq::empty()
    } else {
        let rest = orphans(entries.drop_last());
        let e = entries.last();
        if e.1 && media_id_of_dir(e.0@) is Some && !e.2 {
            rest.push(e.0@)
        } else {
            rest
        }
    }
}

/// The cache directories to remove as orphaned, in order.
pub fn orphaned_dirs(entries: &Vec<(String, bool, bool)>) -> (r: Vec<String>)
    ensures
        string_views(r@) == orphans(entries@),
{
    let mut out: Vec<String> = Vec::new();
    let mut i: usize = 0;
    while i < entries.len()
        invariant
            0 <= i <= entries@.len(),
            string_views(out@) == orphans(entries@.take(i as int)),
        decreases entries@.len() - i,
    {
        assert(entries@.take(i + 1).drop_last() =~= entries@.take(i as int));
        let e = &entries[i];
        if e.1 && !e.2 && JobKey::media_id_from_dir(e.0.as_str()).is_some() {
            let ghost before = string_views(out@);
            out.push(e.0.clone());
            assert(string_views(out@) =~= before.push(e.0@));
        }
        i = i + 1;
    }
    assert(entries@.take(entries@.len() as int) =~= entries@);
    out
}

/// The next step of waiting for a freshly started FFmpeg run: ready once
/// both its playlist and its init segment exist; a run that has not
/// produced them in time is given up.
pub fn run_ready_step(playlist_exists: bool, init_exists: bool, elapsed_secs: u64, timeout_secs: u64) -> (r:
    WaitStep)
    ensures
        elapsed_secs < timeout_secs && playlist_exists && init_exists ==> r is Ready,
        elapsed_secs < timeout_secs && !(playlist_exists && init_exists) ==> r is Wait,
        elapsed_secs >= timeout_secs ==> (r matches WaitStep::Fail(AppError::Internal(m)) && m@
            == "FFmpeg failed to produce playlist in time"@),
{
    if elapsed_secs >= timeout_secs {
        WaitStep::Fail(AppError::Internal(String::from_str("FFmpeg failed to produce playlist in time")))
    } else if playlist_exists && init_exists {
        WaitStep::Ready
    } else {
        WaitStep::Wait
    }
}

} // verus!

//! What a probe of a media file finds: the streams and format that
//! `ffprobe` reports, turned into the server's `MediaInfo`.
//!
//! Running `ffprobe` and reading its JSON is left to the caller; the
//! streams and format come here as plain values, and everything decided
//! from them is stated here.

use vstd::prelude::*;
use crate::models::db::media_info::{AudioStream, MediaInfo, SubtitleStream, VideoStream};
use crate::number::{parse_i64, parse_i64_spec, parsed_int};
use crate::sort::{
    adjacent_sorted, asymmetric, stable_sort, stable_sorted, stable_sorted_is_permutation,
    stable_sorted_is_sorted, SortOrder,
};
use crate::text::{chars_eq_str, chars_of};

verus! {

/// One stream as `ffprobe` reports it (its `tags` and `disposition`
/// objects flattened into their fields).
#[derive(Debug, Clone)]
pub struct ProbeStream {
    pub index: i32,
    pub codec_type: Option<String>,
    pub codec_name: Option<String>,
    pub codec_tag_string: Option<String>,
    pub width: Option<i32>,
    pub height: Option<i32>,
    pub profile: Option<String>,
    pub pix_fmt: Option<String>,
    pub r_frame_rate: Option<String>,
    pub bit_rate: Option<String>,
    pub bits_per_raw_sample: Option<String>,
    pub channels: Option<i32>,
    pub channel_layout: Option<String>,
    pub sample_rate: Option<String>,
    pub language: Option<String>,
    pub title: Option<String>,
    pub disposition_default: Option<i32>,
    pub disposition_forced: Option<i32>,
    pub color_space: Option<String>,
    pub color_transfer: Option<String>,
    pub color_primaries: Option<String>,
    pub refs: Option<i32>,
}

/// The container format as `ffprobe` reports it.
#[derive(Debug, Clone)]
pub struct ProbeFormat {
    pub format_name: Option<String>,
    pub duration: Option<String>,
    pub size: Option<String>,
    pub bit_rate: Option<String>,
}

/// What probing a file yields for playback.
#[derive(Debug, Clone)]
pub struct MediaProbeResult {
    pub video_codec: Option<String>,
    /// Absolute FFmpeg index of the video stream (0 without one).
    pub video_stream_index: usize,
    pub audio_codec: Option<String>,
    /// Absolute FFmpeg index of the preferred audio stream.
    pub audio_stream_index: Option<usize>,
    pub container: Option<String>,
    pub media_info: MediaInfo,
}

/// What `str::parse::<i32>` gives for `s`.
pub open spec fn parse_i32_spec(s: Seq<char>) -> Option<i32> {
    match parsed_int(s) {
        Some(v) => if i32::MIN <= v <= i32::MAX {
            Some(v as i32)
        } else {
            None
        },
        None => None,
    }
}

/// An optional text read as an `i64`, `None` where it is absent or not a
/// number.
pub open spec fn opt_i64(s: Option<String>) -> Option<i64> {
    match s {
        Some(v) => parse_i64_spec(v@),
        None => None,
    }
}

/// An optional text read as an `i32`, `None` where it is absent or not a
/// number.
pub open spec fn opt_i32(s: Option<String>) -> Option<i32> {
    match s {
        Some(v) => parse_i32_spec(v@),
        None => None,
    }
}

/// Reads an optional text as `str::parse::<i64>` does.
pub fn parse_opt_i64(s: &Option<String>) -> (r: Option<i64>)
    ensures
        r == opt_i64(*s),
{
    match s {
        Some(v) => {
            let cs = chars_of(v.as_str());
            parse_i64(cs.as_slice())
        },
        None => None,
    }
}

/// Reads an optional text as `str::parse::<i32>` does.
pub fn parse_opt_i32(s: &Option<String>) -> (r: Option<i32>)
    ensures
        r == opt_i32(*s),
{
    match parse_opt_i64(s) {
        Some(v) => if -2147483648 <= v && v <= 2147483647 {
            Some(v as i32)
        } else {
            None
        },
        None => None,
    }
}

/// Whether a stream is of kind `kind` (`"video"`, `"audio"`, ...).
pub open spec fn is_kind(s: ProbeStream, kind: Seq<char>) -> bool {
    s.codec_type matches Some(t) && t@ == kind
}

/// The codec name of a stream, empty when `ffprobe` gives none.
pub open spec fn codec_text(s: ProbeStream) -> Seq<char> {
    match s.codec_name {
        Some(c) => c@,
        None => Seq::empty(),
    }
}

/// Whether `v` is what stream `s` becomes as the video stream.
pub open spec fn video_from(s: ProbeStream, v: VideoStream) -> bool {
    &&& v.index == s.index
    &&& v.codec@ == codec_text(s)
    &&& v.profile == s.profile
    &&& v.width == s.width
    &&& v.height == s.height
    &&& v.aspect_ratio is None
    &&& v.bit_rate == opt_i64(s.bit_rate)
    &&& v.frame_rate == s.r_frame_rate
    &&& v.bit_depth == opt_i32(s.bits_per_raw_sample)
    &&& v.pixel_format == s.pix_fmt
    &&& v.color_space == s.color_space
    &&& v.color_transfer == s.color_transfer
    &&& v.color_primaries == s.color_primaries
    &&& v.ref_frames == s.refs
    &&& v.codec_tag == s.codec_tag_string
}

/// Whether `a` is what stream `s` becomes as an audio stream: default or
/// forced where its disposition flag is 1.
pub open spec fn audio_from(s: ProbeStream, a: AudioStream) -> bool {
    &&& a.index == s.index
    &&& a.codec@ == codec_text(s)
    &&& a.channels == s.channels
    &&& a.channel_layout == s.channel_layout
    &&& a.sample_rate == opt_i32(s.sample_rate)
    &&& a.bit_rate == opt_i64(s.bit_rate)
    &&& a.language == s.language
    &&& a.title == s.title
    &&& a.default == (s.disposition_default == Some(1i32))
    &&& a.forced == (s.disposition_forced == Some(1i32))
}

/// Whether `t` is what stream `s` becomes as a subtitle stream.
pub open spec fn subtitle_from(s: ProbeStream, t: SubtitleStream) -> bool {
    &&& t.index == s.index
    &&& t.codec@ == codec_text(s)
    &&& t.language == s.language
    &&& t.title == s.title
    &&& !t.is_external
    &&& t.is_forced == (s.disposition_forced == Some(1i32))
    &&& t.is_default == (s.disposition_default == Some(1i32))
}

/// The position of the first video stream.
pub open spec fn first_video(streams: Seq<ProbeStream>) -> Option<int>
    decreases streams.len(),
{
    if streams.len() == 0 {
        None
    } else {
        match first_video(streams.drop_last()) {
            Some(k) => Some(k),
            None => if is_kind(streams.last(), "video"@) {
                Some(streams.len() - 1)
            } else {
                None
            },
        }
    }
}

/// The positions of the streams of kind `kind`, in order.
pub open spec fn positions_of(streams: Seq<ProbeStream>, kind: Seq<char>) -> Seq<int>
    decreases streams.len(),
{
    if streams.len() == 0 {
        Seq::empty()
    } else {
        let rest = positions_of(streams.drop_last(), kind);
        if is_kind(streams.last(), kind) {
            rest.push(streams.len() - 1)
        } else {
            rest
        }
    }
}

/// Whether `out` holds, in order, what the streams at positions `pos`
/// become as audio streams.
pub open spec fn audio_list(streams: Seq<ProbeStream>, pos: Seq<int>, out: Seq<AudioStream>) -> bool {
    &&& out.len() == pos.len()
    &&& forall|i: int| 0 <= i < out.len() ==> audio_from(streams[pos[i]], #[trigger] out[i])
}

/// Whether `out` holds, in order, what the streams at positions `pos`
/// become as subtitle streams.
pub open spec fn subtitle_list(streams: Seq<ProbeStream>, pos: Seq<int>, out: Seq<SubtitleStream>) -> bool {
    &&& out.len() == pos.len()
    &&& forall|i: int| 0 <= i < out.len() ==> subtitle_from(streams[pos[i]], #[trigger] out[i])
}

impl SortOrder for AudioStream {
    /// Default streams come first; the order is otherwise kept.
    open spec fn comes_after(a: AudioStream, b: AudioStream) -> bool {
        !a.default && b.default
    }

    fn is_after(a: &AudioStream, b: &AudioStream) -> (r: bool) {
        !a.default && b.default
    }
}

/// The video stream that `s` becomes.
fn video_stream_of(s: ProbeStream) -> (v: VideoStream)
    ensures
        video_from(s, v),
{
    let bit_rate = parse_opt_i64(&s.bit_rate);
    let bit_depth = parse_opt_i32(&s.bits_per_raw_sample);
    VideoStream {
        index: s.index,
        codec: match s.codec_name {
            Some(c) => c,
            None => String::new(),
        },
        profile: s.profile,
        width: s.width,
        height: s.height,
        aspect_ratio: None,
        bit_rate,
        frame_rate: s.r_frame_rate,
        bit_depth,
        pixel_format: s.pix_fmt,
        color_space: s.color_space,
        color_transfer: s.color_transfer,
        color_primaries: s.color_primaries,
        ref_frames: s.refs,
        codec_tag: s.codec_tag_string,
    }
}

/// The audio stream that `s` becomes.
fn audio_stream_of(s: ProbeStream) -> (a: AudioStream)
    ensures
        audio_from(s, a),
{
    let sample_rate = parse_opt_i32(&s.sample_rate);
    let bit_rate = parse_opt_i64(&s.bit_rate);
    let default = match s.disposition_default {
        Some(d) => d == 1,
        None => false,
    };
    let forced = match s.disposition_forced {
        Some(d) => d == 1,
        None => false,
    };
    AudioStream {
        index: s.index,
        codec: match s.codec_name {
            Some(c) => c,
            None => String::new(),
        },
        channels: s.channels,
        channel_layout: s.channel_layout,
        sample_rate,
        bit_rate,
        language: s.language,
        title: s.title,
        default,
        forced,
    }
}

/// The subtitle stream that `s` becomes.
fn subtitle_stream_of(s: ProbeStream) -> (t: SubtitleStream)
    ensures
        subtitle_from(s, t),
{
    let is_default = match s.disposition_default {
        Some(d) => d == 1,
        None => false,
    };
    let is_forced = match s.disposition_forced {
        Some(d) => d == 1,
        None => false,
    };
    SubtitleStream {
        index: s.index,
        codec: match s.codec_name {
            Some(c) => c,
            None => String::new(),
        },
        language: s.language,
        title: s.title,
        is_external: false,
        is_forced,
        is_default,
    }
}

/// The kind of a stream, as the probe sorts streams.
enum Kind {
    Video,
    Audio,
    Subtitle,
    Other,
}

fn kind_of(s: &ProbeStream) -> (k: Kind)
    ensures
        k is Video <==> is_kind(*s, "video"@),
        k is Audio <==> is_kind(*s, "audio"@),
        k is Subtitle <==> is_kind(*s, "subtitle"@),
{
    proof {
        reveal_strlit("video");
        reveal_strlit("audio");
        reveal_strlit("subtitle");
        assert("video"@[0] == 'v' && "audio"@[0] == 'a' && "subtitle"@[0] == 's');
    }
    match &s.codec_type {
        Some(t) => {
            let cs = chars_of(t.as_str());
            if chars_eq_str(cs.as_slice(), "video") {
                Kind::Video
            } else if chars_eq_str(cs.as_slice(), "audio") {
                Kind::Audio
            } else if chars_eq_str(cs.as_slice(), "subtitle") {
                Kind::Subtitle
            } else {
                Kind::Other
            }
        },
        None => Kind::Other,
    }
}

/// Sorts the probed streams into the first video stream, the audio streams
/// and the subtitle streams, each in probe order.
pub fn split_streams(streams: Vec<ProbeStream>) -> (r: (
    Option<VideoStream>,
    Vec<AudioStream>,
    Vec<SubtitleStream>,
))
    ensures
        match first_video(streams@) {
            Some(k) => r.0 matches Some(v) && video_from(streams@[k], v),
            None => r.0 is None,
        },
        audio_list(streams@, positions_of(streams@, "audio"@), r.1@),
        subtitle_list(streams@, positions_of(streams@, "subtitle"@), r.2@),
{
    let ghost all = streams@;
    let mut video: Option<VideoStream> = None;
    let mut audio: Vec<AudioStream> = Vec::new();
    let mut subtitles: Vec<SubtitleStream> = Vec::new();
    for s in it: streams.into_iter()
        invariant
            it.seq() == all,
            match first_video(all.take(it.index() as int)) {
                Some(k) => video matches Some(v) && video_from(all[k], v),
                None => video is None,
            },
            audio_list(all, positions_of(all.take(it.index() as int), "audio"@), audio@),
            subtitle_list(all, positions_of(all.take(it.index() as int), "subtitle"@), subtitles@),
    {
        let ghost i = it.index() as int;
        let ghost pre = all.take(i + 1);
        assert(pre.drop_last() =~= all.take(i));
        assert(pre.last() == s);
        assert(all[i] == s);
        proof {
            lemma_positions_below(all.take(i), "audio"@);
            lemma_positions_below(all.take(i), "subtitle"@);
            lemma_first_video_below(all.take(i));
            assert forall|j: int| 0 <= j < i implies all.take(i)[j] == all[j] by {}
        }
        match kind_of(&s) {
            Kind::Video => {
                if video.is_none() {
                    video = Some(video_stream_of(s));
                }
            },
            Kind::Audio => {
                let ghost before = audio@;
                audio.push(audio_stream_of(s));
                assert forall|j: int| 0 <= j < audio@.len() implies audio_from(
                    all[positions_of(pre, "audio"@)[j]],
                    #[trigger] audio@[j],
                ) by {
                    if j < before.len() {
                        assert(positions_of(pre, "audio"@)[j] == positions_of(all.take(i), "audio"@)[j]);
                    }
                }
            },
            Kind::Subtitle => {
                let ghost before = subtitles@;
                subtitles.push(subtitle_stream_of(s));
                assert forall|j: int| 0 <= j < subtitles@.len() implies subtitle_from(
                    all[positions_of(pre, "subtitle"@)[j]],
                    #[trigger] subtitles@[j],
                ) by {
                    if j < before.len() {
                        assert(positions_of(pre, "subtitle"@)[j] == positions_of(all.take(i), "subtitle"@)[j]);
                    }
                }
            },
            Kind::Other => {},
        }
    }
    assert(all.take(all.len() as int) =~= all);
    (video, audio, subtitles)
}

proof fn lemma_positions_below(streams: Seq<ProbeStream>, kind: Seq<char>)
    ensures
        forall|j: int|
            0 <= j < positions_of(streams, kind).len() ==> 0 <= #[trigger] positions_of(
                streams,
                kind,
            )[j] < streams.len(),
    decreases streams.len(),
{
    if streams.len() > 0 {
        let rest = positions_of(streams.drop_last(), kind);
        lemma_positions_below(streams.drop_last(), kind);
        assert forall|j: int| 0 <= j < positions_of(streams, kind).len() implies 0
            <= #[trigger] positions_of(streams, kind)[j] < streams.len() by {
            if j < rest.len() {
                assert(positions_of(streams, kind)[j] == rest[j]);
            }
        }
    }
}

proof fn lemma_first_video_below(streams: Seq<ProbeStream>)
    ensures
        first_video(streams) matches Some(k) ==> 0 <= k < streams.len(),
    decreases streams.len(),
{
    if streams.len() > 0 {
        lemma_first_video_below(streams.drop_last());
    }
}

/// The probe result for a file whose streams and format `ffprobe`
/// reported: the first video stream; the audio streams with the default
/// ones first (otherwise in probe order), the first of them being the
/// preferred one; the subtitle streams; and the format's container name,
/// size and bit rate.
pub fn probe_result(streams: Vec<ProbeStream>, format: Option<ProbeFormat>) -> (r: MediaProbeResult)
    ensures
        match first_video(streams@) {
            Some(k) => r.media_info.video matches Some(v) && video_from(streams@[k], v),
            None => r.media_info.video is None,
        },
        exists|audio: Seq<AudioStream>|
            audio_list(streams@, positions_of(streams@, "audio"@), audio) && r.media_info.audio@
                == stable_sorted(audio),
        subtitle_list(streams@, positions_of(streams@, "subtitle"@), r.media_info.subtitles@),
        r.container == (match format {
            Some(f) => f.format_name,
            None => None,
        }),
        r.media_info.container == r.container,
        r.media_info.size == (match format {
            Some(f) => opt_i64(f.size),
            None => None,
        }),
        r.media_info.bit_rate == (match format {
            Some(f) => opt_i64(f.bit_rate),
            None => None,
        }),
        r.video_codec == (match r.media_info.video {
            Some(v) => Some(v.codec),
            None => None,
        }),
        r.video_stream_index == (match r.media_info.video {
            Some(v) => v.index as usize,
            None => 0,
        }),
        r.media_info.audio@.len() > 0 ==> r.audio_codec == Some(r.media_info.audio@[0].codec)
            && r.audio_stream_index == Some(r.media_info.audio@[0].index as usize),
        r.media_info.audio@.len() == 0 ==> r.audio_codec is None && r.audio_stream_index is None,
{
    let (video, audio, subtitles) = split_streams(streams);
    let ghost unsorted = audio@;
    let audio = stable_sort(audio);
    let (container, size, bit_rate) = match format {
        Some(f) => {
            let size = parse_opt_i64(&f.size);
            let bit_rate = parse_opt_i64(&f.bit_rate);
            (f.format_name, size, bit_rate)
        },
        None => (None, None, None),
    };
    let video_codec = match &video {
        Some(v) => Some(v.codec.clone()),
        None => None,
    };
    let video_stream_index: usize = match &video {
        Some(v) => v.index as usize,
        None => 0,
    };
    let (audio_codec, audio_stream_index) = if audio.len() > 0 {
        (Some(audio[0].codec.clone()), Some(audio[0].index as usize))
    } else {
        (None, None)
    };
    let media_info = MediaInfo {
        container: container.clone(),
        size,
        bit_rate,
        video,
        audio,
        subtitles,
    };
    MediaProbeResult {
        video_codec,
        video_stream_index,
        audio_codec,
        audio_stream_index,
        container,
        media_info,
    }
}

/// The preferred audio stream is a default one whenever the file has a
/// default audio stream, and sorting keeps every audio stream.
pub proof fn preferred_audio_is_default(audio: Seq<AudioStream>)
    ensures
        stable_sorted(audio).to_multiset() == audio.to_multiset(),
        (exists|i: int| 0 <= i < audio.len() && (#[trigger] audio[i]).default) ==> stable_sorted(
            audio,
        )[0].default,
{
    stable_sorted_is_permutation(audio);
    assert(asymmetric::<AudioStream>());
    stable_sorted_is_sorted(audio);
    let s = stable_sorted(audio);
    if exists|i: int| 0 <= i < audio.len() && (#[trigger] audio[i]).default {
        let i = choose|i: int| 0 <= i < audio.len() && (#[trigger] audio[i]).default;
        let x = audio[i];
        assert(audio.to_multiset().count(x) > 0) by {
            assert(audio.contains(x));
            audio.to_multiset_ensures();
        }
        s.to_multiset_ensures();
        assert(s.contains(x));
        let j = choose|j: int| 0 <= j < s.len() && s[j] == x;
        if !s[0].default {
            assert forall|k: int| 0 <= k < s.len() implies !(#[trigger] s[k]).default by {
                lemma_no_default_prefix(s, k);
            }
            assert(s[j].default);
        }
    }
}

proof fn lemma_no_default_prefix(s: Seq<AudioStream>, k: int)
    requires
        adjacent_sorted(s),
        s.len() > 0,
        !s[0].default,
        0 <= k < s.len(),
    ensures
        !s[k].default,
    decreases k,
{
    if k > 0 {
        lemma_no_default_prefix(s, k - 1);
        assert(!AudioStream::comes_after(s[k - 1], s[k]));
    }
}

} // verus!

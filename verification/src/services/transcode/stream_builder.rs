//! How to play a media item on a device: direct play, direct stream (remux)
//! or transcode, in the order Jellyfin's stream builder decides it.

use vstd::prelude::*;
use crate::models::db::media::MediaInfo;
use crate::services::transcode::codecs::{
    codec_supported, container_supported, normalize_codec_chars, normalized_codec, DeviceProfile,
    DirectPlayProfile, PlayMethod, TranscodeReason,
};
use crate::text::{chars_eq, chars_of, opt_string_view};

verus! {

/// The container the probe reported (empty when unknown).
pub open spec fn container_of(m: MediaInfo) -> Seq<char> {
    match m.container {
        Some(c) => c@,
        None => Seq::empty(),
    }
}

/// The codec of the video stream (empty when there is none).
pub open spec fn video_codec_of(m: MediaInfo) -> Seq<char> {
    match m.video {
        Some(v) => v.codec@,
        None => Seq::empty(),
    }
}

/// The codec of the first audio stream (empty when there is none).
pub open spec fn audio_codec_of(m: MediaInfo) -> Seq<char> {
    if m.audio@.len() > 0 {
        m.audio@[0].codec@
    } else {
        Seq::empty()
    }
}

/// Whether a direct-play profile accepts the container and both codecs.
pub open spec fn direct_play_matches(dp: DirectPlayProfile, m: MediaInfo) -> bool {
    &&& container_supported(dp.container@, container_of(m))
    &&& codec_supported(opt_string_view(dp.video_codec), video_codec_of(m))
    &&& codec_supported(opt_string_view(dp.audio_codec), audio_codec_of(m))
}

/// Whether some direct-play profile of the device accepts the media.
pub open spec fn has_direct_play(m: MediaInfo, p: DeviceProfile) -> bool {
    exists|i: int|
        0 <= i < p.direct_play_profiles@.len() && direct_play_matches(
            #[trigger] p.direct_play_profiles@[i],
            m,
        )
}

/// Whether a transcoding profile's video codec is the media's video codec,
/// so that the video can be copied into the transcode container.
pub open spec fn video_compatible(m: MediaInfo, p: DeviceProfile) -> bool {
    exists|i: int|
        0 <= i < p.transcoding_profiles@.len() && normalized_codec(
            (#[trigger] p.transcoding_profiles@[i]).video_codec@,
        ) == normalized_codec(video_codec_of(m))
}

/// Whether a transcoding profile's audio codec is the media's first audio
/// codec.
pub open spec fn audio_compatible(m: MediaInfo, p: DeviceProfile) -> bool {
    exists|i: int|
        0 <= i < p.transcoding_profiles@.len() && normalized_codec(
            (#[trigger] p.transcoding_profiles@[i]).audio_codec@,
        ) == normalized_codec(audio_codec_of(m))
}

/// Whether the media's overall bit rate exceeds the limit: a global bit
/// rate limit rules out direct play. The full `i64` rate is compared.
pub open spec fn over_bitrate_limit(m: MediaInfo, max_bitrate: Option<i32>) -> bool {
    match (max_bitrate, m.bit_rate) {
        (Some(limit), Some(bitrate)) => bitrate > limit,
        _ => false,
    }
}

/// The play method and reason, in priority order: a selected subtitle is
/// burnt in (transcode), a bit rate over the limit transcodes, a matching
/// direct-play profile plays directly, compatible video and audio are
/// remuxed (direct stream), and otherwise the incompatible stream is named.
pub open spec fn play_decision(
    m: MediaInfo,
    p: DeviceProfile,
    max_bitrate: Option<i32>,
    subtitle_stream_index: Option<usize>,
) -> (PlayMethod, TranscodeReason) {
    if subtitle_stream_index is Some {
        (PlayMethod::Transcode, TranscodeReason::SubtitleCodecNotSupported)
    } else if over_bitrate_limit(m, max_bitrate) {
        (PlayMethod::Transcode, TranscodeReason::ContainerBitrateExceedsLimit)
    } else if has_direct_play(m, p) {
        (PlayMethod::DirectPlay, TranscodeReason::Unknown)
    } else if video_compatible(m, p) && audio_compatible(m, p) {
        (PlayMethod::DirectStream, TranscodeReason::ContainerNotSupported)
    } else if !video_compatible(m, p) {
        (PlayMethod::Transcode, TranscodeReason::VideoCodecNotSupported)
    } else {
        (PlayMethod::Transcode, TranscodeReason::AudioCodecNotSupported)
    }
}

/// A media item plays directly exactly when no subtitle is selected, its
/// bit rate (when both it and a limit are known) is within the limit, and
/// some direct-play profile of the device, at any position in the list,
/// accepts its container, its video codec and its first audio codec. A
/// selected subtitle always transcodes, and so does a bit rate over the
/// limit.
pub proof fn direct_play_iff_some_profile_accepts(
    m: MediaInfo,
    p: DeviceProfile,
    max_bitrate: Option<i32>,
    subtitle_stream_index: Option<usize>,
)
    ensures
        ({
            let within_limit = match (max_bitrate, m.bit_rate) {
                (Some(limit), Some(bitrate)) => bitrate <= limit,
                _ => true,
            };
            let accepted = exists|i: int|
                0 <= i < p.direct_play_profiles@.len() && {
                    let dp = #[trigger] p.direct_play_profiles@[i];
                    &&& container_supported(dp.container@, container_of(m))
                    &&& codec_supported(opt_string_view(dp.video_codec), video_codec_of(m))
                    &&& codec_supported(opt_string_view(dp.audio_codec), audio_codec_of(m))
                };
            &&& (play_decision(m, p, max_bitrate, subtitle_stream_index) == (
                PlayMethod::DirectPlay,
                TranscodeReason::Unknown,
            )) <==> (subtitle_stream_index is None && within_limit && accepted)
            &&& subtitle_stream_index is Some ==> play_decision(
                m,
                p,
                max_bitrate,
                subtitle_stream_index,
            ) == (PlayMethod::Transcode, TranscodeReason::SubtitleCodecNotSupported)
            &&& subtitle_stream_index is None && !within_limit ==> play_decision(
                m,
                p,
                max_bitrate,
                subtitle_stream_index,
            ) == (PlayMethod::Transcode, TranscodeReason::ContainerBitrateExceedsLimit)
        }),
{
    let accepted = exists|i: int|
        0 <= i < p.direct_play_profiles@.len() && {
            let dp = #[trigger] p.direct_play_profiles@[i];
            &&& container_supported(dp.container@, container_of(m))
            &&& codec_supported(opt_string_view(dp.video_codec), video_codec_of(m))
            &&& codec_supported(opt_string_view(dp.audio_codec), audio_codec_of(m))
        };
    if accepted {
        let i = choose|i: int|
            0 <= i < p.direct_play_profiles@.len() && {
                let dp = #[trigger] p.direct_play_profiles@[i];
                &&& container_supported(dp.container@, container_of(m))
                &&& codec_supported(opt_string_view(dp.video_codec), video_codec_of(m))
                &&& codec_supported(opt_string_view(dp.audio_codec), audio_codec_of(m))
            };
        assert(direct_play_matches(p.direct_play_profiles@[i], m));
    }
    if has_direct_play(m, p) {
        let i = choose|i: int|
            0 <= i && i < p.direct_play_profiles@.len() && direct_play_matches(
                #[trigger] p.direct_play_profiles@[i],
                m,
            );
        assert(p.direct_play_profiles@[i] == p.direct_play_profiles@[i]);
    }
}

/// Logic for determining how to play a media item.
pub struct StreamBuilder;

fn container_chars(m: &MediaInfo) -> (r: Vec<char>)
    ensures
        r@ == container_of(*m),
{
    match &m.container {
        Some(c) => chars_of(c.as_str()),
        None => Vec::new(),
    }
}

fn video_codec_chars(m: &MediaInfo) -> (r: Vec<char>)
    ensures
        r@ == video_codec_of(*m),
{
    match &m.video {
        Some(v) => chars_of(v.codec.as_str()),
        None => Vec::new(),
    }
}

fn audio_codec_chars(m: &MediaInfo) -> (r: Vec<char>)
    ensures
        r@ == audio_codec_of(*m),
{
    if m.audio.len() > 0 {
        chars_of(m.audio[0].codec.as_str())
    } else {
        Vec::new()
    }
}

impl StreamBuilder {
    /// Determines the play method (direct play, direct stream or transcode)
    /// and the reason for it.
    pub fn determine_play_method(
        media_info: &MediaInfo,
        profile: &DeviceProfile,
        max_bitrate: Option<i32>,
        subtitle_stream_index: Option<usize>,
    ) -> (r: (PlayMethod, TranscodeReason))
        ensures
            r == play_decision(*media_info, *profile, max_bitrate, subtitle_stream_index),
    {
        if subtitle_stream_index.is_some() {
            return (PlayMethod::Transcode, TranscodeReason::SubtitleCodecNotSupported);
        }
        if let Some(limit) = max_bitrate {
            if let Some(bitrate) = media_info.bit_rate {
                if bitrate > limit as i64 {
                    return (PlayMethod::Transcode, TranscodeReason::ContainerBitrateExceedsLimit);
                }
            }
        }
        if Self::get_direct_play_profile(media_info, profile).is_some() {
            return (PlayMethod::DirectPlay, TranscodeReason::Unknown);
        }
        let video_compatible = Self::is_video_compatible(media_info, profile);
        let audio_compatible = Self::is_audio_compatible(media_info, profile);
        if video_compatible && audio_compatible {
            return (PlayMethod::DirectStream, TranscodeReason::ContainerNotSupported);
        }
        if !video_compatible {
            return (PlayMethod::Transcode, TranscodeReason::VideoCodecNotSupported);
        }
        if !audio_compatible {
            return (PlayMethod::Transcode, TranscodeReason::AudioCodecNotSupported);
        }
        (PlayMethod::Transcode, TranscodeReason::Unknown)
    }

    /// The first direct-play profile of the device that accepts the media's
    /// container, video codec and first audio codec.
    fn get_direct_play_profile<'a>(media: &MediaInfo, profile: &'a DeviceProfile) -> (r: Option<
        &'a DirectPlayProfile,
    >)
        ensures
            r is Some <==> has_direct_play(*media, *profile),
            r matches Some(dp) ==> exists|i: int|
                0 <= i < profile.direct_play_profiles@.len() && *dp
                    == #[trigger] profile.direct_play_profiles@[i] && direct_play_matches(*dp, *media)
                    && forall|j: int|
                    0 <= j < i ==> !direct_play_matches(profile.direct_play_profiles@[j], *media),
    {
        let container = container_chars(media);
        let video_codec = video_codec_chars(media);
        let audio_codec = audio_codec_chars(media);
        let cs = crate::text::string_from_chars(container.as_slice());
        let vs = crate::text::string_from_chars(video_codec.as_slice());
        let aus = crate::text::string_from_chars(audio_codec.as_slice());
        let mut i: usize = 0;
        while i < profile.direct_play_profiles.len()
            invariant
                0 <= i <= profile.direct_play_profiles@.len(),
                cs@ == container_of(*media),
                vs@ == video_codec_of(*media),
                aus@ == audio_codec_of(*media),
                forall|j: int|
                    0 <= j < i ==> !direct_play_matches(
                        #[trigger] profile.direct_play_profiles@[j],
                        *media,
                    ),
            decreases profile.direct_play_profiles@.len() - i,
        {
            let dp = &profile.direct_play_profiles[i];
            if dp.supports_container(cs.as_str()) && dp.supports_video_codec(vs.as_str())
                && dp.supports_audio_codec(aus.as_str()) {
                return Some(dp);
            }
            i = i + 1;
        }
        None
    }

    /// Whether the media's video codec is the video codec of one of the
    /// device's transcoding profiles (so the video can be remuxed).
    pub fn is_video_compatible(media: &MediaInfo, profile: &DeviceProfile) -> (r: bool)
        ensures
            r == video_compatible(*media, *profile),
    {
        let codec = video_codec_chars(media);
        let normalized = normalize_codec_chars(codec.as_slice());
        let mut i: usize = 0;
        while i < profile.transcoding_profiles.len()
            invariant
                0 <= i <= profile.transcoding_profiles@.len(),
                normalized@ == normalized_codec(video_codec_of(*media)),
                forall|j: int|
                    0 <= j < i ==> normalized_codec(
                        (#[trigger] profile.transcoding_profiles@[j]).video_codec@,
                    ) != normalized_codec(video_codec_of(*media)),
            decreases profile.transcoding_profiles@.len() - i,
        {
            let tp = &profile.transcoding_profiles[i];
            let tc = chars_of(tp.video_codec.as_str());
            let tn = normalize_codec_chars(tc.as_slice());
            if chars_eq(tn.as_slice(), normalized.as_slice()) {
                return true;
            }
            i = i + 1;
        }
        false
    }

    /// Whether the media's first audio codec is the audio codec of one of
    /// the device's transcoding profiles.
    pub fn is_audio_compatible(media: &MediaInfo, profile: &DeviceProfile) -> (r: bool)
        ensures
            r == audio_compatible(*media, *profile),
    {
        let codec = audio_codec_chars(media);
        let normalized = normalize_codec_chars(codec.as_slice());
        let mut i: usize = 0;
        while i < profile.transcoding_profiles.len()
            invariant
                0 <= i <= profile.transcoding_profiles@.len(),
                normalized@ == normalized_codec(audio_codec_of(*media)),
                forall|j: int|
                    0 <= j < i ==> normalized_codec(
                        (#[trigger] profile.transcoding_profiles@[j]).audio_codec@,
                    ) != normalized_codec(audio_codec_of(*media)),
            decreases profile.transcoding_profiles@.len() - i,
        {
            let tp = &profile.transcoding_profiles[i];
            let tc = chars_of(tp.audio_codec.as_str());
            let tn = normalize_codec_chars(tc.as_slice());
            if chars_eq(tn.as_slice(), normalized.as_slice()) {
                return true;
            }
            i = i + 1;
        }
        false
    }
}

} // verus!

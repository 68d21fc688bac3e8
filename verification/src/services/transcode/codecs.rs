//! Codec and container names, and what a client device can play.

use vstd::prelude::*;
use crate::text::{
    chars_eq, chars_eq_str, chars_of, is_ascii_chars, is_clean_lower, lemma_clean_lower_fixed,
    lemma_lower_trimmed_clean, lowercase, lowercase_chars, opt_string_view, split_chars, split_on,
    string_from_chars, trim_chars, trimmed, views,
};

verus! {

/// The canonical name of an already trimmed and lowercased codec name, in
/// the FFmpeg/Jellyfin vocabulary; names without an alias stay as they are.
pub open spec fn codec_alias(s: Seq<char>) -> Seq<char> {
    if s == "avc1"@ || s == "avc3"@ || s == "h264"@ {
        "h264"@
    } else if s == "hev1"@ || s == "hvc1"@ || s == "h265"@ || s == "hevc"@ {
        "hevc"@
    } else if s == "mp4a"@ || s == "aac"@ {
        "aac"@
    } else if s == "dca"@ || s == "dts"@ {
        "dts"@
    } else if s == "ac-3"@ || s == "ac3"@ {
        "ac3"@
    } else if s == "ec-3"@ || s == "eac3"@ {
        "eac3"@
    } else {
        s
    }
}

/// The canonical name of an already trimmed and lowercased container name.
pub open spec fn container_alias(s: Seq<char>) -> Seq<char> {
    if s == "matroska"@ {
        "mkv"@
    } else if s == "mpegts"@ {
        "ts"@
    } else if s == "mov"@ || s == "mp4"@ || s == "m4a"@ || s == "3gp"@ || s == "3g2"@ || s
        == "mj2"@ {
        "mp4"@
    } else {
        s
    }
}

/// What `normalize_codec` returns for `codec`.
pub open spec fn normalized_codec(codec: Seq<char>) -> Seq<char> {
    codec_alias(lowercase(trimmed(codec)))
}

/// What `normalize_container` returns for `container`.
pub open spec fn normalized_container(container: Seq<char>) -> Seq<char> {
    container_alias(lowercase(trimmed(container)))
}

/// Normalizing an ASCII codec name is idempotent, and the normalized name
/// is already trimmed and lowercase; normalizing the trimmed, lowercased
/// name gives the same result.
pub proof fn normalize_codec_idempotent(codec: Seq<char>)
    requires
        is_ascii_chars(codec),
    ensures
        normalized_codec(normalized_codec(codec)) == normalized_codec(codec),
        normalized_codec(lowercase(trimmed(codec))) == normalized_codec(codec),
        lowercase(trimmed(normalized_codec(codec))) == normalized_codec(codec),
{
    let y = lowercase(trimmed(codec));
    lemma_lower_trimmed_clean(codec);
    lemma_clean_lower_fixed(y);
    reveal_strlit("h264");
    reveal_strlit("hevc");
    reveal_strlit("aac");
    reveal_strlit("dts");
    reveal_strlit("ac3");
    reveal_strlit("eac3");
    reveal_strlit("avc1");
    reveal_strlit("avc3");
    reveal_strlit("hev1");
    reveal_strlit("hvc1");
    reveal_strlit("h265");
    reveal_strlit("mp4a");
    reveal_strlit("dca");
    reveal_strlit("ac-3");
    reveal_strlit("ec-3");
    let n = codec_alias(y);
    assert(is_clean_lower(n));
    lemma_clean_lower_fixed(n);
    assert(codec_alias(n) == n);
}

/// Normalizing an ASCII container name is idempotent, and the normalized
/// name is already trimmed and lowercase; normalizing the trimmed,
/// lowercased name gives the same result.
pub proof fn normalize_container_idempotent(container: Seq<char>)
    requires
        is_ascii_chars(container),
    ensures
        normalized_container(normalized_container(container)) == normalized_container(container),
        normalized_container(lowercase(trimmed(container))) == normalized_container(container),
        lowercase(trimmed(normalized_container(container))) == normalized_container(container),
{
    let y = lowercase(trimmed(container));
    lemma_lower_trimmed_clean(container);
    lemma_clean_lower_fixed(y);
    reveal_strlit("mkv");
    reveal_strlit("ts");
    reveal_strlit("mp4");
    reveal_strlit("matroska");
    reveal_strlit("mpegts");
    reveal_strlit("mov");
    reveal_strlit("m4a");
    reveal_strlit("3gp");
    reveal_strlit("3g2");
    reveal_strlit("mj2");
    let n = container_alias(y);
    assert(is_clean_lower(n));
    lemma_clean_lower_fixed(n);
    assert(container_alias(n) == n) by {
        if y == "matroska"@ {
            assert("mkv"@.len() != "matroska"@.len());
            assert("mkv"@.len() != "mpegts"@.len());
            assert("mkv"@[1] != "mov"@[1]);
            assert("mkv"@[1] != "mp4"@[1]);
            assert("mkv"@[1] != "m4a"@[1]);
            assert("mkv"@[0] != "3gp"@[0]);
            assert("mkv"@[0] != "3g2"@[0]);
            assert("mkv"@[1] != "mj2"@[1]);
        } else if y == "mpegts"@ {
            assert("ts"@.len() != "matroska"@.len());
            assert("ts"@.len() != "mpegts"@.len());
            assert("ts"@.len() != "mov"@.len());
            assert("ts"@.len() != "mp4"@.len());
            assert("ts"@.len() != "m4a"@.len());
            assert("ts"@.len() != "3gp"@.len());
            assert("ts"@.len() != "3g2"@.len());
            assert("ts"@.len() != "mj2"@.len());
        } else if container_alias(y) == "mp4"@ {
            assert("mp4"@.len() != "matroska"@.len());
            assert("mp4"@.len() != "mpegts"@.len());
        }
    }
}

/// The codec alias table: whatever the case and surrounding white space,
/// `avc1`/`avc3`/`h264` normalize to `h264`, `hev1`/`hvc1`/`h265`/`hevc`
/// to `hevc`, `mp4a`/`aac` to `aac`, `dca`/`dts` to `dts`, `ac-3`/`ac3` to
/// `ac3` and `ec-3`/`eac3` to `eac3`; any other name normalizes to itself,
/// trimmed and lowercased.
pub proof fn codec_aliases_normalize(codec: Seq<char>)
    ensures
        ({
            let k = lowercase(trimmed(codec));
            let n = normalized_codec(codec);
            &&& (k == "avc1"@ || k == "avc3"@ || k == "h264"@) ==> n == "h264"@
            &&& (k == "hev1"@ || k == "hvc1"@ || k == "h265"@ || k == "hevc"@) ==> n == "hevc"@
            &&& (k == "mp4a"@ || k == "aac"@) ==> n == "aac"@
            &&& (k == "dca"@ || k == "dts"@) ==> n == "dts"@
            &&& (k == "ac-3"@ || k == "ac3"@) ==> n == "ac3"@
            &&& (k == "ec-3"@ || k == "eac3"@) ==> n == "eac3"@
            &&& !(k == "avc1"@ || k == "avc3"@ || k == "h264"@ || k == "hev1"@ || k == "hvc1"@ || k
                == "h265"@ || k == "hevc"@ || k == "mp4a"@ || k == "aac"@ || k == "dca"@ || k
                == "dts"@ || k == "ac-3"@ || k == "ac3"@ || k == "ec-3"@ || k == "eac3"@) ==> n == k
        }),
{
    reveal_strlit("avc1");
    reveal_strlit("avc3");
    reveal_strlit("h264");
    reveal_strlit("hev1");
    reveal_strlit("hvc1");
    reveal_strlit("h265");
    reveal_strlit("hevc");
    reveal_strlit("mp4a");
    reveal_strlit("aac");
    reveal_strlit("dca");
    reveal_strlit("dts");
    reveal_strlit("ac-3");
    reveal_strlit("ac3");
    reveal_strlit("ec-3");
    reveal_strlit("eac3");
    let k = lowercase(trimmed(codec));
    if k == "avc1"@ {
        
        assert(codec_alias(k) == "h264"@);
    }
    if k == "avc3"@ {
        
        assert(codec_alias(k) == "h264"@);
    }
    if k == "h264"@ {
        
        assert(codec_alias(k) == "h264"@);
    }
    if k == "hev1"@ {
        assert("hev1"@[0] != "avc1"@[0]); assert("hev1"@[0] != "avc3"@[0]); assert("hev1"@[1] != "h264"@[1]);
        assert(codec_alias(k) == "hevc"@);
    }
    if k == "hvc1"@ {
        assert("hvc1"@[0] != "avc1"@[0]); assert("hvc1"@[0] != "avc3"@[0]); assert("hvc1"@[1] != "h264"@[1]);
        assert(codec_alias(k) == "hevc"@);
    }
    if k == "h265"@ {
        assert("h265"@[0] != "avc1"@[0]); assert("h265"@[0] != "avc3"@[0]); assert("h265"@[3] != "h264"@[3]);
        assert(codec_alias(k) == "hevc"@);
    }
    if k == "hevc"@ {
        assert("hevc"@[0] != "avc1"@[0]); assert("hevc"@[0] != "avc3"@[0]); assert("hevc"@[1] != "h264"@[1]);
        assert(codec_alias(k) == "hevc"@);
    }
    if k == "mp4a"@ {
        assert("mp4a"@[0] != "avc1"@[0]); assert("mp4a"@[0] != "avc3"@[0]); assert("mp4a"@[0] != "h264"@[0]); assert("mp4a"@[0] != "hev1"@[0]); assert("mp4a"@[0] != "hvc1"@[0]); assert("mp4a"@[0] != "h265"@[0]); assert("mp4a"@[0] != "hevc"@[0]);
        assert(codec_alias(k) == "aac"@);
    }
    if k == "aac"@ {
        assert("aac"@.len() != "avc1"@.len()); assert("aac"@.len() != "avc3"@.len()); assert("aac"@.len() != "h264"@.len()); assert("aac"@.len() != "hev1"@.len()); assert("aac"@.len() != "hvc1"@.len()); assert("aac"@.len() != "h265"@.len()); assert("aac"@.len() != "hevc"@.len());
        assert(codec_alias(k) == "aac"@);
    }
    if k == "dca"@ {
        assert("dca"@.len() != "avc1"@.len()); assert("dca"@.len() != "avc3"@.len()); assert("dca"@.len() != "h264"@.len()); assert("dca"@.len() != "hev1"@.len()); assert("dca"@.len() != "hvc1"@.len()); assert("dca"@.len() != "h265"@.len()); assert("dca"@.len() != "hevc"@.len()); assert("dca"@.len() != "mp4a"@.len()); assert("dca"@[0] != "aac"@[0]);
        assert(codec_alias(k) == "dts"@);
    }
    if k == "dts"@ {
        assert("dts"@.len() != "avc1"@.len()); assert("dts"@.len() != "avc3"@.len()); assert("dts"@.len() != "h264"@.len()); assert("dts"@.len() != "hev1"@.len()); assert("dts"@.len() != "hvc1"@.len()); assert("dts"@.len() != "h265"@.len()); assert("dts"@.len() != "hevc"@.len()); assert("dts"@.len() != "mp4a"@.len()); assert("dts"@[0] != "aac"@[0]);
        assert(codec_alias(k) == "dts"@);
    }
    if k == "ac-3"@ {
        assert("ac-3"@[1] != "avc1"@[1]); assert("ac-3"@[1] != "avc3"@[1]); assert("ac-3"@[0] != "h264"@[0]); assert("ac-3"@[0] != "hev1"@[0]); assert("ac-3"@[0] != "hvc1"@[0]); assert("ac-3"@[0] != "h265"@[0]); assert("ac-3"@[0] != "hevc"@[0]); assert("ac-3"@[0] != "mp4a"@[0]); assert("ac-3"@.len() != "aac"@.len()); assert("ac-3"@.len() != "dca"@.len()); assert("ac-3"@.len() != "dts"@.len());
        assert(codec_alias(k) == "ac3"@);
    }
    if k == "ac3"@ {
        assert("ac3"@.len() != "avc1"@.len()); assert("ac3"@.len() != "avc3"@.len()); assert("ac3"@.len() != "h264"@.len()); assert("ac3"@.len() != "hev1"@.len()); assert("ac3"@.len() != "hvc1"@.len()); assert("ac3"@.len() != "h265"@.len()); assert("ac3"@.len() != "hevc"@.len()); assert("ac3"@.len() != "mp4a"@.len()); assert("ac3"@[1] != "aac"@[1]); assert("ac3"@[0] != "dca"@[0]); assert("ac3"@[0] != "dts"@[0]);
        assert(codec_alias(k) == "ac3"@);
    }
    if k == "ec-3"@ {
        assert("ec-3"@[0] != "avc1"@[0]); assert("ec-3"@[0] != "avc3"@[0]); assert("ec-3"@[0] != "h264"@[0]); assert("ec-3"@[0] != "hev1"@[0]); assert("ec-3"@[0] != "hvc1"@[0]); assert("ec-3"@[0] != "h265"@[0]); assert("ec-3"@[0] != "hevc"@[0]); assert("ec-3"@[0] != "mp4a"@[0]); assert("ec-3"@.len() != "aac"@.len()); assert("ec-3"@.len() != "dca"@.len()); assert("ec-3"@.len() != "dts"@.len()); assert("ec-3"@[0] != "ac-3"@[0]); assert("ec-3"@.len() != "ac3"@.len());
        assert(codec_alias(k) == "eac3"@);
    }
    if k == "eac3"@ {
        assert("eac3"@[0] != "avc1"@[0]); assert("eac3"@[0] != "avc3"@[0]); assert("eac3"@[0] != "h264"@[0]); assert("eac3"@[0] != "hev1"@[0]); assert("eac3"@[0] != "hvc1"@[0]); assert("eac3"@[0] != "h265"@[0]); assert("eac3"@[0] != "hevc"@[0]); assert("eac3"@[0] != "mp4a"@[0]); assert("eac3"@.len() != "aac"@.len()); assert("eac3"@.len() != "dca"@.len()); assert("eac3"@.len() != "dts"@.len()); assert("eac3"@[0] != "ac-3"@[0]); assert("eac3"@.len() != "ac3"@.len());
        assert(codec_alias(k) == "eac3"@);
    }
}

/// The container alias table: whatever the case and surrounding white
/// space, `matroska` normalizes to `mkv`, `mpegts` to `ts`, and
/// `mov`/`mp4`/`m4a`/`3gp`/`3g2`/`mj2` to `mp4`; any other name normalizes
/// to itself, trimmed and lowercased.
pub proof fn container_aliases_normalize(container: Seq<char>)
    ensures
        ({
            let k = lowercase(trimmed(container));
            let n = normalized_container(container);
            &&& k == "matroska"@ ==> n == "mkv"@
            &&& k == "mpegts"@ ==> n == "ts"@
            &&& (k == "mov"@ || k == "mp4"@ || k == "m4a"@ || k == "3gp"@ || k == "3g2"@ || k
                == "mj2"@) ==> n == "mp4"@
            &&& !(k == "matroska"@ || k == "mpegts"@ || k == "mov"@ || k == "mp4"@ || k == "m4a"@
                || k == "3gp"@ || k == "3g2"@ || k == "mj2"@) ==> n == k
        }),
{
    reveal_strlit("matroska");
    reveal_strlit("mpegts");
    reveal_strlit("mov");
    reveal_strlit("mp4");
    reveal_strlit("m4a");
    reveal_strlit("3gp");
    reveal_strlit("3g2");
    reveal_strlit("mj2");
    let k = lowercase(trimmed(container));
    if k == "matroska"@ {
        
        assert(container_alias(k) == "mkv"@);
    }
    if k == "mpegts"@ {
        assert("mpegts"@.len() != "matroska"@.len());
        assert(container_alias(k) == "ts"@);
    }
    if k == "mov"@ {
        assert("mov"@.len() != "matroska"@.len()); assert("mov"@.len() != "mpegts"@.len());
        assert(container_alias(k) == "mp4"@);
    }
    if k == "mp4"@ {
        assert("mp4"@.len() != "matroska"@.len()); assert("mp4"@.len() != "mpegts"@.len());
        assert(container_alias(k) == "mp4"@);
    }
    if k == "m4a"@ {
        assert("m4a"@.len() != "matroska"@.len()); assert("m4a"@.len() != "mpegts"@.len());
        assert(container_alias(k) == "mp4"@);
    }
    if k == "3gp"@ {
        assert("3gp"@.len() != "matroska"@.len()); assert("3gp"@.len() != "mpegts"@.len());
        assert(container_alias(k) == "mp4"@);
    }
    if k == "3g2"@ {
        assert("3g2"@.len() != "matroska"@.len()); assert("3g2"@.len() != "mpegts"@.len());
        assert(container_alias(k) == "mp4"@);
    }
    if k == "mj2"@ {
        assert("mj2"@.len() != "matroska"@.len()); assert("mj2"@.len() != "mpegts"@.len());
        assert(container_alias(k) == "mp4"@);
    }
}

/// The canonical codec name for a trimmed, lowercased name.
pub fn canonical_codec_chars(s: &[char]) -> (r: Vec<char>)
    ensures
        r@ == codec_alias(s@),
{
    if chars_eq_str(s, "avc1") || chars_eq_str(s, "avc3") || chars_eq_str(s, "h264") {
        chars_of("h264")
    } else if chars_eq_str(s, "hev1") || chars_eq_str(s, "hvc1") || chars_eq_str(s, "h265")
        || chars_eq_str(s, "hevc") {
        chars_of("hevc")
    } else if chars_eq_str(s, "mp4a") || chars_eq_str(s, "aac") {
        chars_of("aac")
    } else if chars_eq_str(s, "dca") || chars_eq_str(s, "dts") {
        chars_of("dts")
    } else if chars_eq_str(s, "ac-3") || chars_eq_str(s, "ac3") {
        chars_of("ac3")
    } else if chars_eq_str(s, "ec-3") || chars_eq_str(s, "eac3") {
        chars_of("eac3")
    } else {
        vstd::slice::slice_to_vec(s)
    }
}

/// The canonical container name for a trimmed, lowercased name.
pub fn canonical_container_chars(s: &[char]) -> (r: Vec<char>)
    ensures
        r@ == container_alias(s@),
{
    if chars_eq_str(s, "matroska") {
        chars_of("mkv")
    } else if chars_eq_str(s, "mpegts") {
        chars_of("ts")
    } else if chars_eq_str(s, "mov") || chars_eq_str(s, "mp4") || chars_eq_str(s, "m4a")
        || chars_eq_str(s, "3gp") || chars_eq_str(s, "3g2") || chars_eq_str(s, "mj2") {
        chars_of("mp4")
    } else {
        vstd::slice::slice_to_vec(s)
    }
}

/// `normalize_codec` on characters.
pub fn normalize_codec_chars(codec: &[char]) -> (r: Vec<char>)
    ensures
        r@ == normalized_codec(codec@),
{
    let t = trim_chars(codec);
    let low = lowercase_chars(t.as_slice());
    canonical_codec_chars(low.as_slice())
}

/// `normalize_container` on characters.
pub fn normalize_container_chars(container: &[char]) -> (r: Vec<char>)
    ensures
        r@ == normalized_container(container@),
{
    let t = trim_chars(container);
    let low = lowercase_chars(t.as_slice());
    canonical_container_chars(low.as_slice())
}

/// Normalize codec names to the FFmpeg/Jellyfin standard: trimmed,
/// lowercased, and aliases such as `avc1` or `hvc1` mapped to `h264` or
/// `hevc`.
pub fn normalize_codec(codec: &str) -> (r: String)
    ensures
        r@ == normalized_codec(codec@),
{
    let cs = chars_of(codec);
    let n = normalize_codec_chars(cs.as_slice());
    string_from_chars(n.as_slice())
}

/// Normalize container names: trimmed, lowercased, `matroska` as `mkv`,
/// `mpegts` as `ts`, and the ISO family (`mov`, `m4a`, `3gp`, ...) as `mp4`.
pub fn normalize_container(container: &str) -> (r: String)
    ensures
        r@ == normalized_container(container@),
{
    let cs = chars_of(container);
    let n = normalize_container_chars(cs.as_slice());
    string_from_chars(n.as_slice())
}

/// Method used to play the media.
#[derive(Debug, Clone, Copy, PartialEq, Eq, Structural)]
pub enum PlayMethod {
    DirectPlay,
    DirectStream,
    Transcode,
}

/// Reason why transcoding is required.
#[derive(Debug, Clone, Copy, PartialEq, Eq, Structural)]
pub enum TranscodeReason {
    ContainerNotSupported,
    VideoCodecNotSupported,
    AudioCodecNotSupported,
    ContainerBitrateExceedsLimit,
    AudioBitrateNotSupported,
    AudioChannelsNotSupported,
    VideoResolutionNotSupported,
    SubtitleCodecNotSupported,
    Unknown,
}

/// The normalized names of the comma-separated containers in `list`.
pub open spec fn normalized_containers(list: Seq<char>) -> Seq<Seq<char>> {
    split_on(list, ',').map_values(|p: Seq<char>| normalized_container(p))
}

/// Whether one of the comma-separated containers of a profile names, after
/// normalization, one of the comma-separated containers of `list`.
pub open spec fn container_supported(profile_containers: Seq<char>, list: Seq<char>) -> bool {
    exists|j: int|
        0 <= j < split_on(profile_containers, ',').len() && normalized_containers(list).contains(
            normalized_container(#[trigger] split_on(profile_containers, ',')[j]),
        )
}

/// Whether a profile's codec list (`None`: any codec) holds a codec that
/// normalizes to the same name as `codec`.
pub open spec fn codec_supported(allowed: Option<Seq<char>>, codec: Seq<char>) -> bool {
    match allowed {
        None => true,
        Some(list) => list_has_codec(list, codec),
    }
}

/// Whether one of the comma-separated codecs of `list`, trimmed, normalizes
/// to the same name as `codec`.
pub open spec fn list_has_codec(list: Seq<char>, codec: Seq<char>) -> bool {
    exists|j: int|
        0 <= j < split_on(list, ',').len() && normalized_codec(
            trimmed(#[trigger] split_on(list, ',')[j]),
        ) == normalized_codec(codec)
}

/// Defines a combination of container and codecs that can be direct played.
#[derive(Debug, Clone)]
pub struct DirectPlayProfile {
    /// Comma-separated container names.
    pub container: String,
    /// Comma-separated video codecs; `None` allows any.
    pub video_codec: Option<String>,
    /// Comma-separated audio codecs; `None` allows any.
    pub audio_codec: Option<String>,
}

fn contains_chars(v: &Vec<Vec<char>>, x: &[char]) -> (r: bool)
    ensures
        r == views(v@).contains(x@),
{
    let mut i: usize = 0;
    while i < v.len()
        invariant
            0 <= i <= v@.len(),
            forall|k: int| 0 <= k < i ==> views(v@)[k] != x@,
        decreases v@.len() - i,
    {
        if chars_eq(v[i].as_slice(), x) {
            assert(views(v@)[i as int] == x@);
            return true;
        }
        i = i + 1;
    }
    false
}

fn codec_list_supports(list: &String, normalized: &Vec<char>, Ghost(codec): Ghost<Seq<char>>) -> (r:
    bool)
    requires
        normalized@ == normalized_codec(codec),
    ensures
        r == list_has_codec(list@, codec),
{
    let lc = chars_of(list.as_str());
    let pieces = split_chars(lc.as_slice(), ',');
    let mut j: usize = 0;
    while j < pieces.len()
        invariant
            0 <= j <= pieces@.len(),
            views(pieces@) == split_on(list@, ','),
            normalized@ == normalized_codec(codec),
            forall|k: int|
                0 <= k < j ==> normalized_codec(trimmed(#[trigger] split_on(list@, ',')[k]))
                    != normalized_codec(codec),
        decreases pieces@.len() - j,
    {
        let t = trim_chars(pieces[j].as_slice());
        let n = normalize_codec_chars(t.as_slice());
        assert(views(pieces@)[j as int] == pieces@[j as int]@);
        if chars_eq(n.as_slice(), normalized.as_slice()) {
            assert(split_on(list@, ',')[j as int] == pieces@[j as int]@);
            assert(j < split_on(list@, ',').len());
            assert(normalized_codec(trimmed(split_on(list@, ',')[j as int])) == normalized_codec(
                codec,
            ));
            return true;
        }
        j = j + 1;
    }
    false
}

impl DirectPlayProfile {
    /// Whether one of this profile's containers matches one of the
    /// comma-separated containers in `container_list`, both sides normalized.
    pub fn supports_container(&self, container_list: &str) -> (r: bool)
        ensures
            r == container_supported(self.container@, container_list@),
    {
        let lc = chars_of(container_list);
        let pieces = split_chars(lc.as_slice(), ',');
        let mut input_tokens: Vec<Vec<char>> = Vec::new();
        let mut i: usize = 0;
        while i < pieces.len()
            invariant
                0 <= i <= pieces@.len(),
                views(pieces@) == split_on(container_list@, ','),
                views(input_tokens@) == normalized_containers(container_list@).take(i as int),
            decreases pieces@.len() - i,
        {
            let n = normalize_container_chars(pieces[i].as_slice());
            assert(views(pieces@)[i as int] == pieces@[i as int]@);
            assert(split_on(container_list@, ',')[i as int] == pieces@[i as int]@);
            assert(normalized_containers(container_list@)[i as int] == n@);
            let ghost before = views(input_tokens@);
            input_tokens.push(n);
            assert(views(input_tokens@) =~= before.push(n@));
            assert(i < normalized_containers(container_list@).len());
            assert(views(input_tokens@) =~= normalized_containers(container_list@).take(i + 1));
            i = i + 1;
        }
        assert(normalized_containers(container_list@).take(pieces@.len() as int)
            =~= normalized_containers(container_list@));
        let pc = chars_of(self.container.as_str());
        let profile_pieces = split_chars(pc.as_slice(), ',');
        let mut j: usize = 0;
        while j < profile_pieces.len()
            invariant
                0 <= j <= profile_pieces@.len(),
                views(profile_pieces@) == split_on(self.container@, ','),
                views(input_tokens@) == normalized_containers(container_list@),
                forall|k: int|
                    0 <= k < j ==> !normalized_containers(container_list@).contains(
                        normalized_container(#[trigger] split_on(self.container@, ',')[k]),
                    ),
            decreases profile_pieces@.len() - j,
        {
            let p = normalize_container_chars(profile_pieces[j].as_slice());
            assert(views(profile_pieces@)[j as int] == profile_pieces@[j as int]@);
            if contains_chars(&input_tokens, p.as_slice()) {
                return true;
            }
            j = j + 1;
        }
        false
    }

    /// Whether `codec` is one of this profile's video codecs (any codec
    /// when the profile lists none), both sides normalized.
    pub fn supports_video_codec(&self, codec: &str) -> (r: bool)
        ensures
            r == codec_supported(opt_string_view(self.video_codec), codec@),
    {
        let cs = chars_of(codec);
        let normalized = normalize_codec_chars(cs.as_slice());
        match &self.video_codec {
            Some(c) => codec_list_supports(c, &normalized, Ghost(codec@)),
            None => true,
        }
    }

    /// Whether `codec` is one of this profile's audio codecs (any codec
    /// when the profile lists none), both sides normalized.
    pub fn supports_audio_codec(&self, codec: &str) -> (r: bool)
        ensures
            r == codec_supported(opt_string_view(self.audio_codec), codec@),
    {
        let cs = chars_of(codec);
        let normalized = normalize_codec_chars(cs.as_slice());
        match &self.audio_codec {
            Some(c) => codec_list_supports(c, &normalized, Ghost(codec@)),
            None => true,
        }
    }
}

/// Hardware acceleration types an FFmpeg transcode can use.
#[derive(Debug, Clone, Copy, PartialEq, Eq, Hash, Structural)]
pub enum HardwareAccelerationType {
    /// No hardware acceleration: software encoding.
    Software,
    Vaapi,
    Nvenc,
    Qsv,
    Amf,
    VideoToolbox,
}

impl Default for HardwareAccelerationType {
    /// Software encoding.
    fn default() -> (r: Self)
        ensures
            r == HardwareAccelerationType::Software,
    {
        HardwareAccelerationType::Software
    }
}

/// Capabilities reported by the client device.
#[derive(Debug, Clone)]
pub struct DeviceProfile {
    pub name: Option<String>,
    pub max_streaming_bitrate: Option<i32>,
    pub max_static_bitrate: Option<i32>,
    pub music_streaming_transcoding_bitrate: Option<i32>,
    pub max_audio_channels: Option<i32>,
    pub hardware_acceleration: Option<HardwareAccelerationType>,
    pub direct_play_profiles: Vec<DirectPlayProfile>,
    pub transcoding_profiles: Vec<TranscodingProfile>,
}

/// A container and codecs the server can transcode into for a device.
#[derive(Debug, Clone)]
pub struct TranscodingProfile {
    pub container: String,
    pub video_codec: String,
    pub audio_codec: String,
    pub protocol: String,
}

/// The generic browser profile: 120 Mbit/s, stereo, MP4 (H.264/VP8/VP9/AV1
/// with AAC/MP3/Opus/FLAC) or WebM (VP8/VP9/AV1 with Opus/Vorbis) for
/// direct play, and HLS in MPEG-TS with H.264/AAC for transcodes.
pub open spec fn generic_browser(p: DeviceProfile) -> bool {
    &&& opt_string_view(p.name) == Some("Generic Browser"@)
    &&& p.max_streaming_bitrate == Some(120_000_000i32)
    &&& p.max_static_bitrate == Some(120_000_000i32)
    &&& p.music_streaming_transcoding_bitrate == Some(192000i32)
    &&& p.max_audio_channels == Some(2i32)
    &&& p.hardware_acceleration == Option::<HardwareAccelerationType>::None
    &&& p.direct_play_profiles@.len() == 2
    &&& p.direct_play_profiles@[0].container@ == "mp4,m4v"@
    &&& opt_string_view(p.direct_play_profiles@[0].video_codec) == Some("h264,vp8,vp9,av1"@)
    &&& opt_string_view(p.direct_play_profiles@[0].audio_codec) == Some("aac,mp3,opus,flac"@)
    &&& p.direct_play_profiles@[1].container@ == "webm"@
    &&& opt_string_view(p.direct_play_profiles@[1].video_codec) == Some("vp8,vp9,av1"@)
    &&& opt_string_view(p.direct_play_profiles@[1].audio_codec) == Some("opus,vorbis"@)
    &&& p.transcoding_profiles@.len() == 1
    &&& p.transcoding_profiles@[0].container@ == "ts"@
    &&& p.transcoding_profiles@[0].video_codec@ == "h264"@
    &&& p.transcoding_profiles@[0].audio_codec@ == "aac"@
    &&& p.transcoding_profiles@[0].protocol@ == "hls"@
}

impl Default for DeviceProfile {
    /// A generic browser: 120 Mbit/s, stereo, MP4 (H.264/VP8/VP9/AV1 with
    /// AAC/MP3/Opus/FLAC) or WebM (VP8/VP9/AV1 with Opus/Vorbis) for direct
    /// play, and HLS in MPEG-TS with H.264/AAC for transcodes.
    fn default() -> (r: Self)
        ensures
            generic_browser(r),
    {
        let mut direct_play_profiles: Vec<DirectPlayProfile> = Vec::new();
        direct_play_profiles.push(
            DirectPlayProfile {
                container: String::from_str("mp4,m4v"),
                video_codec: Some(String::from_str("h264,vp8,vp9,av1")),
                audio_codec: Some(String::from_str("aac,mp3,opus,flac")),
            },
        );
        direct_play_profiles.push(
            DirectPlayProfile {
                container: String::from_str("webm"),
                video_codec: Some(String::from_str("vp8,vp9,av1")),
                audio_codec: Some(String::from_str("opus,vorbis")),
            },
        );
        let mut transcoding_profiles: Vec<TranscodingProfile> = Vec::new();
        transcoding_profiles.push(
            TranscodingProfile {
                container: String::from_str("ts"),
                video_codec: String::from_str("h264"),
                audio_codec: String::from_str("aac"),
                protocol: String::from_str("hls"),
            },
        );
        DeviceProfile {
            name: Some(String::from_str("Generic Browser")),
            max_streaming_bitrate: Some(120_000_000),
            max_static_bitrate: Some(120_000_000),
            music_streaming_transcoding_bitrate: Some(192000),
            max_audio_channels: Some(2),
            hardware_acceleration: None,
            direct_play_profiles,
            transcoding_profiles,
        }
    }
}

} // verus!

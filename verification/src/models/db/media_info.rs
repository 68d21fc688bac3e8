//! Detailed media info produced by probing a file: container, streams and
//! sizes. The duration travels separately, as whole milliseconds, in the
//! transcode service's own types.

use vstd::prelude::*;

verus! {

/// What a probe found in a media file.
#[derive(Debug, Clone)]
pub struct MediaInfo {
    pub container: Option<String>,
    pub size: Option<i64>,
    pub bit_rate: Option<i64>,
    pub video: Option<VideoStream>,
    pub audio: Vec<AudioStream>,
    pub subtitles: Vec<SubtitleStream>,
}

/// The first video stream of a file.
#[derive(Debug, Clone)]
pub struct VideoStream {
    pub index: i32,
    pub codec: String,
    pub profile: Option<String>,
    pub width: Option<i32>,
    pub height: Option<i32>,
    pub aspect_ratio: Option<String>,
    pub bit_rate: Option<i64>,
    pub frame_rate: Option<String>,
    pub bit_depth: Option<i32>,
    pub pixel_format: Option<String>,
    pub color_space: Option<String>,
    pub color_transfer: Option<String>,
    pub color_primaries: Option<String>,
    pub ref_frames: Option<i32>,
    pub codec_tag: Option<String>,
}

/// An audio stream of a file.
#[derive(Debug, Clone)]
pub struct AudioStream {
    pub index: i32,
    pub codec: String,
    pub channels: Option<i32>,
    pub channel_layout: Option<String>,
    pub sample_rate: Option<i32>,
    pub bit_rate: Option<i64>,
    pub language: Option<String>,
    pub title: Option<String>,
    pub default: bool,
    pub forced: bool,
}

/// A subtitle stream of a file.
#[derive(Debug, Clone)]
pub struct SubtitleStream {
    pub index: i32,
    pub codec: String,
    pub language: Option<String>,
    pub title: Option<String>,
    pub is_external: bool,
    pub is_forced: bool,
    pub is_default: bool,
}

} // verus!

//! Codec detection, playback decisions, FFmpeg arguments and HLS layout.

pub mod codecs;
pub mod ffmpeg;
pub mod probe;
pub mod profiles;
pub mod service;
pub mod stream_builder;

//! Media info records, as the stream builder reads them.

pub use super::media_info::{AudioStream, MediaInfo, SubtitleStream, VideoStream};

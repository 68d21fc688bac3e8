//! Where an FFmpeg HLS run writes its output.

use vstd::prelude::*;
use crate::number::int_str;
use crate::paths::{join_path, joined};
use crate::services::transcode::profiles::{hls_command, TranscodeProfile, TranscodingContext};
use crate::text::{chars_of, string_views};

verus! {

/// The output locations of one media item's HLS run.
pub struct HlsGenerator {
    pub media_id: i64,
    pub file_path: String,
    pub output_dir: String,
}

impl HlsGenerator {
    /// The generator for `media_id`, writing under `transcode_dir/{media_id}`.
    pub fn new(media_id: i64, file_path: String, transcode_dir: &str) -> (r: Self)
        ensures
            r.media_id == media_id,
            r.file_path == file_path,
            r.output_dir@ == joined(transcode_dir@, int_str(media_id as int)),
    {
        let id = crate::number::i64_to_chars(media_id);
        proof {
            crate::number::lemma_int_str_relative(media_id);
        }
        let output_dir = join_path(transcode_dir, id.as_slice());
        HlsGenerator { media_id, file_path, output_dir }
    }

    /// `stream.m3u8` in the output directory.
    pub fn playlist_path(&self) -> (r: String)
        ensures
            r@ == joined(self.output_dir@, "stream.m3u8"@),
    {
        let name = chars_of("stream.m3u8");
        proof {
            reveal_strlit("stream.m3u8");
        }
        join_path(self.output_dir.as_str(), name.as_slice())
    }

    /// `init.mp4` in the output directory.
    pub fn init_path(&self) -> (r: String)
        ensures
            r@ == joined(self.output_dir@, "init.mp4"@),
    {
        let name = chars_of("init.mp4");
        proof {
            reveal_strlit("init.mp4");
        }
        join_path(self.output_dir.as_str(), name.as_slice())
    }
    /// Where the run writes its media segments: `segment_%05d.m4s` (FFmpeg
    /// numbers them) in the output directory.
    pub fn segment_pattern(&self) -> (r: String)
        ensures
            r@ == joined(self.output_dir@, "segment_%05d.m4s"@),
    {
        let name = chars_of("segment_%05d.m4s");
        proof {
            reveal_strlit("segment_%05d.m4s");
        }
        join_path(self.output_dir.as_str(), name.as_slice())
    }

    /// The FFmpeg arguments of this run: the source file, the segment
    /// pattern, the playlist and the `init.mp4` init segment, with
    /// `hls_segment_time`-second segments.
    pub fn ffmpeg_args(&self, context: &TranscodingContext, hls_segment_time: u32) -> (r: Vec<String>)
        requires
            context.is_video_transcode ==> i64::MIN <= context.max_video_bitrate * 2 <= i64::MAX,
        ensures
            string_views(r@) == hls_command(
                self.file_path@,
                *context,
                joined(self.output_dir@, "segment_%05d.m4s"@),
                joined(self.output_dir@, "stream.m3u8"@),
                "init.mp4"@,
                hls_segment_time as nat,
            ),
    {
        let pattern = self.segment_pattern();
        let playlist = self.playlist_path();
        TranscodeProfile::build_hls_command(
            self.file_path.as_str(),
            context,
            pattern.as_str(),
            playlist.as_str(),
            "init.mp4",
            hls_segment_time,
        )
    }
}

} // verus!

//! FFmpeg arguments for an HLS (fMP4 segment) transcode.

use vstd::prelude::*;
use crate::number::{dec_str, digit_char, int_str, push_u64, u64_to_chars};
use crate::services::transcode::codecs::HardwareAccelerationType;
use crate::text::{push_chars, push_str, push_strs, str_views, string_views};

verus! {

/// What one FFmpeg HLS run must do. Times are whole milliseconds.
pub struct TranscodingContext {
    pub hwa_type: HardwareAccelerationType,
    pub video_stream_index: usize,
    pub audio_stream_index: usize,
    pub max_video_bitrate: i64,
    pub audio_bitrate: i64,
    pub audio_channels: i32,
    /// Where to start reading the input, in milliseconds.
    pub start_time_ms: u64,
    pub start_number: usize,
    pub is_video_transcode: bool,
    pub is_audio_transcode: bool,
}

/// Builder of the FFmpeg command for an HLS transcode.
pub struct TranscodeProfile;

/// Three decimal digits of `v` (0 to 999), zero-padded.
pub open spec fn pad3(v: nat) -> Seq<char> {
    seq![digit_char((v / 100) as int), digit_char(((v / 10) % 10) as int), digit_char((v % 10) as int)]
}

/// A time in milliseconds as seconds with three decimals, as `{:.3}` writes
/// it.
pub open spec fn seconds_text(ms: nat) -> Seq<char> {
    dec_str(ms / 1000) + seq!['.'] + pad3(ms % 1000)
}

/// Leading options: quiet banner and a generous probe.
pub open spec fn base_args() -> Seq<Seq<char>> {
    seq![
        "-hide_banner"@,
        "-loglevel"@,
        "warning"@,
        "-analyzeduration"@,
        "200M"@,
        "-probesize"@,
        "200M"@,
    ]
}

/// Hardware decoding options, for a video transcode on CUDA, VAAPI or QSV.
pub open spec fn hw_input_args(ctx: TranscodingContext) -> Seq<Seq<char>> {
    if ctx.is_video_transcode {
        match ctx.hwa_type {
            HardwareAccelerationType::Nvenc => seq![
                "-hwaccel"@,
                "cuda"@,
                "-hwaccel_output_format"@,
                "cuda"@,
            ],
            HardwareAccelerationType::Vaapi => seq![
                "-hwaccel"@,
                "vaapi"@,
                "-hwaccel_device"@,
                "/dev/dri/renderD128"@,
                "-hwaccel_output_format"@,
                "vaapi"@,
            ],
            HardwareAccelerationType::Qsv => seq![
                "-hwaccel"@,
                "qsv"@,
                "-hwaccel_output_format"@,
                "qsv"@,
            ],
            _ => seq![],
        }
    } else {
        seq![]
    }
}

/// The seek options: `-ss` when starting after zero, and no accurate seek
/// when both streams are copied.
pub open spec fn seek_args(ctx: TranscodingContext) -> Seq<Seq<char>> {
    if ctx.start_time_ms > 0 {
        seq!["-ss"@, seconds_text(ctx.start_time_ms as nat)] + if !ctx.is_video_transcode
            && !ctx.is_audio_transcode {
            seq!["-noaccurate_seek"@]
        } else {
            seq![]
        }
    } else {
        seq![]
    }
}

/// The input and the two mapped streams.
pub open spec fn input_args(file_path: Seq<char>, ctx: TranscodingContext) -> Seq<Seq<char>> {
    seq![
        "-i"@,
        file_path,
        "-map"@,
        "0:"@ + dec_str(ctx.video_stream_index as nat),
        "-map"@,
        "0:"@ + dec_str(ctx.audio_stream_index as nat),
        "-threads"@,
        "0"@,
    ]
}

/// The encoder choice of a video transcode.
pub open spec fn encoder_args(hwa: HardwareAccelerationType) -> Seq<Seq<char>> {
    match hwa {
        HardwareAccelerationType::Nvenc => seq![
            "-c:v"@,
            "h264_nvenc"@,
            "-preset"@,
            "p4"@,
            "-profile:v"@,
            "high"@,
            "-pix_fmt"@,
            "yuv420p"@,
        ],
        HardwareAccelerationType::Vaapi => seq![
            "-vf"@,
            "format=nv12|vaapi,hwupload"@,
            "-c:v"@,
            "h264_vaapi"@,
            "-profile:v"@,
            "high"@,
        ],
        HardwareAccelerationType::Qsv => seq![
            "-c:v"@,
            "h264_qsv"@,
            "-preset"@,
            "veryfast"@,
            "-profile:v"@,
            "high"@,
        ],
        _ => seq![
            "-c:v"@,
            "libx264"@,
            "-preset"@,
            "veryfast"@,
            "-profile:v"@,
            "high"@,
            "-pix_fmt"@,
            "yuv420p"@,
        ],
    }
}

/// Rate control of a video transcode: the bit rate as target and ceiling, a
/// buffer of twice that, and a fixed keyframe interval of `keyint` frames.
pub open spec fn rate_args(bitrate: int, keyint: nat) -> Seq<Seq<char>> {
    seq![
        "-b:v"@,
        int_str(bitrate),
        "-maxrate"@,
        int_str(bitrate),
        "-bufsize"@,
        int_str(bitrate * 2),
        "-g"@,
        dec_str(keyint),
        "-keyint_min"@,
        dec_str(keyint),
        "-sc_threshold"@,
        "0"@,
    ]
}

/// The video options: an encoder with rate control, or a stream copy.
pub open spec fn video_args(ctx: TranscodingContext, segment_time: nat) -> Seq<Seq<char>> {
    if ctx.is_video_transcode {
        encoder_args(ctx.hwa_type) + rate_args(ctx.max_video_bitrate as int, segment_time * 24)
    } else {
        seq!["-c:v"@, "copy"@]
    }
}

/// The audio options: AAC with the channel count and bit rate, or a copy.
pub open spec fn audio_args(ctx: TranscodingContext) -> Seq<Seq<char>> {
    if ctx.is_audio_transcode {
        seq![
            "-c:a"@,
            "aac"@,
            "-ac"@,
            int_str(ctx.audio_channels as int),
            "-b:a"@,
            int_str(ctx.audio_bitrate as int),
        ]
    } else {
        seq!["-c:a"@, "copy"@]
    }
}

/// The HLS muxer options: fMP4 segments of `segment_time` seconds numbered
/// from the context's start number, and the playlist as the output.
pub open spec fn hls_muxer_args(
    ctx: TranscodingContext,
    segment_time: nat,
    segment_pattern: Seq<char>,
    playlist_out: Seq<char>,
    init_file: Seq<char>,
) -> Seq<Seq<char>> {
    seq![
        "-f"@,
        "hls"@,
        "-hls_time"@,
        dec_str(segment_time),
        "-hls_segment_type"@,
        "fmp4"@,
        "-hls_fmp4_init_filename"@,
        init_file,
        "-start_number"@,
        dec_str(ctx.start_number as nat),
        "-hls_segment_filename"@,
        segment_pattern,
        "-hls_flags"@,
        "independent_segments+temp_file"@,
        "-movflags"@,
        "+frag_discont+default_base_moof"@,
        "-y"@,
        playlist_out,
    ]
}

/// The whole FFmpeg argument list.
pub open spec fn hls_command(
    file_path: Seq<char>,
    ctx: TranscodingContext,
    segment_pattern: Seq<char>,
    playlist_out: Seq<char>,
    init_file: Seq<char>,
    segment_time: nat,
) -> Seq<Seq<char>> {
    base_args() + hw_input_args(ctx) + seek_args(ctx) + input_args(file_path, ctx) + video_args(
        ctx,
        segment_time,
    ) + audio_args(ctx) + hls_muxer_args(ctx, segment_time, segment_pattern, playlist_out, init_file)
}

/// In every HLS command, an audio transcode encodes AAC with the context's
/// channel count after `-ac` and its audio bit rate after `-b:a`, in
/// decimal; without an audio transcode the audio is copied. The audio
/// options follow the video options and precede the HLS muxer options.
pub proof fn audio_options_carry_channels_and_bitrate(
    file_path: Seq<char>,
    ctx: TranscodingContext,
    segment_pattern: Seq<char>,
    playlist_out: Seq<char>,
    init_file: Seq<char>,
    segment_time: nat,
)
    ensures
        ({
            let cmd = hls_command(
                file_path,
                ctx,
                segment_pattern,
                playlist_out,
                init_file,
                segment_time,
            );
            exists|k: int|
                0 <= k && k + 6 <= cmd.len() && #[trigger] cmd[k] == "-c:a"@ && if ctx.is_audio_transcode {
                    &&& cmd[k + 1] == "aac"@
                    &&& cmd[k + 2] == "-ac"@
                    &&& cmd[k + 3] == int_str(ctx.audio_channels as int)
                    &&& cmd[k + 4] == "-b:a"@
                    &&& cmd[k + 5] == int_str(ctx.audio_bitrate as int)
                    &&& cmd[k + 6] == "-f"@
                } else {
                    &&& cmd[k + 1] == "copy"@
                    &&& cmd[k + 2] == "-f"@
                }
        }),
{
    let pre = base_args() + hw_input_args(ctx) + seek_args(ctx) + input_args(file_path, ctx)
        + video_args(ctx, segment_time);
    let a = audio_args(ctx);
    let m = hls_muxer_args(ctx, segment_time, segment_pattern, playlist_out, init_file);
    let cmd = hls_command(file_path, ctx, segment_pattern, playlist_out, init_file, segment_time);
    assert(cmd == pre + a + m);
    let k = pre.len() as int;
    assert(cmd[k] == a[0]);
    assert(cmd[k + 1] == a[1]);
    if ctx.is_audio_transcode {
        assert(cmd[k + 2] == a[2]);
        assert(cmd[k + 3] == a[3]);
        assert(cmd[k + 4] == a[4]);
        assert(cmd[k + 5] == a[5]);
        assert(cmd[k + 6] == m[0]);
    } else {
        assert(cmd[k + 2] == m[0]);
    }
}

fn digit3(v: u64) -> (r: Vec<char>)
    requires
        v < 1000,
    ensures
        r@ == pad3(v as nat),
{
    let mut r: Vec<char> = Vec::new();
    r.push(crate::number::digit_to_char(v / 100));
    r.push(crate::number::digit_to_char((v / 10) % 10));
    r.push(crate::number::digit_to_char(v % 10));
    assert(r@ =~= pad3(v as nat));
    r
}

/// A time in milliseconds as seconds with three decimals.
pub fn seconds_chars(ms: u64) -> (r: Vec<char>)
    ensures
        r@ == seconds_text(ms as nat),
{
    let mut r = u64_to_chars(ms / 1000);
    r.push('.');
    let frac = digit3(ms % 1000);
    let ghost head = r@;
    let mut i: usize = 0;
    while i < frac.len()
        invariant
            0 <= i <= frac@.len(),
            r@ == head + frac@.take(i as int),
        decreases frac@.len() - i,
    {
        r.push(frac[i]);
        assert(frac@.take(i + 1) =~= frac@.take(i as int).push(frac@[i as int]));
        assert(r@ =~= head + frac@.take(i + 1));
        i = i + 1;
    }
    assert(frac@.take(frac@.len() as int) =~= frac@);
    assert(r@ =~= seconds_text(ms as nat));
    r
}

fn push_base_args(args: &mut Vec<String>)
    ensures
        string_views(final(args)@) == string_views(old(args)@) + base_args(),
{
    let lits: [&str; 7] = [
        "-hide_banner",
        "-loglevel",
        "warning",
        "-analyzeduration",
        "200M",
        "-probesize",
        "200M",
    ];
    push_strs(args, &lits);
    assert(str_views(lits@) =~= base_args());
}

fn push_hw_input_args(args: &mut Vec<String>, ctx: &TranscodingContext)
    ensures
        string_views(final(args)@) == string_views(old(args)@) + hw_input_args(*ctx),
{
    if ctx.is_video_transcode {
        match ctx.hwa_type {
            HardwareAccelerationType::Nvenc => {
                let lits: [&str; 4] = ["-hwaccel", "cuda", "-hwaccel_output_format", "cuda"];
                push_strs(args, &lits);
                assert(str_views(lits@) =~= hw_input_args(*ctx));
            },
            HardwareAccelerationType::Vaapi => {
                let lits: [&str; 6] = [
                    "-hwaccel",
                    "vaapi",
                    "-hwaccel_device",
                    "/dev/dri/renderD128",
                    "-hwaccel_output_format",
                    "vaapi",
                ];
                push_strs(args, &lits);
                assert(str_views(lits@) =~= hw_input_args(*ctx));
            },
            HardwareAccelerationType::Qsv => {
                let lits: [&str; 4] = ["-hwaccel", "qsv", "-hwaccel_output_format", "qsv"];
                push_strs(args, &lits);
                assert(str_views(lits@) =~= hw_input_args(*ctx));
            },
            _ => {
                assert(string_views(args@) =~= string_views(old(args)@) + hw_input_args(*ctx));
            },
        }
    } else {
        assert(string_views(args@) =~= string_views(old(args)@) + hw_input_args(*ctx));
    }
}

fn push_seek_args(args: &mut Vec<String>, ctx: &TranscodingContext)
    ensures
        string_views(final(args)@) == string_views(old(args)@) + seek_args(*ctx),
{
    if ctx.start_time_ms > 0 {
        push_str(args, "-ss");
        let t = seconds_chars(ctx.start_time_ms);
        push_chars(args, t.as_slice());
        if !ctx.is_video_transcode && !ctx.is_audio_transcode {
            push_str(args, "-noaccurate_seek");
        }
    }
    assert(string_views(args@) =~= string_views(old(args)@) + seek_args(*ctx));
}

fn stream_map(index: usize) -> (r: Vec<char>)
    ensures
        r@ == "0:"@ + dec_str(index as nat),
{
    let mut r = crate::text::chars_of("0:");
    let ghost head = r@;
    push_u64(&mut r, index as u64);
    r
}

fn push_input_args(args: &mut Vec<String>, file_path: &str, ctx: &TranscodingContext)
    ensures
        string_views(final(args)@) == string_views(old(args)@) + input_args(file_path@, *ctx),
{
    push_str(args, "-i");
    push_str(args, file_path);
    push_str(args, "-map");
    let v = stream_map(ctx.video_stream_index);
    push_chars(args, v.as_slice());
    push_str(args, "-map");
    let a = stream_map(ctx.audio_stream_index);
    push_chars(args, a.as_slice());
    push_str(args, "-threads");
    push_str(args, "0");
    assert(string_views(args@) =~= string_views(old(args)@) + input_args(file_path@, *ctx));
}

fn push_encoder_args(args: &mut Vec<String>, hwa: HardwareAccelerationType)
    ensures
        string_views(final(args)@) == string_views(old(args)@) + encoder_args(hwa),
{
    match hwa {
        HardwareAccelerationType::Nvenc => {
            let lits: [&str; 8] = [
                "-c:v",
                "h264_nvenc",
                "-preset",
                "p4",
                "-profile:v",
                "high",
                "-pix_fmt",
                "yuv420p",
            ];
            push_strs(args, &lits);
            assert(str_views(lits@) =~= encoder_args(hwa));
        },
        HardwareAccelerationType::Vaapi => {
            let lits: [&str; 6] = [
                "-vf",
                "format=nv12|vaapi,hwupload",
                "-c:v",
                "h264_vaapi",
                "-profile:v",
                "high",
            ];
            push_strs(args, &lits);
            assert(str_views(lits@) =~= encoder_args(hwa));
        },
        HardwareAccelerationType::Qsv => {
            let lits: [&str; 6] = ["-c:v", "h264_qsv", "-preset", "veryfast", "-profile:v", "high"];
            push_strs(args, &lits);
            assert(str_views(lits@) =~= encoder_args(hwa));
        },
        _ => {
            let lits: [&str; 8] = [
                "-c:v",
                "libx264",
                "-preset",
                "veryfast",
                "-profile:v",
                "high",
                "-pix_fmt",
                "yuv420p",
            ];
            push_strs(args, &lits);
            assert(str_views(lits@) =~= encoder_args(hwa));
        },
    }
}

fn push_rate_args(args: &mut Vec<String>, bitrate: i64, keyint: u64)
    requires
        i64::MIN <= bitrate * 2 <= i64::MAX,
    ensures
        string_views(final(args)@) == string_views(old(args)@) + rate_args(
            bitrate as int,
            keyint as nat,
        ),
{
    let b = crate::number::i64_to_chars(bitrate);
    let b2 = crate::number::i64_to_chars(bitrate * 2);
    let k = u64_to_chars(keyint);
    push_str(args, "-b:v");
    push_chars(args, b.as_slice());
    push_str(args, "-maxrate");
    push_chars(args, b.as_slice());
    push_str(args, "-bufsize");
    push_chars(args, b2.as_slice());
    push_str(args, "-g");
    push_chars(args, k.as_slice());
    push_str(args, "-keyint_min");
    push_chars(args, k.as_slice());
    push_str(args, "-sc_threshold");
    push_str(args, "0");
    assert(string_views(args@) =~= string_views(old(args)@) + rate_args(
        bitrate as int,
        keyint as nat,
    ));
}

fn push_audio_args(args: &mut Vec<String>, ctx: &TranscodingContext)
    ensures
        string_views(final(args)@) == string_views(old(args)@) + audio_args(*ctx),
{
    if ctx.is_audio_transcode {
        push_str(args, "-c:a");
        push_str(args, "aac");
        push_str(args, "-ac");
        let ch = crate::number::i64_to_chars(ctx.audio_channels as i64);
        push_chars(args, ch.as_slice());
        push_str(args, "-b:a");
        let br = crate::number::i64_to_chars(ctx.audio_bitrate);
        push_chars(args, br.as_slice());
    } else {
        push_str(args, "-c:a");
        push_str(args, "copy");
    }
    assert(string_views(args@) =~= string_views(old(args)@) + audio_args(*ctx));
}

fn push_hls_muxer_args(
    args: &mut Vec<String>,
    ctx: &TranscodingContext,
    segment_time: u32,
    segment_pattern: &str,
    playlist_out: &str,
    init_file: &str,
)
    ensures
        string_views(final(args)@) == string_views(old(args)@) + hls_muxer_args(
            *ctx,
            segment_time as nat,
            segment_pattern@,
            playlist_out@,
            init_file@,
        ),
{
    let st = u64_to_chars(segment_time as u64);
    let sn = u64_to_chars(ctx.start_number as u64);
    push_str(args, "-f");
    push_str(args, "hls");
    push_str(args, "-hls_time");
    push_chars(args, st.as_slice());
    push_str(args, "-hls_segment_type");
    push_str(args, "fmp4");
    push_str(args, "-hls_fmp4_init_filename");
    push_str(args, init_file);
    push_str(args, "-start_number");
    push_chars(args, sn.as_slice());
    push_str(args, "-hls_segment_filename");
    push_str(args, segment_pattern);
    push_str(args, "-hls_flags");
    push_str(args, "independent_segments+temp_file");
    push_str(args, "-movflags");
    push_str(args, "+frag_discont+default_base_moof");
    push_str(args, "-y");
    push_str(args, playlist_out);
    assert(string_views(args@) =~= string_views(old(args)@) + hls_muxer_args(
        *ctx,
        segment_time as nat,
        segment_pattern@,
        playlist_out@,
        init_file@,
    ));
}

impl TranscodeProfile {
    /// The FFmpeg arguments that transcode (or copy) `file_path` into fMP4
    /// HLS segments of `hls_segment_time` seconds: optional hardware
    /// decoding, a seek to the context's start time, the two mapped streams,
    /// the video and audio codecs, and the HLS muxer writing
    /// `playlist_out`.
    pub fn build_hls_command(
        file_path: &str,
        context: &TranscodingContext,
        segment_pattern: &str,
        playlist_out: &str,
        init_file: &str,
        hls_segment_time: u32,
    ) -> (r: Vec<String>)
        requires
            context.is_video_transcode ==> i64::MIN <= context.max_video_bitrate * 2
                <= i64::MAX,
        ensures
            string_views(r@) == hls_command(
                file_path@,
                *context,
                segment_pattern@,
                playlist_out@,
                init_file@,
                hls_segment_time as nat,
            ),
    {
        let keyint: u64 = hls_segment_time as u64 * 24;
        let mut args: Vec<String> = Vec::new();
        push_base_args(&mut args);
        push_hw_input_args(&mut args, context);
        push_seek_args(&mut args, context);
        push_input_args(&mut args, file_path, context);
        if context.is_video_transcode {
            push_encoder_args(&mut args, context.hwa_type);
            push_rate_args(&mut args, context.max_video_bitrate, keyint);
        } else {
            push_str(&mut args, "-c:v");
            push_str(&mut args, "copy");
        }
        push_audio_args(&mut args, context);
        push_hls_muxer_args(
            &mut args,
            context,
            hls_segment_time,
            segment_pattern,
            playlist_out,
            init_file,
        );
        assert(string_views(args@) =~= hls_command(
            file_path@,
            *context,
            segment_pattern@,
            playlist_out@,
            init_file@,
            hls_segment_time as nat,
        ));
        args
    }
}

} // verus!

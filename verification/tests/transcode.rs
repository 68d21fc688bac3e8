use vortex::error::AppError;
use vortex::models::db::media_info::{AudioStream, MediaInfo, VideoStream};
use vortex::services::transcode::codecs::{
    normalize_codec, normalize_container, DeviceProfile, DirectPlayProfile, HardwareAccelerationType,
    PlayMethod, TranscodeReason, TranscodingProfile,
};
use vortex::services::transcode::ffmpeg::HlsGenerator;
use vortex::services::transcode::probe::{probe_result, ProbeFormat, ProbeStream};
use vortex::services::transcode::profiles::{TranscodeProfile, TranscodingContext};
use vortex::services::transcode::service::{
    cache_dir_of, cache_evictions, init_wait_step, job_dir_name_of, needs_restart, next_delay_ms, orphaned_dirs, plan_transcode,
    run_ready_step, segment_start_ms, segment_wait_step, stale_sessions, stream_info, vod_playlist,
    CacheDir, JobKey, WaitStep,
};
use vortex::services::transcode::stream_builder::StreamBuilder;

fn video(codec: &str) -> VideoStream {
    VideoStream {
        index: 0,
        codec: codec.to_string(),
        profile: None,
        width: Some(1920),
        height: Some(1080),
        aspect_ratio: None,
        bit_rate: None,
        frame_rate: Some("24000/1001".to_string()),
        bit_depth: None,
        pixel_format: None,
        color_space: None,
        color_transfer: None,
        color_primaries: None,
        ref_frames: None,
        codec_tag: None,
    }
}

fn audio(index: i32, codec: &str, default: bool) -> AudioStream {
    AudioStream {
        index,
        codec: codec.to_string(),
        channels: Some(2),
        channel_layout: None,
        sample_rate: Some(48000),
        bit_rate: None,
        language: None,
        title: None,
        default,
        forced: false,
    }
}

fn media(container: &str, v: &str, a: &str, bit_rate: Option<i64>) -> MediaInfo {
    MediaInfo {
        container: Some(container.to_string()),
        size: None,
        bit_rate,
        video: Some(video(v)),
        audio: vec![audio(1, a, true)],
        subtitles: vec![],
    }
}

fn key(media_id: i64) -> JobKey {
    JobKey {
        media_id,
        transcode_video: true,
        transcode_audio: true,
        audio_stream_index: None,
        max_streaming_bitrate: None,
        hwa: None,
    }
}

fn context() -> TranscodingContext {
    TranscodingContext {
        hwa_type: HardwareAccelerationType::Software,
        video_stream_index: 0,
        audio_stream_index: 1,
        max_video_bitrate: 8_000_000,
        audio_bitrate: 192_000,
        audio_channels: 2,
        start_time_ms: 12_500,
        start_number: 2,
        is_video_transcode: true,
        is_audio_transcode: true,
    }
}

#[test]
fn codec_names_are_normalized() {
    assert_eq!(normalize_codec(" AVC1 "), "h264");
    assert_eq!(normalize_codec("hvc1"), "hevc");
    assert_eq!(normalize_codec("H265"), "hevc");
    assert_eq!(normalize_codec("mp4a"), "aac");
    assert_eq!(normalize_codec("dca"), "dts");
    assert_eq!(normalize_codec("AC-3"), "ac3");
    assert_eq!(normalize_codec("ec-3"), "eac3");
    assert_eq!(normalize_codec("Vorbis"), "vorbis");
    assert_eq!(normalize_codec("  ProRes "), "prores");
}

#[test]
fn container_names_are_normalized() {
    assert_eq!(normalize_container("Matroska"), "mkv");
    assert_eq!(normalize_container("mpegts"), "ts");
    assert_eq!(normalize_container(" MOV "), "mp4");
    assert_eq!(normalize_container("3gp"), "mp4");
    assert_eq!(normalize_container("webm"), "webm");
}

#[test]
fn direct_play_profile_matches_normalized_names() {
    let p = DirectPlayProfile {
        container: "mp4,m4v".to_string(),
        video_codec: Some("h264, vp9".to_string()),
        audio_codec: None,
    };
    assert!(p.supports_container("mov,mp4,m4a,3gp,3g2,mj2"));
    assert!(!p.supports_container("matroska,webm"));
    assert!(p.supports_video_codec("avc1"));
    assert!(p.supports_video_codec("VP9"));
    assert!(!p.supports_video_codec("hevc"));
    assert!(p.supports_audio_codec("anything"));
}

#[test]
fn default_profile_is_generic_browser() {
    let p = DeviceProfile::default();
    assert_eq!(p.name.as_deref(), Some("Generic Browser"));
    assert_eq!(p.max_streaming_bitrate, Some(120_000_000));
    assert_eq!(p.max_audio_channels, Some(2));
    assert_eq!(p.direct_play_profiles.len(), 2);
    assert_eq!(p.direct_play_profiles[1].container, "webm");
    assert_eq!(p.transcoding_profiles[0].video_codec, "h264");
    assert_eq!(p.transcoding_profiles[0].protocol, "hls");
    assert_eq!(HardwareAccelerationType::default(), HardwareAccelerationType::Software);
}

#[test]
fn play_method_decisions() {
    let p = DeviceProfile::default();
    let mp4 = media("mov,mp4,m4a,3gp,3g2,mj2", "h264", "aac", Some(5_000_000));
    assert_eq!(
        StreamBuilder::determine_play_method(&mp4, &p, None, None),
        (PlayMethod::DirectPlay, TranscodeReason::Unknown)
    );
    let mkv = media("matroska,webm", "h264", "aac", None);
    assert_eq!(
        StreamBuilder::determine_play_method(&mkv, &p, None, None),
        (PlayMethod::DirectStream, TranscodeReason::ContainerNotSupported)
    );
    let hevc = media("matroska,webm", "hevc", "aac", None);
    assert_eq!(
        StreamBuilder::determine_play_method(&hevc, &p, None, None),
        (PlayMethod::Transcode, TranscodeReason::VideoCodecNotSupported)
    );
    let dts = media("matroska,webm", "h264", "dts", None);
    assert_eq!(
        StreamBuilder::determine_play_method(&dts, &p, None, None),
        (PlayMethod::Transcode, TranscodeReason::AudioCodecNotSupported)
    );
    assert_eq!(
        StreamBuilder::determine_play_method(&mp4, &p, Some(1_000_000), None),
        (PlayMethod::Transcode, TranscodeReason::ContainerBitrateExceedsLimit)
    );
    assert_eq!(
        StreamBuilder::determine_play_method(&mp4, &p, None, Some(3)),
        (PlayMethod::Transcode, TranscodeReason::SubtitleCodecNotSupported)
    );
    // The whole bit rate counts, also beyond the i32 range.
    let huge = media("mov,mp4,m4a,3gp,3g2,mj2", "h264", "aac", Some((1i64 << 32) + 1));
    assert_eq!(
        StreamBuilder::determine_play_method(&huge, &p, Some(1000), None),
        (PlayMethod::Transcode, TranscodeReason::ContainerBitrateExceedsLimit)
    );
    assert_eq!(
        StreamBuilder::determine_play_method(&mp4, &p, Some(5_000_000), None),
        (PlayMethod::DirectPlay, TranscodeReason::Unknown)
    );
    assert!(StreamBuilder::is_video_compatible(&mkv, &p));
    assert!(!StreamBuilder::is_audio_compatible(&dts, &p));
}

#[test]
fn hls_generator_paths() {
    let g = HlsGenerator::new(42, "/media/movie.mkv".to_string(), "/var/cache/transcode");
    assert_eq!(g.output_dir, "/var/cache/transcode/42");
    assert_eq!(g.playlist_path(), "/var/cache/transcode/42/stream.m3u8");
    assert_eq!(g.init_path(), "/var/cache/transcode/42/init.mp4");
    assert_eq!(g.segment_pattern(), "/var/cache/transcode/42/segment_%05d.m4s");
    let g2 = HlsGenerator::new(7, "a.mp4".to_string(), "/tmp/tc/");
    assert_eq!(g2.output_dir, "/tmp/tc/7");
}

#[test]
fn hls_command_for_software_transcode() {
    let ctx = context();
    let args = TranscodeProfile::build_hls_command("/m/in.mkv", &ctx, "/o/segment_%05d.m4s", "/o/stream.m3u8", "init.mp4", 6);
    let joined = args.join(" ");
    assert!(joined.contains("-ss 12.500"));
    assert!(joined.contains("-i /m/in.mkv"));
    assert!(joined.contains("-map 0:0"));
    assert!(joined.contains("-map 0:1"));
    assert!(joined.contains("libx264"));
    assert!(joined.contains("-b:v 8000000"));
    assert!(joined.contains("-g 144"));
    assert!(joined.contains("-hls_time 6"));
    assert!(joined.contains("-start_number 2"));
    assert!(joined.contains("/o/segment_%05d.m4s"));
    assert_eq!(args.last().map(|s| s.as_str()), Some("/o/stream.m3u8"));
    let g = HlsGenerator::new(1, "/m/in.mkv".to_string(), "/o");
    let via_generator = g.ffmpeg_args(&ctx, 6);
    assert!(via_generator.join(" ").contains("/o/1/segment_%05d.m4s"));
}

#[test]
fn hls_command_copies_video_when_not_transcoding() {
    let mut ctx = context();
    ctx.is_video_transcode = false;
    ctx.start_time_ms = 0;
    let args = TranscodeProfile::build_hls_command("in.mp4", &ctx, "seg_%05d.m4s", "out.m3u8", "init.mp4", 6);
    let joined = args.join(" ");
    assert!(joined.contains("-c:v copy"));
    assert!(!joined.contains("libx264"));
}

#[test]
fn job_dir_names_carry_the_media_id() {
    let k = key(5);
    let dir = k.dir_name();
    assert!(dir.starts_with("5-"));
    assert_eq!(dir.len(), 2 + 16);
    assert!(dir[2..].chars().all(|c| c.is_ascii_hexdigit() && !c.is_ascii_uppercase()));
    assert_eq!(JobKey::media_id_from_dir(&dir), Some(5));
    assert_eq!(k.dir_name(), dir);
    let other = JobKey { transcode_audio: false, ..k };
    assert_ne!(other.dir_name(), dir);
    assert_eq!(k.cache_dir("/tc"), format!("/tc/{}", dir));
    assert_eq!(JobKey::media_id_from_dir("-12-abc"), None);
    assert_eq!(JobKey::media_id_from_dir("x-1"), None);
    assert_eq!(JobKey::media_id_from_dir("17"), Some(17));
    assert_eq!(job_dir_name_of(42, 0xab), "42-00000000000000ab");
    assert_eq!(job_dir_name_of(-3, u64::MAX), "-3-ffffffffffffffff");
    assert_eq!(cache_dir_of("/tc", &dir), format!("/tc/{}", dir));
    assert_eq!(cache_dir_of("/tc/", "7-x"), "/tc/7-x");
    assert_eq!(cache_dir_of("", "7-x"), "7-x");
    assert_eq!(cache_dir_of("/tc", "/abs"), "/abs");
}

#[test]
fn vod_playlist_lists_every_segment() {
    let text = vod_playlist(25_000, 10, Some(12_500), "audio_index=1");
    let expected = "#EXTM3U\n#EXT-X-VERSION:7\n#EXT-X-PLAYLIST-TYPE:VOD\n#EXT-X-TARGETDURATION:11\n#EXT-X-MEDIA-SEQUENCE:0\n\
#EXT-X-START:TIME-OFFSET=12.500,PRECISE=YES\n\
#EXT-X-MAP:URI=\"init.mp4?audio_index=1\"\n\
#EXTINF:10.000,\nsegment_00000.m4s?audio_index=1\n\
#EXTINF:10.000,\nsegment_00001.m4s?audio_index=1\n\
#EXTINF:5.000,\nsegment_00002.m4s?audio_index=1\n\
#EXT-X-ENDLIST\n";
    assert_eq!(text, expected);
}

#[test]
fn vod_playlist_folds_a_tiny_last_segment() {
    let text = vod_playlist(20_300, 10, None, "");
    assert!(!text.contains("EXT-X-START"));
    assert!(text.contains("#EXT-X-MAP:URI=\"init.mp4\"\n"));
    assert!(text.contains("#EXTINF:10.000,\nsegment_00000.m4s\n#EXTINF:10.300,\nsegment_00001.m4s\n#EXT-X-ENDLIST\n"));
    assert!(!text.contains("segment_00002"));
    let short = vod_playlist(300, 10, Some(5_000), "");
    assert!(short.contains("#EXTINF:0.300,\nsegment_00000.m4s\n"));
    assert!(!short.contains("EXT-X-START"));
}

#[test]
fn transcode_plan_clamps_and_caps() {
    let p = DeviceProfile::default();
    let k = key(9);
    let ctx = plan_transcode(&k, &p, 95_000, Some(100_000), Some(30_000_000), Some(2), 0, 6);
    // Latest start: floor((100 - 12) / 6) * 6 = 84 s.
    assert_eq!(ctx.start_time_ms, 84_000);
    assert_eq!(ctx.start_number, 14);
    assert_eq!(ctx.max_video_bitrate, 20_000_000);
    assert_eq!(ctx.audio_stream_index, 2);
    assert_eq!(ctx.audio_bitrate, 192_000);
    assert_eq!(ctx.audio_channels, 2);
    assert_eq!(ctx.hwa_type, HardwareAccelerationType::Software);
    let ctx2 = plan_transcode(&JobKey { audio_stream_index: Some(4), ..k }, &p, 12_000, None, None, None, 0, 6);
    assert_eq!(ctx2.start_time_ms, 12_000);
    assert_eq!(ctx2.start_number, 2);
    assert_eq!(ctx2.max_video_bitrate, 8_000_000);
    assert_eq!(ctx2.audio_stream_index, 4);
}

#[test]
fn restart_window_of_fifty_segments() {
    assert!(needs_restart(None, false, 3));
    assert!(!needs_restart(Some(10), false, 10));
    assert!(!needs_restart(Some(10), false, 60));
    assert!(needs_restart(Some(10), false, 61));
    assert!(needs_restart(Some(10), false, 9));
    assert!(needs_restart(Some(10), true, 12));
    assert_eq!(segment_start_ms(7, 6), 42_000);
}

#[test]
fn cache_eviction_frees_idle_oldest_first() {
    let mb = 1024 * 1024;
    let dirs = vec![
        CacheDir { name: "1-a".to_string(), active: true, modified: 1, size: 300 * mb },
        CacheDir { name: "2-b".to_string(), active: false, modified: 50, size: 200 * mb },
        CacheDir { name: "3-c".to_string(), active: false, modified: 10, size: 200 * mb },
    ];
    // 700 MB against a 400 MB limit: 300 MB must go.
    let out = cache_evictions(dirs.clone(), 700 * mb, 400);
    assert_eq!(out, vec!["3-c".to_string(), "2-b".to_string()]);
    assert!(cache_evictions(dirs.clone(), 700 * mb, 0).is_empty());
    assert!(cache_evictions(dirs.clone(), 300 * mb, 400).is_empty());
    // 1000 MB against 400 MB: both idle directories go, the active one stays.
    assert_eq!(cache_evictions(dirs, 1000 * mb, 400), vec!["3-c".to_string(), "2-b".to_string()]);
    // A cache holding only an active job is left alone, though over its limit.
    let busy = vec![CacheDir { name: "9-z".to_string(), active: true, modified: 0, size: 2 * mb }];
    assert!(cache_evictions(busy, 2 * mb, 1).is_empty());
}

#[test]
fn stale_and_orphaned_sessions() {
    let sessions = vec![("a".to_string(), 10u64), ("b".to_string(), 3601), ("c".to_string(), 3600)];
    assert_eq!(stale_sessions(&sessions), vec!["b".to_string()]);
    let entries = vec![
        ("5-abc".to_string(), true, false),
        ("6-def".to_string(), true, true),
        ("notes".to_string(), true, false),
        ("7-x".to_string(), false, false),
    ];
    assert_eq!(orphaned_dirs(&entries), vec!["5-abc".to_string()]);
}

#[test]
fn waiting_for_segments() {
    assert!(matches!(segment_wait_step(true, true, 100, 30), WaitStep::Ready));
    assert!(matches!(segment_wait_step(false, false, 1, 30), WaitStep::Wait));
    match segment_wait_step(false, true, 1, 30) {
        WaitStep::Fail(AppError::NotFound(m)) => assert_eq!(m, "Segment past end of stream"),
        other => panic!("unexpected {:?}", other),
    }
    match segment_wait_step(false, false, 30, 30) {
        WaitStep::Fail(AppError::NotFound(m)) => assert_eq!(m, "Segment not ready in time"),
        other => panic!("unexpected {:?}", other),
    }
    match init_wait_step(false, true, 0, 30) {
        WaitStep::Fail(AppError::NotFound(m)) => assert_eq!(m, "Init segment not ready"),
        other => panic!("unexpected {:?}", other),
    }
    assert!(matches!(run_ready_step(true, true, 2, 30), WaitStep::Ready));
    assert!(matches!(run_ready_step(true, false, 2, 30), WaitStep::Wait));
    match run_ready_step(true, true, 30, 30) {
        WaitStep::Fail(AppError::Internal(m)) => assert_eq!(m, "FFmpeg failed to produce playlist in time"),
        other => panic!("unexpected {:?}", other),
    }
    assert_eq!(next_delay_ms(50), 100);
    assert_eq!(next_delay_ms(400), 500);
    assert_eq!(next_delay_ms(500), 500);
}

fn stream(index: i32, kind: &str, codec: &str) -> ProbeStream {
    ProbeStream {
        index,
        codec_type: Some(kind.to_string()),
        codec_name: Some(codec.to_string()),
        codec_tag_string: None,
        width: None,
        height: None,
        profile: None,
        pix_fmt: None,
        r_frame_rate: None,
        bit_rate: Some("640000".to_string()),
        bits_per_raw_sample: Some("10".to_string()),
        channels: None,
        channel_layout: None,
        sample_rate: Some("48000".to_string()),
        language: None,
        title: None,
        disposition_default: None,
        disposition_forced: None,
        color_space: None,
        color_transfer: None,
        color_primaries: None,
        refs: None,
    }
}

#[test]
fn probe_prefers_default_audio() {
    let mut a2 = stream(2, "audio", "ac3");
    a2.disposition_default = Some(1);
    let streams = vec![
        stream(0, "video", "h264"),
        stream(1, "audio", "aac"),
        a2,
        stream(3, "subtitle", "subrip"),
        stream(4, "video", "mjpeg"),
    ];
    let format = ProbeFormat {
        format_name: Some("matroska,webm".to_string()),
        duration: Some("5400.5".to_string()),
        size: Some("123456".to_string()),
        bit_rate: Some("not a number".to_string()),
    };
    let r = probe_result(streams, Some(format));
    assert_eq!(r.video_codec.as_deref(), Some("h264"));
    assert_eq!(r.video_stream_index, 0);
    assert_eq!(r.audio_codec.as_deref(), Some("ac3"));
    assert_eq!(r.audio_stream_index, Some(2));
    assert_eq!(r.container.as_deref(), Some("matroska,webm"));
    assert_eq!(r.media_info.size, Some(123456));
    assert_eq!(r.media_info.bit_rate, None);
    assert_eq!(r.media_info.audio.len(), 2);
    assert_eq!(r.media_info.audio[1].index, 1);
    assert!(r.media_info.audio[0].default);
    assert_eq!(r.media_info.subtitles.len(), 1);
    let v = r.media_info.video.as_ref().unwrap();
    assert_eq!(v.bit_rate, Some(640000));
    assert_eq!(v.bit_depth, Some(10));
    assert_eq!(r.media_info.audio[0].sample_rate, Some(48000));
}

#[test]
fn probe_without_streams() {
    let r = probe_result(vec![], None);
    assert!(r.video_codec.is_none());
    assert_eq!(r.video_stream_index, 0);
    assert!(r.audio_codec.is_none());
    assert!(r.audio_stream_index.is_none());
    assert!(r.container.is_none());
}

#[test]
fn stream_info_urls() {
    let mp4 = probe_result(vec![stream(0, "video", "h264"), stream(1, "audio", "aac")], Some(ProbeFormat {
        format_name: Some("mov,mp4,m4a,3gp,3g2,mj2".to_string()),
        duration: None,
        size: None,
        bit_rate: None,
    }));
    let info = stream_info(12, mp4, None, Some(90_000));
    assert!(!info.needs_transcode);
    assert_eq!(info.direct_stream_url, "/api/v1/stream/12");
    assert_eq!(info.hls_url, None);
    assert_eq!(info.duration_ms, Some(90_000));
    let hevc = probe_result(vec![stream(0, "video", "hevc"), stream(1, "audio", "aac")], None);
    let info = stream_info(12, hevc, Some(DeviceProfile::default()), None);
    assert!(info.needs_transcode);
    assert_eq!(
        info.hls_url.as_deref(),
        Some("/api/v1/stream/12/hls/master.m3u8?video_transcode=true&audio_transcode=true")
    );
    let none_profile = DeviceProfile {
        name: None,
        max_streaming_bitrate: None,
        max_static_bitrate: None,
        music_streaming_transcoding_bitrate: None,
        max_audio_channels: None,
        hardware_acceleration: None,
        direct_play_profiles: vec![],
        transcoding_profiles: vec![TranscodingProfile {
            container: "ts".to_string(),
            video_codec: "hevc".to_string(),
            audio_codec: "aac".to_string(),
            protocol: "hls".to_string(),
        }],
    };
    let hevc = probe_result(vec![stream(0, "video", "hevc"), stream(1, "audio", "aac")], None);
    assert!(!stream_info(1, hevc, Some(none_profile), None).needs_transcode);
}

#[test]
fn normalizing_twice_changes_nothing() {
    for c in [" AVC1 ", "HEVC", "  mp4a", "Opus ", "ac-3", "", "  "] {
        let n = normalize_codec(c);
        assert_eq!(normalize_codec(&n), n);
        assert_eq!(normalize_codec(&c.trim().to_lowercase()), n);
        assert_eq!(n.trim().to_lowercase(), n);
    }
    for c in [" Matroska", "MOV", "mpegts ", "webm"] {
        let n = normalize_container(c);
        assert_eq!(normalize_container(&n), n);
        assert_eq!(n.trim().to_lowercase(), n);
    }
}

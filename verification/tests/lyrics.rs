use vortex::services::lyrics_service::{
    cache_path, lrclib_query, lrclib_verdict, lyrics_sources, plain_lyric_lines, source_label,
    split_lrc_line, text_lines, timestamp_parts, LrclibVerdict, LrclibPick, LyricsSource, TrackInfo, pick_lrclib,
};

#[test]
fn lines_as_str_lines_gives_them() {
    assert_eq!(text_lines("a\r\nb\n\nc\n"), vec!["a", "b", "", "c"]);
    assert_eq!(text_lines(""), Vec::<String>::new());
    assert_eq!(text_lines("x"), vec!["x"]);
    assert_eq!(plain_lyric_lines("  one \n\n two\r\n   \n"), vec!["one", "two"]);
}

#[test]
fn lrc_line_tags() {
    let (tags, text) = split_lrc_line("  [00:12.00][00:15.50]  Hello world ");
    assert_eq!(tags, vec!["00:12.00", "00:15.50"]);
    assert_eq!(text, "Hello world");
    let (tags, text) = split_lrc_line("[ar:Someone]");
    assert_eq!(tags, vec!["ar:Someone"]);
    assert_eq!(text, "");
    let (tags, text) = split_lrc_line("[broken tag");
    assert!(tags.is_empty());
    assert_eq!(text, "[broken tag");
    assert_eq!(timestamp_parts(" 01 : 02.5 "), Some(vec!["01".to_string(), "02.5".to_string()]));
    assert_eq!(timestamp_parts("1:02:03"), Some(vec!["1".to_string(), "02".to_string(), "03".to_string()]));
    assert_eq!(timestamp_parts("ar"), None);
    assert_eq!(timestamp_parts("1:2:3:4"), None);
}

#[test]
fn lyrics_source_order() {
    assert_eq!(
        lyrics_sources(false),
        vec![
            LyricsSource::LrcSidecar,
            LyricsSource::Embedded,
            LyricsSource::TxtSidecar,
            LyricsSource::Cache,
            LyricsSource::Lrclib
        ]
    );
    assert_eq!(lyrics_sources(true), vec![LyricsSource::Lrclib]);
    assert_eq!(source_label(LyricsSource::LrcSidecar), Some("lrc"));
    assert_eq!(source_label(LyricsSource::Embedded), Some("embedded"));
    assert_eq!(source_label(LyricsSource::TxtSidecar), Some("txt"));
    assert_eq!(source_label(LyricsSource::Lrclib), Some("lrclib"));
    assert_eq!(source_label(LyricsSource::Cache), None);
    assert_eq!(cache_path(42), "lyrics/42.json");
}

#[test]
fn lrclib_lookup_parameters() {
    let info = TrackInfo {
        path: "/m/a.flac".to_string(),
        title: Some(" Song ".to_string()),
        artist: None,
        album: Some("  ".to_string()),
        duration: Some(215),
    };
    let q = lrclib_query(&info).unwrap();
    assert_eq!(
        q,
        vec![
            ("track_name", "Song".to_string()),
            ("artist_name", String::new()),
            ("duration", "215".to_string())
        ]
    );
    let info2 = TrackInfo { title: Some("   ".to_string()), ..info.clone() };
    assert!(lrclib_query(&info2).is_none());
    let info3 = TrackInfo { album: Some(" LP ".to_string()), artist: Some(" Band ".to_string()), duration: None, ..info };
    assert_eq!(
        lrclib_query(&info3).unwrap(),
        vec![
            ("track_name", "Song".to_string()),
            ("artist_name", "Band".to_string()),
            ("album_name", "LP".to_string())
        ]
    );
    assert_eq!(lrclib_verdict(404), LrclibVerdict::Miss);
    assert_eq!(lrclib_verdict(503), LrclibVerdict::Transient);
    assert_eq!(lrclib_verdict(429), LrclibVerdict::Transient);
    assert_eq!(lrclib_verdict(200), LrclibVerdict::Found);
}

#[test]
fn lrclib_prefers_synced_lyrics() {
    assert_eq!(pick_lrclib(3, 5), Some(LrclibPick::Synced));
    assert_eq!(pick_lrclib(0, 5), Some(LrclibPick::Plain));
    assert_eq!(pick_lrclib(0, 0), None);
    assert_eq!(pick_lrclib(1, 0), Some(LrclibPick::Synced));
}

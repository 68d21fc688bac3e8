use vortex::models::db::libraries::LibraryType;
use vortex::models::metadata::EpisodeMetadata;
use vortex::services::scanner::{
    album_cover_file, book_series, cover_extension, episode_needs_metadata, episode_placement,
    fast_scan_skips, file_stem_or_unknown, find_episode, gallery_name, library_scans_file,
    movie_needs_metadata, parse_episode_number, parse_tv_show_info, photo_thumbnail_url,
    saved_image_url, series_needs_metadata, tag_year, track_names, video_ingest, video_item_type,
    VideoIngest,
};

#[test]
fn episode_numbers_from_file_names() {
    assert_eq!(parse_episode_number("Show S01E05"), Some(5));
    assert_eq!(parse_episode_number("show.s02e13.1080p"), Some(13));
    assert_eq!(parse_episode_number("Show 1x07"), Some(7));
    assert_eq!(parse_episode_number("Show Episode 12"), Some(12));
    assert_eq!(parse_episode_number("Show Ep3"), Some(3));
    assert_eq!(parse_episode_number("Show - 04 - Title"), Some(4));
    assert_eq!(parse_episode_number("E09 Pilot"), Some(9));
    assert_eq!(parse_episode_number("Movie Title"), None);
}

#[test]
fn tv_layout_from_paths() {
    assert_eq!(
        parse_tv_show_info("/tv/Show/Season 2/Show S02E03.mkv", "/tv", "TV"),
        Some(("Show".to_string(), 2, 3))
    );
    assert_eq!(
        parse_tv_show_info("/tv/Show/Specials/Show E01.mkv", "/tv", "TV"),
        Some(("Show".to_string(), 1, 1))
    );
    assert_eq!(
        parse_tv_show_info("/tv/Show/Show 1x04.mkv", "/tv", "TV"),
        Some(("Show".to_string(), 1, 4))
    );
    assert_eq!(parse_tv_show_info("/tv/pilot.mkv", "/tv", "TV"), Some(("TV".to_string(), 1, 1)));
    assert_eq!(parse_tv_show_info("/elsewhere/x.mkv", "/tv", "TV"), None);
    assert_eq!(
        episode_placement("/elsewhere/x.mkv", "/tv", "TV"),
        ("TV".to_string(), 1, 1)
    );
}

#[test]
fn book_series_from_folders() {
    assert_eq!(
        book_series("/books/Saga/Saga - 03 - Dawn.cbz", "/books", "Books"),
        Some(("Saga".to_string(), 3))
    );
    assert_eq!(
        book_series("/books/Saga/Saga 3.cbz", "/books", "Books"),
        Some(("Saga".to_string(), 1))
    );
    assert_eq!(book_series("/books/oneshot.pdf", "/books", "Books"), None);
}

#[test]
fn files_a_library_scans() {
    assert!(library_scans_file(LibraryType::Movies, "/m/film.MKV"));
    assert!(!library_scans_file(LibraryType::Movies, "/m/song.mp3"));
    assert!(library_scans_file(LibraryType::Music, "/m/song.flac"));
    assert!(library_scans_file(LibraryType::Books, "/b/x.epub"));
    assert!(library_scans_file(LibraryType::Images, "/p/x.HEIC"));
    assert!(!library_scans_file(LibraryType::Images, "/p/x"));
    assert_eq!(video_item_type(LibraryType::TvShows), "episode");
    assert_eq!(video_item_type(LibraryType::MusicVideos), "music_video");
    assert_eq!(video_item_type(LibraryType::Other), "movie");
    assert_eq!(video_ingest(LibraryType::Other), VideoIngest::Stub);
    assert_eq!(video_ingest(LibraryType::Movies), VideoIngest::Movie);
    assert_eq!(video_ingest(LibraryType::TvShows), VideoIngest::Episode);
    assert_eq!(video_ingest(LibraryType::MusicVideos), VideoIngest::MusicVideo);
}

#[test]
fn names_derived_from_paths() {
    assert_eq!(file_stem_or_unknown("/a/b/movie.mkv"), "movie");
    assert_eq!(file_stem_or_unknown("/"), "Unknown");
    assert_eq!(gallery_name("/photos/Trip/a.jpg", "/photos", "Photos"), "Trip");
    assert_eq!(gallery_name("/photos/Wallpapers/a.jpg", "/photos/Wallpapers", "Photos"), "Wallpapers");
    assert_eq!(gallery_name("/a.jpg", "/", "Photos"), "Photos");
    assert_eq!(
        track_names("/music/Album X/01.flac", Some("  "), None, Some(" Song "), "01"),
        ("Unknown Artist".to_string(), "Album X".to_string(), "Song".to_string())
    );
    assert_eq!(
        track_names("/music/Album X/01.flac", Some("Band"), Some("Real Album"), None, "01"),
        ("Band".to_string(), "Real Album".to_string(), "01".to_string())
    );
}

#[test]
fn refresh_decisions() {
    assert!(fast_scan_skips(false, true));
    assert!(!fast_scan_skips(true, true));
    assert!(!fast_scan_skips(false, false));
    assert!(!movie_needs_metadata(false, Some(Some("p.jpg".to_string()))));
    assert!(movie_needs_metadata(false, Some(None)));
    assert!(movie_needs_metadata(true, Some(Some("p.jpg".to_string()))));
    assert!(!episode_needs_metadata(false, Some(Some("A plot".to_string()))));
    assert!(episode_needs_metadata(false, Some(Some(String::new()))));
    assert!(episode_needs_metadata(false, None));
    assert!(series_needs_metadata(false, None));
    assert!(!series_needs_metadata(false, Some(Some("p".to_string()))));
}

#[test]
fn track_tags_and_covers() {
    assert_eq!(tag_year(Some("2019-04-01"), Some("1999")), Some(2019));
    assert_eq!(tag_year(None, Some("1999")), Some(1999));
    assert_eq!(tag_year(Some("19"), None), None);
    assert_eq!(cover_extension(Some("image/png")), "png");
    assert_eq!(cover_extension(Some("image/jpeg")), "jpg");
    assert_eq!(cover_extension(None), "jpg");
    let f = album_cover_file(12, "png");
    assert_eq!(f, "album_12.png");
    assert_eq!(saved_image_url(&f), "/api/v1/images/album_12.png");
    assert_eq!(photo_thumbnail_url(8), "/api/v1/media/8/thumbnail");
}

#[test]
fn episode_lookup_in_season() {
    let ep = |n: i32| EpisodeMetadata {
        id: n.to_string(),
        episode_number: n,
        season_number: 1,
        name: format!("E{}", n),
        overview: String::new(),
        still_path: None,
        air_date: None,
    };
    let eps = vec![ep(1), ep(2), ep(2), ep(3)];
    assert_eq!(find_episode(&eps, 2), Some(1));
    assert_eq!(find_episode(&eps, 9), None);
}

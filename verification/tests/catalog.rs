use vortex::error::{not_found, AppError};
use vortex::models::metadata::CastMember;
use vortex::services::catalog::{credit_owner, credits_of, joined_names, parse_year, studio_name, CreditOwner};
use vortex::services::images::{exif_text, thumbnail_file_name, IMAGE_EXTENSIONS};
use vortex::services::media_service::{card_source, source_file_name, stream_url, CardSource};
use vortex::services::progress_service::stored_progress;
use vortex::models::db::libraries::LibraryType;

#[test]
fn metadata_years_and_names() {
    assert_eq!(parse_year(Some("1999-03-31")), Some(1999));
    assert_eq!(parse_year(Some("99")), None);
    assert_eq!(parse_year(Some("abcd")), None);
    assert_eq!(parse_year(None), None);
    assert_eq!(joined_names(&vec!["A".to_string(), "B".to_string(), "C".to_string()]), "A, B, C");
    assert_eq!(joined_names(&vec!["Solo".to_string()]), "Solo");
    assert_eq!(joined_names(&vec![]), "");
    assert_eq!(studio_name(Some("Ghibli")).as_deref(), Some("Ghibli"));
    assert_eq!(studio_name(Some("")), None);
    assert_eq!(studio_name(None), None);
}

#[test]
fn credits_cast_then_directors() {
    assert_eq!(credit_owner(Some(1), Some(2)), Some(CreditOwner::Item(1)));
    assert_eq!(credit_owner(None, Some(2)), Some(CreditOwner::Series(2)));
    assert_eq!(credit_owner(None, None), None);
    let cast = Some(vec![CastMember {
        name: "Actor".to_string(),
        character: "Hero".to_string(),
        role: "actor".to_string(),
        profile_url: Some("/a.jpg".to_string()),
        order: 0,
    }]);
    let credits = credits_of(&cast, &Some(vec!["Dir".to_string()]));
    assert_eq!(credits.len(), 2);
    assert_eq!(credits[0].name, "Actor");
    assert_eq!(credits[0].character.as_deref(), Some("Hero"));
    assert_eq!(credits[1].name, "Dir");
    assert_eq!(credits[1].role, "Director");
    assert_eq!(credits[1].character, None);
    assert_eq!(credits[1].order, 0);
    assert!(credits_of(&None, &None).is_empty());
}

#[test]
fn read_layer_shapes() {
    assert_eq!(stream_url(42), "/api/v1/stream/42");
    assert_eq!(stream_url(-1), "/api/v1/stream/-1");
    assert_eq!(source_file_name("/movies/Heat (1995)/Heat.mkv"), "Heat.mkv");
    assert_eq!(source_file_name("/"), "");
    assert_eq!(card_source(LibraryType::TvShows), CardSource::Series);
    assert_eq!(card_source(LibraryType::Books), CardSource::Books);
    assert_eq!(card_source(LibraryType::Music), CardSource::Albums);
    assert_eq!(card_source(LibraryType::MusicVideos), CardSource::MusicVideos);
    assert_eq!(card_source(LibraryType::Images), CardSource::Movies);
    match not_found("Movie", 7) {
        AppError::NotFound(m) => assert_eq!(m, "Movie 7 not found"),
        other => panic!("unexpected {:?}", other),
    }
    assert_eq!(stored_progress(None), (0, None));
    assert_eq!(stored_progress(Some((95, Some("webtoon".to_string())))), (95, Some("webtoon".to_string())));
}

#[test]
fn image_helpers() {
    assert_eq!(IMAGE_EXTENSIONS.len(), 10);
    assert_eq!(thumbnail_file_name(""), None);
    let url = "https://image.tmdb.org/t/p/w500/abc.PNG";
    let expected = format!("{:x}.png", md5::compute(url.as_bytes()));
    assert_eq!(thumbnail_file_name(url), Some(expected));
    let jpg = "https://x/y";
    assert_eq!(thumbnail_file_name(jpg), Some(format!("{:x}.jpg", md5::compute(jpg.as_bytes()))));
    assert_eq!(exif_text("\"Canon\""), Some("Canon".to_string()));
    assert_eq!(exif_text("\"\""), None);
    assert_eq!(exif_text("  \"\" "), Some("\"\"".to_string()));
    assert_eq!(exif_text("\" EOS R5 \""), Some("EOS R5".to_string()));
    assert_eq!(exif_text("2021:06:01 10:00:00"), Some("2021:06:01 10:00:00".to_string()));
}

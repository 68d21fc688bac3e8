use vortex::error::AppError;
use vortex::models::db::provider_configs::ProviderConfig;
use vortex::providers::tmdb::{
    api_url, backdrop_url, check_api_key, detail_attempts, detail_endpoint, detail_miss,
    numeric_id, poster_url, record_runtime, record_title, record_year, search_result_kind,
    season_endpoint, season_episode, stored_api_key, year_text, TmdbEpisode,
};
use vortex::services::metadata_service::{
    chain_candidates, chain_fallback, chain_search_result, ChainFallback, choose_default_provider, extract_year, names_provider,
    override_configs, provider_id_text, provider_source, ProviderSource,
};

#[test]
fn title_and_year_of_queries() {
    assert_eq!(extract_year("Heat (1995)"), ("Heat".to_string(), Some("1995".to_string())));
    assert_eq!(extract_year("Blade Runner 2049"), ("Blade Runner".to_string(), Some("2049".to_string())));
    assert_eq!(extract_year("Alien 1979 "), ("Alien".to_string(), Some("1979".to_string())));
    assert_eq!(extract_year("1995"), ("1995".to_string(), None));
    assert_eq!(extract_year("No Year Here"), ("No Year Here".to_string(), None));
}

#[test]
fn default_provider_choice() {
    assert_eq!(choose_default_provider(Some("omdb".to_string()), Some("x".to_string())), "omdb");
    assert_eq!(choose_default_provider(None, Some("legacy".to_string())), "legacy");
    assert_eq!(choose_default_provider(None, None), "tmdb");
    assert!(names_provider(Some("tmdb")));
    assert!(!names_provider(Some("")));
    assert!(!names_provider(None));
}

fn cfg(id: &str, enabled: bool, priority: i32) -> ProviderConfig {
    ProviderConfig { provider_id: id.to_string(), enabled, priority, config_json: "{}".to_string() }
}

#[test]
fn library_overrides_become_configs() {
    let out = override_configs(vec![
        ("tmdb".to_string(), 1, true, Some("{\"k\":1}".to_string())),
        ("omdb".to_string(), 2, false, None),
    ]);
    assert_eq!(out.len(), 2);
    assert_eq!(out[0].provider_id, "tmdb");
    assert_eq!(out[0].priority, 1);
    assert!(out[0].enabled);
    assert_eq!(out[0].config_json, "{\"k\":1}");
    assert_eq!(out[1].config_json, "{}");
    assert!(!out[1].enabled);
}

#[test]
fn provider_chain_membership() {
    let configs = vec![cfg("tmdb", true, 1), cfg("gone", true, 2), cfg("omdb", false, 3), cfg("tvdb", true, 4)];
    let types = vec![
        Some(vec!["movie".to_string(), "series".to_string()]),
        None,
        Some(vec!["movie".to_string()]),
        Some(vec!["series".to_string()]),
    ];
    assert_eq!(chain_candidates(&configs, &types, None), vec![0, 3]);
    assert_eq!(chain_candidates(&configs, &types, Some("movie")), vec![0]);
    assert_eq!(chain_candidates(&configs, &types, Some("series")), vec![0, 3]);
    assert!(chain_candidates(&configs, &types, Some("book")).is_empty());
}

#[test]
fn chain_search_answers() {
    match chain_search_result::<u8>(0, vec![]) {
        Err(AppError::BadRequest(m)) => assert_eq!(m, "No metadata providers are configured and enabled"),
        other => panic!("unexpected {:?}", other),
    }
    assert_eq!(chain_search_result(3, vec![None, Some(vec![]), Some(vec![7u8, 8])]).unwrap(), vec![7, 8]);
    match chain_search_result::<u8>(2, vec![None, Some(vec![])]) {
        Err(AppError::NotFound(m)) => assert_eq!(m, "No results found from any provider"),
        other => panic!("unexpected {:?}", other),
    }
}

#[test]
fn provider_sources() {
    assert_eq!(provider_source(true, true, "omdb").unwrap(), ProviderSource::Configured);
    assert_eq!(provider_source(true, false, "tmdb").unwrap(), ProviderSource::LegacyTmdb);
    assert_eq!(provider_source(false, true, "tmdb").unwrap(), ProviderSource::LegacyTmdb);
    match provider_source(false, false, "imdb") {
        Err(AppError::BadRequest(m)) => assert_eq!(m, "Unknown provider: imdb"),
        other => panic!("unexpected {:?}", other),
    }
    assert_eq!(provider_id_text(Some(603), Some("x")).as_deref(), Some("603"));
    assert_eq!(provider_id_text(None, Some("tt0133093")).as_deref(), Some("tt0133093"));
    assert_eq!(provider_id_text(None, None), None);
}

#[test]
fn tmdb_urls_and_records() {
    assert_eq!(api_url("search/multi"), "https://api.themoviedb.org/3/search/multi");
    assert_eq!(poster_url("/p.jpg"), "https://image.tmdb.org/t/p/w500/p.jpg");
    assert_eq!(backdrop_url("/b.jpg"), "https://image.tmdb.org/t/p/original/b.jpg");
    assert_eq!(year_text("1999-03-31"), "1999");
    assert_eq!(year_text("99"), "99");
    assert_eq!(search_result_kind(true), "movie");
    assert_eq!(search_result_kind(false), "series");
    assert_eq!(detail_endpoint("movie", "603"), "movie/603");
    assert_eq!(season_endpoint("1399", 2), "tv/1399/season/2");
    assert_eq!(detail_attempts(Some("movie")), vec![("movie", "movie")]);
    assert_eq!(detail_attempts(Some("series")), vec![("tv", "series")]);
    assert_eq!(detail_attempts(None), vec![("movie", "movie"), ("tv", "series")]);
    match detail_miss(Some("tv")) {
        AppError::NotFound(m) => assert_eq!(m, "TMDB ID not found for series"),
        other => panic!("unexpected {:?}", other),
    }
    match detail_miss(Some("movie")) {
        AppError::NotFound(m) => assert_eq!(m, "TMDB ID not found for movie"),
        other => panic!("unexpected {:?}", other),
    }
    match detail_miss(None) {
        AppError::NotFound(m) => assert_eq!(m, "TMDB ID not found"),
        other => panic!("unexpected {:?}", other),
    }
    assert_eq!(record_title(Some(Some("The Matrix".to_string())), Some(Some("x".to_string()))), "The Matrix");
    assert_eq!(record_title(None, Some(Some("Dark".to_string()))), "Dark");
    assert_eq!(record_title(Some(None), Some(Some("Dark".to_string()))), "Unknown");
    assert_eq!(record_year(None, Some(Some("2017-12-01".to_string()))).as_deref(), Some("2017"));
    assert_eq!(record_year(None, None), None);
    assert_eq!(record_runtime(None, Some(vec![52, 60])), Some(52));
    assert_eq!(record_runtime(Some(136), Some(vec![52])), Some(136));
    assert_eq!(record_runtime(None, Some(vec![])), None);
    assert_eq!(numeric_id("603"), 603);
    assert_eq!(numeric_id("abc"), 0);
}

#[test]
fn tmdb_keys_and_episodes() {
    assert!(check_api_key("k").is_ok());
    match check_api_key("  ") {
        Err(AppError::BadRequest(m)) => assert_eq!(m, "TMDB API Key not set"),
        other => panic!("unexpected {:?}", other),
    }
    assert_eq!(stored_api_key(Some(" key ".to_string())).unwrap(), " key ");
    match stored_api_key(None) {
        Err(AppError::BadRequest(m)) => assert_eq!(m, "TMDB API Key not found in settings"),
        other => panic!("unexpected {:?}", other),
    }
    match stored_api_key(Some(" ".to_string())) {
        Err(AppError::BadRequest(m)) => assert_eq!(m, "TMDB API Key is empty in settings"),
        other => panic!("unexpected {:?}", other),
    }
    let ep = season_episode(
        TmdbEpisode { episode_number: 4, name: "Four".to_string(), overview: "o".to_string(), still_path: Some("/s.jpg".to_string()) },
        2,
    );
    assert_eq!(ep.id, "4");
    assert_eq!(ep.episode_number, 4);
    assert_eq!(ep.season_number, 2);
    assert_eq!(ep.still_path.as_deref(), Some("https://image.tmdb.org/t/p/w500/s.jpg"));
    assert!(ep.air_date.is_none());
}

#[test]
fn chain_fallbacks() {
    assert_eq!(chain_fallback(false, 2), ChainFallback::Keep);
    assert_eq!(chain_fallback(false, 0), ChainFallback::GlobalConfigs);
    assert_eq!(chain_fallback(true, 1), ChainFallback::Keep);
    assert_eq!(chain_fallback(true, 0), ChainFallback::RegistryDefaults);
}

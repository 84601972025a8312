use media_tracker::artwork::{cache_filename, should_evict, CacheModel};
use media_tracker::catalog::Catalog;
use media_tracker::controller::{build_manual_item, parse_quality_types, AppControllerRust};
use media_tracker::models::{default_row_height, AppConfig, CacheError, MediaItem, SearchError, SearchResult};
use media_tracker::provider::{retry_decision, RetryStep};
use media_tracker::rows::{MediaModelRust, SearchModelRust};
use media_tracker::session::{
    attach_artwork, build_drafts, parse_id_list, start_search, wants_artwork, SearchSession,
    SearchTarget, SessionPhase, StartOutcome,
};

fn sr(api_id: i64, title: &str, poster: Option<&str>) -> SearchResult {
    SearchResult {
        api_id,
        title: title.to_string(),
        native_title: None,
        romaji_title: None,
        year: Some(2010),
        overview: None,
        poster_url: poster.map(|p| p.to_string()),
    }
}

fn stamp() -> String {
    "2024-01-01 00:00:00".to_string()
}

#[test]
fn start_search_validates_before_any_network() {
    assert!(matches!(
        start_search("Movie", "   ", 0, "KEY", false),
        StartOutcome::EmptyQuery
    ));
    assert!(matches!(
        start_search("Movie", "Inception", 0, "", false),
        StartOutcome::MissingCredential(_)
    ));
    match start_search("Movie", "Inception", 0, "", false) {
        StartOutcome::MissingCredential(e) => {
            assert_eq!(e.message, "TMDB API key not set. Configure in Settings.")
        }
        _ => panic!("expected a missing-credential outcome"),
    }
    assert!(matches!(
        start_search("Podcast", "Serial", 0, "KEY", false),
        StartOutcome::UnknownCategory
    ));
}

#[test]
fn start_search_dispatches_per_category() {
    match start_search("Movie", "  Inception  ", 2010, "KEY", false) {
        StartOutcome::Dispatch(d) => {
            assert_eq!(d.target, SearchTarget::MovieSearch);
            assert_eq!(d.query, "Inception");
            assert_eq!(d.year, Some(2010));
            assert!(!d.include_adult);
            assert_eq!(d.api_key, "KEY");
        }
        _ => panic!("expected a dispatch"),
    }
    match start_search("TV", "Dark", 0, "KEY", true) {
        StartOutcome::Dispatch(d) => {
            assert_eq!(d.target, SearchTarget::TvSearch);
            assert_eq!(d.year, None);
            assert!(d.include_adult);
        }
        _ => panic!("expected a dispatch"),
    }
    // The anime provider needs no credential.
    match start_search("Anime", "Lain", 1998, "", false) {
        StartOutcome::Dispatch(d) => assert_eq!(d.target, SearchTarget::AnimeSearch),
        _ => panic!("expected a dispatch"),
    }
}

#[test]
fn session_success_flow() {
    let mut session = SearchSession::new();
    assert!(matches!(session.phase, SessionPhase::Idle));
    let token = session.begin_search();
    assert!(matches!(session.phase, SessionPhase::Searching));
    session.complete_success(token, vec![sr(1, "A", None), sr(2, "B", None)]);
    assert!(matches!(session.phase, SessionPhase::ResultsReady));
    assert_eq!(session.results.len(), 2);
}

#[test]
fn stale_completion_is_ignored() {
    let mut session = SearchSession::new();
    let first_token = session.begin_search();
    // A second search supersedes the first wholesale.
    let second_token = session.begin_search();
    assert_ne!(first_token, second_token);
    // The late completion of the superseded search changes nothing.
    session.complete_success(first_token, vec![sr(1, "stale", None)]);
    assert!(matches!(session.phase, SessionPhase::Searching));
    assert_eq!(session.results.len(), 0);
    // The current search's completion lands.
    session.complete_success(second_token, vec![sr(2, "fresh", None)]);
    assert!(matches!(session.phase, SessionPhase::ResultsReady));
    assert_eq!(session.results[0].title, "fresh");
}

#[test]
fn rate_limited_search_ends_failed_with_no_results() {
    let mut session = SearchSession::new();
    let token = session.begin_search();
    // Every attempt is answered with the rate-limit status.
    let mut attempt: u32 = 0;
    let err = loop {
        match retry_decision(attempt, 429) {
            RetryStep::Retry { delay_secs } => {
                assert_eq!(delay_secs, 5u64 << attempt);
                attempt += 1;
            }
            RetryStep::Fail(e) => break e,
            RetryStep::Proceed => panic!("a rate-limited attempt must not proceed"),
        }
    };
    assert_eq!(attempt, 3);
    assert_eq!(err, SearchError::RateLimited);
    session.complete_failure(token, err);
    assert_eq!(session.phase, SessionPhase::Failed(SearchError::RateLimited));
    assert_eq!(session.results.len(), 0);
}

#[test]
fn promote_two_selections_one_without_artwork() {
    let results = vec![
        sr(11, "With artwork", Some("https://img/poster.jpg")),
        sr(12, "Unselected", Some("https://img/unused.jpg")),
        sr(13, "No artwork", Some("")),
    ];
    let drafts = build_drafts(&results, &vec![0, 2], "Movie", "On Drive");
    assert_eq!(drafts.len(), 2);
    assert_eq!(drafts[0].item.title, "With artwork");
    assert_eq!(drafts[0].item.tmdb_id, Some(11));
    assert_eq!(drafts[0].item.anilist_id, None);
    assert_eq!(drafts[0].item.status, "On Drive");
    assert_eq!(drafts[1].item.title, "No artwork");

    // Artwork is fetched only for selected drafts with a non-empty URL.
    let mut cache = CacheModel::new();
    let mut downloads = 0;
    let mut to_insert: Vec<MediaItem> = Vec::new();
    for draft in drafts {
        if wants_artwork(&draft.artwork_url) {
            let url = draft.artwork_url.clone().unwrap();
            let name = cache_filename(&url);
            if cache.materialize(name.clone()) {
                downloads += 1;
            }
            to_insert.push(attach_artwork(draft.item, Ok(name)));
        } else {
            to_insert.push(draft.item);
        }
    }
    assert_eq!(downloads, 1);

    let mut cat = Catalog::new();
    let outcome = cat.add_items_batch(to_insert, true, &stamp());
    assert_eq!(outcome.added, 2);
    assert_eq!(outcome.skipped, 0);
    assert_eq!(outcome.errors, 0);
    assert!(cat.items[0].poster_url.is_some());
    assert!(cat.items[1].poster_url.is_none());
}

#[test]
fn delete_batch_cleans_up_referenced_artwork() {
    let mut cat = Catalog::new();
    let mut a = MediaItem {
        poster_url: Some("data/image_cache/ea2eddeae778a171.jpg".to_string()),
        ..blank("A")
    };
    a.year = Some(2000);
    cat.add_item(a, &stamp());
    cat.add_item(
        MediaItem {
            poster_url: Some("data/image_cache/f76f21af42e8138b.png".to_string()),
            ..blank("B")
        },
        &stamp(),
    );
    cat.add_item(blank("C"), &stamp());

    let ids = vec![1, 2, 3];
    let paths = cat.get_poster_urls(&ids);
    assert_eq!(paths.len(), 2);
    let mut removed = 0;
    for p in &paths {
        if should_evict(p) {
            removed += 1;
        }
    }
    cat.delete_items_batch(&ids);
    assert_eq!(removed, 2);
    assert!(cat.items.is_empty());
}

fn blank(title: &str) -> MediaItem {
    MediaItem {
        id: None,
        title: title.to_string(),
        native_title: None,
        romaji_title: None,
        year: None,
        media_type: "Movie".to_string(),
        status: "On Drive".to_string(),
        quality_type: None,
        source: None,
        notes: None,
        tmdb_id: None,
        anilist_id: None,
        poster_url: None,
        created_at: None,
        updated_at: None,
    }
}

#[test]
fn failed_artwork_download_degrades_to_no_artwork() {
    let item = blank("No poster after all");
    let attached = attach_artwork(item, Err(CacheError::TransportError("offline".to_string())));
    assert_eq!(attached.poster_url, None);
    assert_eq!(attached.title, "No poster after all");
    let item2 = blank("Disk full");
    let attached2 = attach_artwork(item2, Err(CacheError::IoError("disk full".to_string())));
    assert_eq!(attached2.poster_url, None);
}

#[test]
fn parse_id_list_skips_malformed_segments() {
    assert_eq!(parse_id_list("1, 2,x, 3"), vec![1, 2, 3]);
    assert_eq!(parse_id_list(""), Vec::<i64>::new());
    assert_eq!(parse_id_list(" 42 "), vec![42]);
    assert_eq!(parse_id_list("99999999999999999999999"), Vec::<i64>::new());
    assert_eq!(parse_id_list("-5,+6"), vec![-5, 6]);
    // A lone sign is not a number.
    assert_eq!(parse_id_list("-,+"), Vec::<i64>::new());
}

#[test]
fn quality_vocabulary_parses_by_line() {
    assert_eq!(
        parse_quality_types("  BluRay \n\n Remux 1080p\n"),
        vec!["BluRay".to_string(), "Remux 1080p".to_string()]
    );
    assert_eq!(parse_quality_types(""), Vec::<String>::new());
}

#[test]
fn manual_item_treats_empty_fields_as_absent() {
    let item = build_manual_item(
        -1,
        "Title".to_string(),
        "".to_string(),
        "Romaji".to_string(),
        0,
        "Movie".to_string(),
        "On Drive".to_string(),
        "".to_string(),
        "Web".to_string(),
        "".to_string(),
        "".to_string(),
    );
    assert_eq!(item.id, None);
    assert_eq!(item.native_title, None);
    assert_eq!(item.romaji_title, Some("Romaji".to_string()));
    assert_eq!(item.year, None);
    assert_eq!(item.quality_type, None);
    assert_eq!(item.source, Some("Web".to_string()));
    assert_eq!(item.tmdb_id, None);
    assert_eq!(item.anilist_id, None);
}

#[test]
fn controller_navigation_resets_filters() {
    let mut ctrl = AppControllerRust::default();
    ctrl.set_search_term_filter("left over");
    ctrl.navigate_to("Anime");
    assert_eq!(ctrl.active_page, "Anime");
    assert_eq!(ctrl.active_status, "On Drive");
    assert_eq!(ctrl.search_term, "");
}

#[test]
fn controller_settings_round_trip() {
    let mut ctrl = AppControllerRust::default();
    let mut config = AppConfig::default();
    ctrl.set_row_height_pref(500, &mut config);
    assert_eq!(ctrl.row_height, 200);
    assert_eq!(config.row_height, 200);
    ctrl.set_row_height_pref(1, &mut config);
    assert_eq!(ctrl.row_height, 30);

    ctrl.save_settings(&mut config, "SECRET-REDACTED", true, "BluRay\nRemux");
    assert_eq!(config.tmdb_api_key, "SECRET-REDACTED");
    assert!(config.include_adult);
    assert_eq!(config.row_height, 30);
    assert_eq!(
        config.quality_types,
        vec!["BluRay".to_string(), "Remux".to_string()]
    );
    assert_eq!(ctrl.get_quality_types(&config), "BluRay\nRemux");
    assert_eq!(
        ctrl.get_status_options(),
        "On Drive\nTo Download\nTo Work On"
    );

    let mut fresh = AppControllerRust::default();
    fresh.load_config(&config);
    assert_eq!(fresh.tmdb_api_key, "SECRET-REDACTED");
    assert_eq!(fresh.row_height, 30);
    assert_eq!(fresh.sort_field, "title");
    assert_eq!(fresh.sort_dir, "ASC");
    let zero_height = AppConfig {
        row_height: 0,
        ..AppConfig::default()
    };
    fresh.load_config(&zero_height);
    assert_eq!(fresh.row_height, 44);
}

#[test]
fn controller_reloads_counts_from_catalog() {
    let mut cat = Catalog::new();
    cat.add_item(blank("A"), &stamp());
    cat.add_item(blank("B"), &stamp());
    cat.add_item(
        MediaItem {
            media_type: "Anime".to_string(),
            ..blank("C")
        },
        &stamp(),
    );
    let mut ctrl = AppControllerRust::default();
    ctrl.reload_counts(&cat);
    assert_eq!(ctrl.movie_count, 2);
    assert_eq!(ctrl.tv_count, 0);
    assert_eq!(ctrl.anime_count, 1);

    ctrl.navigate_to("Movie");
    ctrl.reload_items(&cat);
    assert_eq!(ctrl.item_count, 2);
    ctrl.set_search_term_filter("a");
    ctrl.reload_items(&cat);
    assert_eq!(ctrl.item_count, 1);
}

#[test]
fn media_model_projects_rows_with_defaults() {
    let mut cat = Catalog::new();
    cat.add_item(blank("Solaris"), &stamp());
    let rows = cat.get_items(None, None);
    let posters = vec![("".to_string(), false)];
    let mut model = MediaModelRust::default();
    model.load(&rows, &posters);
    assert_eq!(model.row_count(), 1);
    assert_eq!(model.get_item_id(0), 1);
    assert_eq!(model.get_item_title(0), "Solaris");
    assert_eq!(model.get_item_native_title(0), "");
    assert_eq!(model.get_item_id(5), -1);
    assert_eq!(model.get_item_title(-1), "");
}

#[test]
fn search_model_selection_round_trip() {
    let results = vec![sr(1, "A", None), sr(2, "B", None), sr(3, "C", None)];
    let posters = vec![
        ("".to_string(), false),
        ("".to_string(), false),
        ("".to_string(), false),
    ];
    let mut model = SearchModelRust::default();
    model.load_from_state(&results, &posters);
    assert_eq!(model.items.len(), 3);
    assert_eq!(model.selected_count, 0);
    model.toggle_selection(0);
    model.toggle_selection(2);
    assert_eq!(model.selected_count, 2);
    assert_eq!(model.get_selected_indices(), "0,2");
    model.toggle_selection(0);
    assert_eq!(model.selected_count, 1);
    assert_eq!(model.get_selected_indices(), "2");
    // Rows outside the listing are ignored.
    model.toggle_selection(99);
    assert_eq!(model.selected_count, 1);
    model.clear();
    assert_eq!(model.items.len(), 0);
    assert_eq!(model.selected_count, 0);
}

#[test]
fn default_config_matches_fresh_install() {
    let config = AppConfig::default();
    assert_eq!(config.view_mode, "grid");
    assert_eq!(config.row_height, default_row_height());
    assert!(!config.include_adult);
    assert_eq!(config.tmdb_api_key, "");
    assert_eq!(config.quality_types.len(), 9);
    assert_eq!(config.quality_types[0], "BluRay");
    assert_eq!(config.quality_types[8], "WebDL");
}

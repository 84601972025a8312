use media_tracker::models::{SearchError, SearchResult};
use media_tracker::provider::{
    build_movie_query, build_tv_query, combine_pages, extract_year, gql_document,
    normalize_anime_row, normalize_tmdb_row, poster_url, resolve_title, results_from_payload,
    retry_decision, second_page_params, should_fetch_second_page, strip_html_tags,
    total_pages_of, AnimeRow, RetryStep, TmdbRow,
};
use media_tracker::jsonval::parse_json;
use media_tracker::session::SearchTarget;

fn result(title: &str) -> SearchResult {
    SearchResult {
        api_id: 1,
        title: title.to_string(),
        native_title: None,
        romaji_title: None,
        year: None,
        overview: None,
        poster_url: None,
    }
}

#[test]
fn strip_html_removes_tag_spans() {
    assert_eq!(strip_html_tags("<p>Hello <b>World</b></p>"), "Hello World");
    assert_eq!(strip_html_tags("no markup"), "no markup");
    assert_eq!(strip_html_tags(""), "");
    // No entity decoding: other text is kept verbatim.
    assert_eq!(strip_html_tags("a &amp; b"), "a &amp; b");
}

#[test]
fn strip_html_keeps_a_bare_closing_bracket() {
    // A `>` outside any tag span is ordinary text and stays.
    assert_eq!(strip_html_tags(">"), ">");
    assert_eq!(strip_html_tags("5 > 3"), "5 > 3");
    assert_eq!(strip_html_tags("a > b<br>c"), "a > bc");
}

#[test]
fn strip_html_is_idempotent_on_concrete_text() {
    let once = strip_html_tags("a > b < c");
    let twice = strip_html_tags(&once);
    assert_eq!(once, twice);
    let once2 = strip_html_tags("<i>x</i>y<br/>");
    assert_eq!(strip_html_tags(&once2), once2);
}

#[test]
fn resolve_title_prefers_english_then_romaji() {
    let (d, n, r) = resolve_title(
        Some("Attack on Titan".to_string()),
        Some("Shingeki no Kyojin".to_string()),
        Some("N".to_string()),
    );
    assert_eq!(d, "Attack on Titan");
    assert_eq!(n, Some("N".to_string()));
    assert_eq!(r, Some("Shingeki no Kyojin".to_string()));

    let (d2, _, _) = resolve_title(None, Some("Romaji".to_string()), None);
    assert_eq!(d2, "Romaji");
}

#[test]
fn resolve_title_empty_sources_give_empty_string() {
    let (d, n, r) = resolve_title(None, None, None);
    assert_eq!(d, "");
    assert_eq!(n, None);
    assert_eq!(r, None);
}

#[test]
fn extract_year_reads_four_digit_prefix() {
    assert_eq!(extract_year("2010-07-16"), Some(2010));
    assert_eq!(extract_year("1999"), Some(1999));
    assert_eq!(extract_year("201"), None);
    assert_eq!(extract_year(""), None);
    assert_eq!(extract_year("abcd-01-01"), None);
    assert_eq!(extract_year("20x0-01-01"), None);
}

#[test]
fn poster_url_prefixes_image_base() {
    assert_eq!(
        poster_url(Some("/abc.jpg".to_string())),
        Some("https://image.tmdb.org/t/p/w500/abc.jpg".to_string())
    );
    assert_eq!(poster_url(None), None);
}

#[test]
fn normalize_tmdb_row_defaults() {
    let r = normalize_tmdb_row(TmdbRow {
        id: None,
        title: None,
        date: Some("2014-11-05".to_string()),
        overview: Some("An overview".to_string()),
        poster_path: None,
    });
    assert_eq!(r.api_id, 0);
    assert_eq!(r.title, "");
    assert_eq!(r.native_title, None);
    assert_eq!(r.romaji_title, None);
    assert_eq!(r.year, Some(2014));
    assert_eq!(r.overview, Some("An overview".to_string()));
    assert_eq!(r.poster_url, None);
}

#[test]
fn normalize_anime_row_strips_html_and_resolves_title() {
    let r = normalize_anime_row(AnimeRow {
        id: Some(5),
        title_english: None,
        title_romaji: Some("Mononoke Hime".to_string()),
        title_native: Some("native".to_string()),
        season_year: Some(1997),
        description: Some("A <b>forest</b> tale".to_string()),
        cover_large: Some("https://img/c.jpg".to_string()),
    });
    assert_eq!(r.api_id, 5);
    assert_eq!(r.title, "Mononoke Hime");
    assert_eq!(r.year, Some(1997));
    assert_eq!(r.overview, Some("A forest tale".to_string()));
    assert_eq!(r.poster_url, Some("https://img/c.jpg".to_string()));
}

#[test]
fn movie_query_carries_all_parameters() {
    let q = build_movie_query("KEY", "Inception", Some(2010), false);
    let pairs: Vec<(&str, &str)> = q.iter().map(|p| (p.0.as_str(), p.1.as_str())).collect();
    assert_eq!(
        pairs,
        vec![
            ("api_key", "KEY"),
            ("query", "Inception"),
            ("language", "en-US"),
            ("include_adult", "false"),
            ("page", "1"),
            ("year", "2010"),
        ]
    );
    let q2 = build_movie_query("KEY", "Inception", None, true);
    assert_eq!(q2.len(), 5);
    assert_eq!(q2[3].1, "true");
}

#[test]
fn tv_query_uses_first_air_date_year() {
    let q = build_tv_query("KEY", "Dark", Some(2017), false);
    assert_eq!(q[5].0, "first_air_date_year");
    assert_eq!(q[5].1, "2017");
}

#[test]
fn second_page_params_changes_only_the_page() {
    let q = build_movie_query("KEY", "Inception", Some(2010), false);
    let q2 = second_page_params(&q);
    assert_eq!(q2.len(), q.len());
    for (a, b) in q.iter().zip(q2.iter()) {
        assert_eq!(a.0, b.0);
        if a.0 == "page" {
            assert_eq!(b.1, "2");
        } else {
            assert_eq!(a.1, b.1);
        }
    }
}

#[test]
fn combine_pages_concatenates() {
    let p1 = vec![result("a"), result("b")];
    let p2 = vec![result("c")];
    let all = combine_pages(p1, Some(p2));
    let titles: Vec<&str> = all.iter().map(|r| r.title.as_str()).collect();
    assert_eq!(titles, vec!["a", "b", "c"]);

    let only = combine_pages(vec![result("x")], None);
    assert_eq!(only.len(), 1);
}

#[test]
fn retry_decision_backs_off_then_fails() {
    assert_eq!(retry_decision(0, 429), RetryStep::Retry { delay_secs: 5 });
    assert_eq!(retry_decision(1, 429), RetryStep::Retry { delay_secs: 10 });
    assert_eq!(retry_decision(2, 429), RetryStep::Retry { delay_secs: 20 });
    assert_eq!(retry_decision(3, 429), RetryStep::Fail(SearchError::RateLimited));
}

#[test]
fn retry_decision_statuses() {
    assert_eq!(retry_decision(0, 200), RetryStep::Proceed);
    assert_eq!(retry_decision(0, 204), RetryStep::Proceed);
    assert_eq!(
        retry_decision(0, 500),
        RetryStep::Fail(SearchError::ProviderError(500))
    );
    assert_eq!(
        retry_decision(2, 404),
        RetryStep::Fail(SearchError::ProviderError(404))
    );
}

#[test]
fn gql_document_applies_adult_filter_at_query_level() {
    let filtered = gql_document(true);
    let open = gql_document(false);
    assert!(filtered.contains("isAdult: false"));
    assert!(!open.contains("isAdult"));
}

#[test]
fn movie_payload_parses_to_results() {
    let body = r#"{
        "total_pages": 1,
        "results": [
            {"id": 27205, "title": "Inception", "release_date": "2010-07-16",
             "overview": "A thief enters dreams.", "poster_path": "/ince.jpg"},
            {"id": 2, "title": "Other"}
        ]
    }"#;
    let out = results_from_payload(&SearchTarget::MovieSearch, body).unwrap();
    assert_eq!(out.len(), 2);
    assert_eq!(out[0].api_id, 27205);
    assert_eq!(out[0].title, "Inception");
    assert_eq!(out[0].year, Some(2010));
    assert_eq!(
        out[0].poster_url,
        Some("https://image.tmdb.org/t/p/w500/ince.jpg".to_string())
    );
    assert_eq!(out[1].year, None);
    assert_eq!(out[1].poster_url, None);
}

#[test]
fn anime_payload_parses_and_strips_html() {
    let body = r#"{"data": {"Page": {"media": [
        {"id": 101, "title": {"english": null, "romaji": "Serial Lain", "native": "lain"},
         "seasonYear": 1998, "description": "Wired <i>world</i>",
         "coverImage": {"large": "https://img/lain.png"}}
    ]}}}"#;
    let out = results_from_payload(&SearchTarget::AnimeSearch, body).unwrap();
    assert_eq!(out.len(), 1);
    assert_eq!(out[0].title, "Serial Lain");
    assert_eq!(out[0].romaji_title, Some("Serial Lain".to_string()));
    assert_eq!(out[0].native_title, Some("lain".to_string()));
    assert_eq!(out[0].year, Some(1998));
    assert_eq!(out[0].overview, Some("Wired world".to_string()));
    assert_eq!(out[0].poster_url, Some("https://img/lain.png".to_string()));
}

#[test]
fn malformed_payload_is_a_transport_error() {
    let out = results_from_payload(&SearchTarget::MovieSearch, "{not json");
    assert!(matches!(out, Err(SearchError::TransportError(_))));
}

#[test]
fn two_pages_of_sixty_yield_one_hundred_twenty() {
    let mut fetches = 0;
    let mut page = |page_no: usize| -> String {
        let mut entries: Vec<String> = Vec::new();
        for i in 0..60 {
            let id = page_no * 1000 + i;
            entries.push(format!(
                "{{\"id\": {}, \"title\": \"Inception {}\", \"release_date\": \"2010-07-16\"}}",
                id, id
            ));
        }
        format!("{{\"total_pages\": 2, \"results\": [{}]}}", entries.join(","))
    };
    // Page one.
    let body1 = page(1);
    fetches += 1;
    let data1 = parse_json(&body1).unwrap();
    let total_pages = total_pages_of(&data1);
    let first = results_from_payload(&SearchTarget::MovieSearch, &body1).unwrap();
    assert_eq!(first.len(), 60);
    // Page two, only because the provider reported more pages.
    let second = if should_fetch_second_page(total_pages) {
        let body2 = page(2);
        fetches += 1;
        Some(results_from_payload(&SearchTarget::MovieSearch, &body2).unwrap())
    } else {
        None
    };
    let all = combine_pages(first, second);
    assert_eq!(all.len(), 120);
    assert!(fetches <= 2);
}

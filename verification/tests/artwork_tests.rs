use media_tracker::artwork::{
    cache_filename, normalize_poster_path, resolve_poster, should_evict, CacheModel,
};

#[test]
fn cache_filename_is_digest_prefix_plus_extension() {
    // First sixteen hex digits of the SHA-256 of the URL bytes, then the
    // extension of the trailing path segment.
    assert_eq!(
        cache_filename("https://image.tmdb.org/t/p/w500/poster.jpg"),
        "ea2eddeae778a171.jpg"
    );
    assert_eq!(
        cache_filename("https://image.tmdb.org/t/p/w500/other.png"),
        "f76f21af42e8138b.png"
    );
}

#[test]
fn cache_filename_defaults_to_jpg_without_a_dot() {
    assert_eq!(
        cache_filename("https://example.com/covers/a"),
        "9c2f8a5c7f5fc302.jpg"
    );
}

#[test]
fn cache_filename_takes_the_last_dot_of_the_segment() {
    assert_eq!(
        cache_filename("https://example.com/a.b.c.gif"),
        "29487c2e18a99d3e.gif"
    );
}

#[test]
fn distinct_urls_get_distinct_paths_and_same_url_is_stable() {
    let p1 = cache_filename("https://image.tmdb.org/t/p/w500/poster.jpg");
    let p2 = cache_filename("https://image.tmdb.org/t/p/w500/other.png");
    assert_ne!(p1, p2);
    assert_eq!(p1, cache_filename("https://image.tmdb.org/t/p/w500/poster.jpg"));
}

#[test]
fn materialize_downloads_at_most_once_per_url() {
    let mut cache = CacheModel::new();
    let name = cache_filename("https://image.tmdb.org/t/p/w500/poster.jpg");

    let fetched_first = cache.materialize(name.clone());
    assert!(fetched_first);
    let fetched_second = cache.materialize(name.clone());
    assert!(!fetched_second);
    assert!(cache.contains(&name));

    // A different URL still needs its own download.
    let other = cache_filename("https://image.tmdb.org/t/p/w500/other.png");
    assert!(cache.materialize(other));
}

#[test]
fn eviction_is_scoped_to_the_cache_directory() {
    assert!(should_evict("data/image_cache/ea2eddeae778a171.jpg"));
    assert!(should_evict("/home/user/data/image_cache/x.png"));
    assert!(!should_evict("/etc/passwd"));
    assert!(!should_evict("data/image_cache_backup/x.jpg"));
    assert!(!should_evict(""));
}

#[test]
fn resolve_poster_requires_existence() {
    let (path, has) = resolve_poster(Some("data/image_cache/a.jpg"), true);
    assert!(has);
    assert_eq!(path, "file://data/image_cache/a.jpg");

    let (path2, has2) = resolve_poster(Some("data/image_cache/a.jpg"), false);
    assert!(!has2);
    assert_eq!(path2, "");

    let (path3, has3) = resolve_poster(Some(""), true);
    assert!(!has3);
    assert_eq!(path3, "");

    let (path4, has4) = resolve_poster(None, true);
    assert!(!has4);
    assert_eq!(path4, "");
}

#[test]
fn normalize_poster_path_strips_asset_scheme() {
    assert_eq!(
        normalize_poster_path("asset://localhost/tmp/data/image_cache/a.jpg"),
        "tmp/data/image_cache/a.jpg"
    );
    assert_eq!(
        normalize_poster_path("/abs/data/image_cache/a.jpg"),
        "/abs/data/image_cache/a.jpg"
    );
}

#[test]
fn cache_filename_edge_urls() {
    // An empty URL still gets a well-formed name: the digest of no bytes
    // and the default extension.
    assert_eq!(cache_filename(""), "e3b0c44298fc1c14.jpg");
    // A URL ending in a separator has an empty trailing segment, which
    // has no dot, so the default extension applies.
    assert_eq!(
        cache_filename("https://example.com/trailing/"),
        "3588d4f24f004345.jpg"
    );
}

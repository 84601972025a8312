use media_tracker::catalog::Catalog;
use media_tracker::models::MediaItem;

fn item(title: &str, year: Option<i32>, media_type: &str, status: &str) -> MediaItem {
    MediaItem {
        id: None,
        title: title.to_string(),
        native_title: None,
        romaji_title: None,
        year,
        media_type: media_type.to_string(),
        status: status.to_string(),
        quality_type: None,
        source: None,
        notes: None,
        tmdb_id: None,
        anilist_id: None,
        poster_url: None,
        created_at: None,
        updated_at: None,
    }
}

fn now() -> String {
    "2024-01-01 00:00:00".to_string()
}

#[test]
fn insert_assigns_ids_and_timestamps() {
    let mut cat = Catalog::new();
    let id1 = cat.add_item(item("A", Some(2000), "Movie", "On Drive"), &now());
    let id2 = cat.add_item(item("B", None, "TV", "On Drive"), &now());
    assert_eq!(id1, 1);
    assert_eq!(id2, 2);
    assert_eq!(cat.items.len(), 2);
    assert_eq!(cat.items[0].id, Some(1));
    assert_eq!(cat.items[0].created_at, Some(now()));
    assert_eq!(cat.items[0].updated_at, Some(now()));
}

#[test]
fn update_keeps_creation_timestamp() {
    let mut cat = Catalog::new();
    let id = cat.add_item(item("Old title", Some(2001), "Movie", "On Drive"), &now());
    let mut edited = item("New title", Some(2001), "Movie", "On Drive");
    edited.id = Some(id);
    let later = "2024-02-02 12:00:00".to_string();
    cat.update_item(&edited, &later);
    assert_eq!(cat.items.len(), 1);
    assert_eq!(cat.items[0].title, "New title");
    assert_eq!(cat.items[0].created_at, Some(now()));
    assert_eq!(cat.items[0].updated_at, Some(later));
}

#[test]
fn update_with_unknown_id_changes_nothing() {
    let mut cat = Catalog::new();
    cat.add_item(item("Kept", None, "Movie", "On Drive"), &now());
    let mut ghost_edit = item("Changed", None, "Movie", "On Drive");
    ghost_edit.id = Some(99);
    cat.update_item(&ghost_edit, &now());
    assert_eq!(cat.items[0].title, "Kept");
}

#[test]
fn save_item_updates_or_inserts_by_id() {
    let mut cat = Catalog::new();
    let updated = cat.save_item(item("Fresh", None, "Movie", "On Drive"), &now());
    assert!(!updated);
    let mut edit = item("Fresh renamed", None, "Movie", "On Drive");
    edit.id = Some(1);
    let updated2 = cat.save_item(edit, &now());
    assert!(updated2);
    assert_eq!(cat.items.len(), 1);
    assert_eq!(cat.items[0].title, "Fresh renamed");
}

#[test]
fn delete_batch_removes_rows_and_empty_list_is_noop() {
    let mut cat = Catalog::new();
    cat.add_item(item("A", None, "Movie", "On Drive"), &now());
    cat.add_item(item("B", None, "Movie", "On Drive"), &now());
    cat.add_item(item("C", None, "Movie", "On Drive"), &now());
    cat.delete_items_batch(&vec![]);
    assert_eq!(cat.items.len(), 3);
    cat.delete_items_batch(&vec![1, 3]);
    assert_eq!(cat.items.len(), 1);
    assert_eq!(cat.items[0].title, "B");
    cat.delete_item(2);
    assert_eq!(cat.items.len(), 0);
}

#[test]
fn move_batch_changes_status_of_listed_rows_only() {
    let mut cat = Catalog::new();
    cat.add_item(item("A", None, "Movie", "To Download"), &now());
    cat.add_item(item("B", None, "Movie", "To Download"), &now());
    let later = "2024-03-03 00:00:00".to_string();
    cat.move_items(&vec![1], &"On Drive".to_string(), &later);
    assert_eq!(cat.items[0].status, "On Drive");
    assert_eq!(cat.items[0].updated_at, Some(later));
    assert_eq!(cat.items[1].status, "To Download");
    // An empty move is a no-op.
    cat.move_items(&vec![], &"To Work On".to_string(), &now());
    assert_eq!(cat.items[0].status, "On Drive");
}

#[test]
fn duplicate_detection_by_external_identifier() {
    let mut cat = Catalog::new();
    let mut stored = item("Inception", Some(2010), "Movie", "On Drive");
    stored.tmdb_id = Some(27205);
    cat.add_item(stored, &now());

    let mut probe = item("Renamed release", None, "Movie", "On Drive");
    probe.tmdb_id = Some(27205);
    assert!(cat.check_duplicate_by_id(&probe));

    // The shared identifier is scoped by category: a TV probe with the
    // same number is not a duplicate of the movie.
    let mut tv_probe = item("Renamed release", None, "TV", "On Drive");
    tv_probe.tmdb_id = Some(27205);
    assert!(!cat.check_duplicate_by_id(&tv_probe));

    // Anime matches on its own identifier.
    let mut anime = item("Lain", Some(1998), "Anime", "On Drive");
    anime.anilist_id = Some(339);
    cat.add_item(anime, &now());
    let mut anime_probe = item("Other name", None, "Anime", "On Drive");
    anime_probe.anilist_id = Some(339);
    assert!(cat.check_duplicate_by_id(&anime_probe));
}

#[test]
fn duplicate_detection_falls_back_to_title_year_category() {
    let mut cat = Catalog::new();
    cat.add_item(item("Dark", Some(2017), "TV", "On Drive"), &now());
    assert!(cat.check_duplicate_by_id(&item("Dark", Some(2017), "TV", "To Download")));
    assert!(!cat.check_duplicate_by_id(&item("Dark", Some(2018), "TV", "On Drive")));
    assert!(!cat.check_duplicate_by_id(&item("Dark", Some(2017), "Movie", "On Drive")));
}

#[test]
fn duplicate_fallback_collides_on_both_years_unknown() {
    // Two items with the same title and category and no year at all are
    // treated as the same entry by the fallback; whether that is intended
    // for same-named shows of unknown year is an open point, so the
    // behavior is pinned here rather than changed.
    let mut cat = Catalog::new();
    cat.add_item(item("Untitled", None, "Movie", "On Drive"), &now());
    assert!(cat.check_duplicate_by_id(&item("Untitled", None, "Movie", "On Drive")));
}

#[test]
fn batch_add_same_item_twice_adds_once_and_skips_once() {
    let mut cat = Catalog::new();
    let mut a = item("Inception", Some(2010), "Movie", "On Drive");
    a.tmdb_id = Some(27205);
    let mut b = item("Inception", Some(2010), "Movie", "On Drive");
    b.tmdb_id = Some(27205);
    let outcome = cat.add_items_batch(vec![a, b], true, &now());
    assert_eq!(outcome.added, 1);
    assert_eq!(outcome.skipped, 1);
    assert_eq!(outcome.errors, 0);
    assert_eq!(outcome.added_items, vec!["Inception".to_string()]);
    assert_eq!(outcome.skipped_items, vec!["Inception".to_string()]);
    assert!(outcome.error_items.is_empty());
    assert_eq!(cat.items.len(), 1);
}

#[test]
fn batch_add_without_skipping_inserts_everything() {
    let mut cat = Catalog::new();
    let a = item("Same", None, "Movie", "On Drive");
    let b = item("Same", None, "Movie", "On Drive");
    let outcome = cat.add_items_batch(vec![a, b], false, &now());
    assert_eq!(outcome.added, 2);
    assert_eq!(outcome.skipped, 0);
    assert_eq!(cat.items.len(), 2);
    assert_eq!(cat.items[0].id, Some(1));
    assert_eq!(cat.items[1].id, Some(2));
}

#[test]
fn listing_filters_by_category_and_status() {
    let mut cat = Catalog::new();
    cat.add_item(item("A", None, "Movie", "On Drive"), &now());
    cat.add_item(item("B", None, "Movie", "To Download"), &now());
    cat.add_item(item("C", None, "TV", "On Drive"), &now());
    let rows = cat.get_items(Some("Movie"), Some("On Drive"));
    assert_eq!(rows.len(), 1);
    assert_eq!(rows[0].title, "A");
    let all = cat.get_items(None, None);
    assert_eq!(all.len(), 3);
}

#[test]
fn listing_sorts_by_title_ascending_by_default() {
    let mut cat = Catalog::new();
    cat.add_item(item("Gamma", None, "Movie", "On Drive"), &now());
    cat.add_item(item("Alpha", None, "Movie", "On Drive"), &now());
    cat.add_item(item("Beta", None, "Movie", "On Drive"), &now());
    let rows = cat.get_items(None, None);
    let titles: Vec<&str> = rows.iter().map(|r| r.title.as_str()).collect();
    assert_eq!(titles, vec!["Alpha", "Beta", "Gamma"]);
}

#[test]
fn listing_sorts_by_year_with_absent_years_last() {
    let mut cat = Catalog::new();
    cat.add_item(item("NoYear", None, "Movie", "On Drive"), &now());
    cat.add_item(item("Old", Some(1990), "Movie", "On Drive"), &now());
    cat.add_item(item("New", Some(2020), "Movie", "On Drive"), &now());
    let asc = cat.get_items_sorted(None, None, "year", "ASC");
    let years: Vec<Option<i32>> = asc.iter().map(|r| r.year).collect();
    assert_eq!(years, vec![Some(1990), Some(2020), None]);
    let desc = cat.get_items_sorted(None, None, "year", "DESC");
    let years_desc: Vec<Option<i32>> = desc.iter().map(|r| r.year).collect();
    assert_eq!(years_desc, vec![Some(2020), Some(1990), None]);
}

#[test]
fn unrecognized_sort_field_behaves_like_title() {
    let mut cat = Catalog::new();
    cat.add_item(item("Gamma", Some(1), "Movie", "On Drive"), &now());
    cat.add_item(item("Alpha", Some(3), "Movie", "On Drive"), &now());
    cat.add_item(item("Beta", Some(2), "Movie", "On Drive"), &now());
    let by_title = cat.get_items_sorted(None, None, "title", "ASC");
    let by_bogus = cat.get_items_sorted(None, None, "id; DROP TABLE media_items", "ASC");
    let t1: Vec<&str> = by_title.iter().map(|r| r.title.as_str()).collect();
    let t2: Vec<&str> = by_bogus.iter().map(|r| r.title.as_str()).collect();
    assert_eq!(t1, t2);
    assert_eq!(t1, vec!["Alpha", "Beta", "Gamma"]);
}

#[test]
fn search_matches_case_insensitively_over_all_text_fields() {
    let mut cat = Catalog::new();
    let mut a = item("Inception", Some(2010), "Movie", "On Drive");
    a.notes = Some("mind heist".to_string());
    cat.add_item(a, &now());
    let mut b = item("Paprika", Some(2006), "Anime", "On Drive");
    b.romaji_title = Some("PAPURIKA".to_string());
    cat.add_item(b, &now());

    assert_eq!(cat.search_items("INCEPT", None).len(), 1);
    assert_eq!(cat.search_items("heist", None).len(), 1);
    assert_eq!(cat.search_items("papurika", None).len(), 1);
    assert_eq!(cat.search_items("papurika", Some("Movie")).len(), 0);
    assert_eq!(cat.search_items("zzz", None).len(), 0);
}

#[test]
fn counts_by_category_and_quality() {
    let mut cat = Catalog::new();
    cat.add_item(item("A", None, "Movie", "On Drive"), &now());
    cat.add_item(item("B", None, "Movie", "To Download"), &now());
    cat.add_item(item("C", None, "Anime", "On Drive"), &now());
    let mut d = item("D", None, "TV", "On Drive");
    d.quality_type = Some("Remux".to_string());
    cat.add_item(d, &now());

    let counts = cat.get_counts();
    assert_eq!(counts.movie, 2);
    assert_eq!(counts.tv, 1);
    assert_eq!(counts.anime, 1);
    assert_eq!(cat.count_items_with_quality_type("Remux"), 1);
    assert_eq!(cat.count_items_with_quality_type("BluRay"), 0);
}

#[test]
fn count_filtered_applies_term_on_top_of_filters() {
    let mut cat = Catalog::new();
    cat.add_item(item("Inception", None, "Movie", "On Drive"), &now());
    cat.add_item(item("Tenet", None, "Movie", "On Drive"), &now());
    cat.add_item(item("Inception Again", None, "Movie", "To Download"), &now());
    assert_eq!(cat.count_filtered_items(Some("Movie"), Some("On Drive"), None), 2);
    assert_eq!(
        cat.count_filtered_items(Some("Movie"), Some("On Drive"), Some("incep")),
        1
    );
    assert_eq!(cat.count_filtered_items(None, None, Some("inception")), 2);
}

#[test]
fn poster_paths_of_returns_paths_of_listed_rows() {
    let mut cat = Catalog::new();
    let mut a = item("A", None, "Movie", "On Drive");
    a.poster_url = Some("data/image_cache/aaaa.jpg".to_string());
    cat.add_item(a, &now());
    let mut b = item("B", None, "Movie", "On Drive");
    b.poster_url = Some("data/image_cache/bbbb.png".to_string());
    cat.add_item(b, &now());
    cat.add_item(item("C", None, "Movie", "On Drive"), &now());

    let paths = cat.get_poster_urls(&vec![1, 2, 3]);
    assert_eq!(
        paths,
        vec![
            "data/image_cache/aaaa.jpg".to_string(),
            "data/image_cache/bbbb.png".to_string()
        ]
    );
    let only_c = cat.get_poster_urls(&vec![3]);
    assert!(only_c.is_empty());
}

#[test]
fn empty_search_term_matches_every_row() {
    let mut cat = Catalog::new();
    cat.add_item(item("A", None, "Movie", "On Drive"), &now());
    cat.add_item(item("B", None, "TV", "On Drive"), &now());
    assert_eq!(cat.search_items("", None).len(), 2);
}

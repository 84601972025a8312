//! The interactive-facing controller state: navigation, filters, sort
//! order, settings round-trips and the derived counts. The surrounding
//! application owns signal delivery and persistence; every state change
//! and every derived number is computed here.
use vstd::prelude::*;

use crate::catalog::{
    Catalog, spec_count_category, spec_filter_items, spec_search_filter,
    lemma_filter_len_bound, lemma_search_filter_len_bound, lemma_count_category_bound,
};
use crate::models::{AppConfig, MediaItem, opt_string};
use crate::text::{
    from_chars, join_strings, spec_join, spec_split, spec_trim, split_chars, string_views,
    to_chars, trim_chars, char_views,
};

verus! {

/// The quality vocabulary denoted by a newline-separated block: each line
/// trimmed, blank lines dropped.
pub open spec fn spec_clean_lines(parts: Seq<Seq<char>>) -> Seq<Seq<char>>
    decreases parts.len(),
{
    if parts.len() == 0 {
        Seq::<Seq<char>>::empty()
    } else {
        let rest = spec_clean_lines(parts.drop_last());
        let t = spec_trim(parts.last());
        if t.len() > 0 {
            rest.push(t)
        } else {
            rest
        }
    }
}

/// Parses a newline-separated vocabulary block: lines are trimmed and
/// blank lines dropped.
pub fn parse_quality_types(raw: &str) -> (r: Vec<String>)
    ensures
        string_views(r@) == spec_clean_lines(spec_split(raw@, '\n')),
{
    let chars = to_chars(raw);
    let parts = split_chars(&chars, '\n');
    let n = parts.len();
    let mut out: Vec<String> = Vec::new();
    proof {
        assert(char_views(parts@).take(0) =~= Seq::<Seq<char>>::empty());
        assert(string_views(out@) =~= spec_clean_lines(char_views(parts@).take(0)));
    }
    for i in 0..n
        invariant
            n == parts@.len(),
            char_views(parts@) == spec_split(raw@, '\n'),
            string_views(out@) == spec_clean_lines(char_views(parts@).take(i as int)),
    {
        proof {
            assert(char_views(parts@).take(i + 1).drop_last() =~= char_views(parts@).take(
                i as int,
            ));
            assert(char_views(parts@).take(i + 1).last() == parts@[i as int]@);
        }
        let trimmed = trim_chars(&parts[i]);
        if trimmed.len() > 0 {
            let ghost out0 = out@;
            out.push(from_chars(&trimmed));
            proof {
                assert(string_views(out@) =~= string_views(out0).push(trimmed@));
            }
        }
    }
    assert(char_views(parts@).take(n as int) =~= char_views(parts@));
    out
}

/// The catalog draft a manual edit dialog produces: empty strings mean an
/// absent value, a non-positive identifier means a not-yet-saved item, a
/// non-positive year means an unknown year, and manual items carry no
/// provider identifiers.
pub fn build_manual_item(
    id: i32,
    title: String,
    native_title: String,
    romaji_title: String,
    year: i32,
    media_type: String,
    status: String,
    quality_type: String,
    source: String,
    notes: String,
    poster_url: String,
) -> (r: MediaItem)
    ensures
        r.id == (if id >= 0 {
            Some(id as i64)
        } else {
            None::<i64>
        }),
        r.title == title,
        r.native_title == (if native_title@.len() == 0 {
            None::<String>
        } else {
            Some(native_title)
        }),
        r.romaji_title == (if romaji_title@.len() == 0 {
            None::<String>
        } else {
            Some(romaji_title)
        }),
        r.year == (if year > 0 {
            Some(year)
        } else {
            None::<i32>
        }),
        r.media_type == media_type,
        r.status == status,
        r.quality_type == (if quality_type@.len() == 0 {
            None::<String>
        } else {
            Some(quality_type)
        }),
        r.source == (if source@.len() == 0 {
            None::<String>
        } else {
            Some(source)
        }),
        r.notes == (if notes@.len() == 0 {
            None::<String>
        } else {
            Some(notes)
        }),
        r.tmdb_id is None,
        r.anilist_id is None,
        r.poster_url == (if poster_url@.len() == 0 {
            None::<String>
        } else {
            Some(poster_url)
        }),
        r.created_at is None,
        r.updated_at is None,
{
    MediaItem {
        id: if id >= 0 {
            Some(id as i64)
        } else {
            None
        },
        title,
        native_title: opt_string(native_title),
        romaji_title: opt_string(romaji_title),
        year: if year > 0 {
            Some(year)
        } else {
            None
        },
        media_type,
        status,
        quality_type: opt_string(quality_type),
        source: opt_string(source),
        notes: opt_string(notes),
        tmdb_id: None,
        anilist_id: None,
        poster_url: opt_string(poster_url),
        created_at: None,
        updated_at: None,
    }
}

/// The interactive-facing state mirrored into the presentation layer.
pub struct AppControllerRust {
    pub active_page: String,
    pub active_status: String,
    pub view_mode: String,
    pub search_term: String,
    pub loading: bool,
    pub movie_count: i32,
    pub tv_count: i32,
    pub anime_count: i32,
    pub item_count: i32,
    pub sort_field: String,
    pub sort_dir: String,
    pub row_height: i32,
    pub tmdb_api_key: String,
    pub include_adult: bool,
}

/// The controller as the presentation layer addresses it.
pub type AppController = AppControllerRust;

impl Default for AppController {
    /// A blank controller: empty texts, everything off, zero counts.
    fn default() -> (r: AppControllerRust)
        ensures
            r.active_page@.len() == 0,
            r.active_status@.len() == 0,
            r.view_mode@.len() == 0,
            r.search_term@.len() == 0,
            !r.loading,
            r.movie_count == 0 && r.tv_count == 0 && r.anime_count == 0 && r.item_count == 0,
            r.sort_field@.len() == 0,
            r.sort_dir@.len() == 0,
            r.row_height == 0,
            r.tmdb_api_key@.len() == 0,
            !r.include_adult,
    {
        AppControllerRust {
            active_page: String::new(),
            active_status: String::new(),
            view_mode: String::new(),
            search_term: String::new(),
            loading: false,
            movie_count: 0,
            tv_count: 0,
            anime_count: 0,
            item_count: 0,
            sort_field: String::new(),
            sort_dir: String::new(),
            row_height: 0,
            tmdb_api_key: String::new(),
            include_adult: false,
        }
    }
}

impl AppController {
    /// Enters a page: the status filter resets to the default shelf and
    /// the free-text filter clears.
    pub fn navigate_to(&mut self, page: &str)
        ensures
            final(self).active_page@ == page@,
            final(self).active_status@ == "On Drive"@,
            final(self).search_term@.len() == 0,
            *final(self) == (AppControllerRust {
                active_page: final(self).active_page,
                active_status: final(self).active_status,
                search_term: final(self).search_term,
                ..*old(self)
            }),
    {
        self.active_page = String::from_str(page);
        self.active_status = String::from_str("On Drive");
        self.search_term = String::new();
    }

    /// Selects the lifecycle-status filter.
    pub fn set_status_filter(&mut self, status: &str)
        ensures
            final(self).active_status@ == status@,
            *final(self) == (AppControllerRust { active_status: final(self).active_status, ..*old(self) }),
    {
        self.active_status = String::from_str(status);
    }

    /// Sets the free-text filter.
    pub fn set_search_term_filter(&mut self, term: &str)
        ensures
            final(self).search_term@ == term@,
            *final(self) == (AppControllerRust { search_term: final(self).search_term, ..*old(self) }),
    {
        self.search_term = String::from_str(term);
    }

    /// Switches the listing layout and records the preference in the
    /// settings (the caller persists them).
    pub fn set_view_mode_pref(&mut self, mode: &str, config: &mut AppConfig)
        ensures
            final(self).view_mode@ == mode@,
            *final(self) == (AppControllerRust { view_mode: final(self).view_mode, ..*old(self) }),
            final(config).view_mode@ == mode@,
            *final(config) == (AppConfig { view_mode: final(config).view_mode, ..*old(config) }),
    {
        self.view_mode = String::from_str(mode);
        config.view_mode = String::from_str(mode);
    }

    /// Applies edited settings: the credential, the adult-content policy,
    /// the current row height and the parsed quality vocabulary go into
    /// the settings; the controller mirrors the credential and the policy.
    pub fn save_settings(
        &mut self,
        config: &mut AppConfig,
        api_key: &str,
        include_adult: bool,
        quality_types_raw: &str,
    )
        ensures
            final(config).tmdb_api_key@ == api_key@,
            final(config).include_adult == include_adult,
            final(config).row_height == old(self).row_height,
            string_views(final(config).quality_types@) == spec_clean_lines(
                spec_split(quality_types_raw@, '\n'),
            ),
            final(config).view_mode == old(config).view_mode,
            final(self).tmdb_api_key@ == api_key@,
            final(self).include_adult == include_adult,
            *final(self) == (AppControllerRust {
                tmdb_api_key: final(self).tmdb_api_key,
                include_adult,
                ..*old(self)
            }),
    {
        config.tmdb_api_key = String::from_str(api_key);
        config.include_adult = include_adult;
        config.row_height = self.row_height;
        config.quality_types = parse_quality_types(quality_types_raw);
        self.tmdb_api_key = String::from_str(api_key);
        self.include_adult = include_adult;
    }

    /// The quality vocabulary as one newline-separated block.
    pub fn get_quality_types(&self, config: &AppConfig) -> (r: String)
        ensures
            r@ == spec_join(string_views(config.quality_types@), '\n'),
    {
        join_strings(&config.quality_types, '\n')
    }

    /// The closed set of lifecycle statuses, one per line.
    pub fn get_status_options(&self) -> (r: String)
        ensures
            r@ == "On Drive\nTo Download\nTo Work On"@,
    {
        String::from_str("On Drive\nTo Download\nTo Work On")
    }

    /// Loads saved settings into the controller: layout, credential and
    /// policy are taken over, a non-positive saved row height falls back
    /// to the default, and sorting starts at title ascending.
    pub fn load_config(&mut self, config: &AppConfig)
        ensures
            final(self).view_mode == config.view_mode,
            final(self).tmdb_api_key == config.tmdb_api_key,
            final(self).include_adult == config.include_adult,
            final(self).row_height == (if config.row_height > 0 {
                config.row_height
            } else {
                44
            }),
            final(self).sort_field@ == "title"@,
            final(self).sort_dir@ == "ASC"@,
            *final(self) == (AppControllerRust {
                view_mode: final(self).view_mode,
                tmdb_api_key: final(self).tmdb_api_key,
                include_adult: config.include_adult,
                row_height: final(self).row_height,
                sort_field: final(self).sort_field,
                sort_dir: final(self).sort_dir,
                ..*old(self)
            }),
    {
        self.view_mode = config.view_mode.clone();
        self.tmdb_api_key = config.tmdb_api_key.clone();
        self.include_adult = config.include_adult;
        self.row_height = if config.row_height > 0 {
            config.row_height
        } else {
            44
        };
        self.sort_field = String::from_str("title");
        self.sort_dir = String::from_str("ASC");
    }

    /// Selects the listing order.
    pub fn set_sort_order(&mut self, field: &str, dir: &str)
        ensures
            final(self).sort_field@ == field@,
            final(self).sort_dir@ == dir@,
            *final(self) == (AppControllerRust {
                sort_field: final(self).sort_field,
                sort_dir: final(self).sort_dir,
                ..*old(self)
            }),
    {
        self.sort_field = String::from_str(field);
        self.sort_dir = String::from_str(dir);
    }

    /// Sets the row height, clamped to the sensible range, and records
    /// the preference in the settings (the caller persists them).
    pub fn set_row_height_pref(&mut self, height: i32, config: &mut AppConfig)
        ensures
            final(self).row_height == (if height < 30 {
                30int
            } else if height > 200 {
                200int
            } else {
                height as int
            }),
            final(config).row_height == final(self).row_height,
            *final(self) == (AppControllerRust { row_height: final(self).row_height, ..*old(self) }),
            *final(config) == (AppConfig { row_height: final(config).row_height, ..*old(config) }),
    {
        let h = if height < 30 {
            30
        } else if height > 200 {
            200
        } else {
            height
        };
        self.row_height = h;
        config.row_height = h;
    }

    /// Recomputes the row count of the active listing: the category and
    /// status filters always apply, and a non-empty free-text filter
    /// narrows further.
    pub fn reload_items(&mut self, catalog: &Catalog)
        requires
            catalog.items@.len() <= 0x7fffffff,
        ensures
            final(self).item_count == (if old(self).search_term@.len() == 0 {
                spec_filter_items(
                    catalog.items@,
                    Some(old(self).active_page@),
                    Some(old(self).active_status@),
                ).len() as int
            } else {
                spec_search_filter(
                    spec_filter_items(
                        catalog.items@,
                        Some(old(self).active_page@),
                        Some(old(self).active_status@),
                    ),
                    crate::text::spec_lower(old(self).search_term@),
                    Option::<Seq<char>>::None,
                ).len() as int
            }),
            *final(self) == (AppControllerRust { item_count: final(self).item_count, ..*old(self) }),
    {
        proof {
            lemma_filter_len_bound(
                catalog.items@,
                Some(self.active_page@),
                Some(self.active_status@),
            );
            lemma_search_filter_len_bound(
                spec_filter_items(
                    catalog.items@,
                    Some(self.active_page@),
                    Some(self.active_status@),
                ),
                crate::text::spec_lower(self.search_term@),
                Option::<Seq<char>>::None,
            );
        }
        let term = if self.search_term.as_str().is_empty() {
            None
        } else {
            Some(self.search_term.as_str())
        };
        let count = catalog.count_filtered_items(
            Some(self.active_page.as_str()),
            Some(self.active_status.as_str()),
            term,
        );
        self.item_count = count as i32;
    }

    /// Recomputes the per-category counts.
    pub fn reload_counts(&mut self, catalog: &Catalog)
        requires
            catalog.items@.len() <= 0x7fffffff,
        ensures
            final(self).movie_count == spec_count_category(catalog.items@, "Movie"@),
            final(self).tv_count == spec_count_category(catalog.items@, "TV"@),
            final(self).anime_count == spec_count_category(catalog.items@, "Anime"@),
            *final(self) == (AppControllerRust {
                movie_count: final(self).movie_count,
                tv_count: final(self).tv_count,
                anime_count: final(self).anime_count,
                ..*old(self)
            }),
    {
        proof {
            lemma_count_category_bound(catalog.items@, "Movie"@);
            lemma_count_category_bound(catalog.items@, "TV"@);
            lemma_count_category_bound(catalog.items@, "Anime"@);
        }
        let counts = catalog.get_counts();
        self.movie_count = counts.movie as i32;
        self.tv_count = counts.tv as i32;
        self.anime_count = counts.anime as i32;
    }
}

} // verus!

//! Ingestion coordinator: the per-search session state machine with
//! stale-completion protection, search dispatch validation, promotion
//! drafting, selection parsing, and the interactive-facing controller
//! state.
use vstd::prelude::*;

use crate::models::{CacheError, ConfigError, MediaItem, SearchError, SearchResult};
use crate::text::{
    char_views, from_chars, parse_i64, spec_parse_int, spec_split, spec_trim, split_chars,
    to_chars, trim_chars,
};

verus! {

/// The phase of one search session.
#[derive(Debug, PartialEq, Eq)]
pub enum SessionPhase {
    Idle,
    Searching,
    ResultsReady,
    Failed(SearchError),
}

/// The transient state of one search-to-promotion cycle. A new search
/// replaces the session wholesale; the version lets a late completion of a
/// superseded search be recognized and ignored.
pub struct SearchSession {
    pub phase: SessionPhase,
    pub results: Vec<SearchResult>,
    pub version: u64,
}

impl SearchSession {
    /// The results a reader may observe: only a ready session exposes any.
    pub open spec fn visible_results(self) -> Seq<SearchResult> {
        if self.phase is ResultsReady {
            self.results@
        } else {
            Seq::<SearchResult>::empty()
        }
    }

    /// A fresh, idle session.
    pub fn new() -> (r: SearchSession)
        ensures
            r.phase is Idle,
            r.results@.len() == 0,
            r.version == 0,
    {
        SearchSession { phase: SessionPhase::Idle, results: Vec::new(), version: 0 }
    }

    /// Starts a new search, discarding any prior results wholesale and
    /// superseding any in-flight search. Returns the token a completion
    /// must present.
    pub fn begin_search(&mut self) -> (token: u64)
        requires
            old(self).version < u64::MAX,
        ensures
            final(self).phase is Searching,
            final(self).results@.len() == 0,
            final(self).version == old(self).version + 1,
            token == final(self).version,
            final(self).visible_results().len() == 0,
    {
        self.phase = SessionPhase::Searching;
        self.results = Vec::new();
        self.version = self.version + 1;
        self.version
    }

    /// Delivers a successful completion. A completion whose token does not
    /// match the current version, or that arrives outside a search, is
    /// stale and changes nothing.
    pub fn complete_success(&mut self, token: u64, results: Vec<SearchResult>)
        ensures
            (token == old(self).version && old(self).phase is Searching) ==> (
            final(self).phase is ResultsReady && final(self).results@ == results@ && final(self).version == old(self).version && final(self).visible_results() == results@),
            !(token == old(self).version && old(self).phase is Searching) ==> *final(self) == *old(self),
    {
        let stale = !(token == self.version && matches!(self.phase, SessionPhase::Searching));
        if !stale {
            self.phase = SessionPhase::ResultsReady;
            self.results = results;
        }
    }

    /// Delivers a failed completion: the session fails with the error and
    /// surfaces no partial results. A stale completion changes nothing.
    pub fn complete_failure(&mut self, token: u64, err: SearchError)
        ensures
            (token == old(self).version && old(self).phase is Searching) ==> (
            final(self).phase == SessionPhase::Failed(err) && final(self).results@.len() == 0
                && final(self).version == old(self).version && final(self).visible_results().len() == 0),
            !(token == old(self).version && old(self).phase is Searching) ==> *final(self) == *old(self),
    {
        let stale = !(token == self.version && matches!(self.phase, SessionPhase::Searching));
        if !stale {
            self.phase = SessionPhase::Failed(err);
            self.results = Vec::new();
        }
    }
}

/// The provider endpoint a search is dispatched to.
#[derive(Debug, PartialEq, Eq)]
pub enum SearchTarget {
    MovieSearch,
    TvSearch,
    AnimeSearch,
}

/// A validated search, ready to be run on a background context.
pub struct SearchDispatch {
    pub target: SearchTarget,
    pub query: String,
    pub year: Option<i32>,
    pub include_adult: bool,
    pub api_key: String,
}

/// How a search request is handled before any network traffic.
pub enum StartOutcome {
    /// A blank query: silently ignored.
    EmptyQuery,
    /// A category no provider serves.
    UnknownCategory,
    /// The category's provider needs a credential that is absent: fails
    /// fast with the configuration error, no network call is made.
    MissingCredential(ConfigError),
    /// A valid request for the category's provider.
    Dispatch(SearchDispatch),
}

/// Validates a search request: the query is trimmed and must be non-empty;
/// movie and TV searches go to the provider that requires the credential
/// (absent credential fails fast), anime searches to the one that does
/// not; a positive year becomes a filter.
pub fn start_search(category: &str, query: &str, year: i32, api_key: &str, include_adult: bool)
    -> (r: StartOutcome)
    ensures
        ({
            let q = spec_trim(query@);
            &&& (q.len() == 0 ==> r is EmptyQuery)
            &&& (q.len() > 0 && (category@ == "Movie"@ || category@ == "TV"@) && api_key@.len()
                == 0 ==> (r matches StartOutcome::MissingCredential(e) && e.message@
                == "TMDB API key not set. Configure in Settings."@))
            &&& (q.len() > 0 && (category@ == "Movie"@ || category@ == "TV"@) && api_key@.len()
                > 0 ==> (r matches StartOutcome::Dispatch(d) && d.query@ == q && d.target == (
            if category@ == "Movie"@ {
                SearchTarget::MovieSearch
            } else {
                SearchTarget::TvSearch
            }) && d.year == (if year > 0 {
                Some(year)
            } else {
                None::<i32>
            }) && d.include_adult == include_adult && d.api_key@ == api_key@))
            &&& (q.len() > 0 && category@ == "Anime"@ ==> (r matches StartOutcome::Dispatch(d)
                && d.query@ == q && d.target == SearchTarget::AnimeSearch && d.year == (
            if year > 0 {
                Some(year)
            } else {
                None::<i32>
            }) && d.include_adult == include_adult && d.api_key@ == api_key@))
            &&& (q.len() > 0 && category@ != "Movie"@ && category@ != "TV"@ && category@
                != "Anime"@ ==> r is UnknownCategory)
        }),
{
    proof {
        reveal_strlit("Movie");
        reveal_strlit("TV");
        reveal_strlit("Anime");
        assert("Movie"@.len() == 5 && "TV"@.len() == 2 && "Anime"@.len() == 5);
        assert("Movie"@[0] == 'M' && "Anime"@[0] == 'A');
    }
    let qchars = to_chars(query);
    let trimmed = trim_chars(&qchars);
    if trimmed.len() == 0 {
        return StartOutcome::EmptyQuery;
    }
    let q = from_chars(&trimmed);
    let cat = String::from_str(category);
    let year_opt = if year > 0 {
        Some(year)
    } else {
        None
    };
    let is_movie = cat.eq(&String::from_str("Movie"));
    let is_tv = cat.eq(&String::from_str("TV"));
    let is_anime = cat.eq(&String::from_str("Anime"));
    if is_movie || is_tv {
        if api_key.unicode_len() == 0 {
            return StartOutcome::MissingCredential(
                ConfigError {
                    message: String::from_str("TMDB API key not set. Configure in Settings."),
                },
            );
        }
        StartOutcome::Dispatch(
            SearchDispatch {
                target: if is_movie {
                    SearchTarget::MovieSearch
                } else {
                    SearchTarget::TvSearch
                },
                query: q,
                year: year_opt,
                include_adult,
                api_key: String::from_str(api_key),
            },
        )
    } else if is_anime {
        StartOutcome::Dispatch(
            SearchDispatch {
                target: SearchTarget::AnimeSearch,
                query: q,
                year: year_opt,
                include_adult,
                api_key: String::from_str(api_key),
            },
        )
    } else {
        StartOutcome::UnknownCategory
    }
}

/// A search rate limited on every attempt backs off three times, five then
/// ten then twenty seconds, and the fourth rate-limited answer is the
/// terminal rate-limit failure: no retry is granted after the third, so
/// the session completes as failed and surfaces no results (see
/// `SearchSession::complete_failure`).
pub proof fn lemma_rate_limited_search_fails()
    ensures
        crate::provider::spec_retry_decision(0, 429) == (crate::provider::RetryStep::Retry {
            delay_secs: 5u64,
        }),
        crate::provider::spec_retry_decision(1, 429) == (crate::provider::RetryStep::Retry {
            delay_secs: 10u64,
        }),
        crate::provider::spec_retry_decision(2, 429) == (crate::provider::RetryStep::Retry {
            delay_secs: 20u64,
        }),
        crate::provider::spec_retry_decision(3, 429) == crate::provider::RetryStep::Fail(
            SearchError::RateLimited,
        ),
{
}

/// One selected result awaiting promotion: the catalog draft and the
/// remote artwork it wants, if any. Artwork is only ever fetched for
/// drafts, never for unselected results.
pub struct PromotionDraft {
    pub item: MediaItem,
    pub artwork_url: Option<String>,
}

/// The draft a search result promotes to: no identifier yet, the session's
/// category and the active status, no quality, source or notes, and the
/// provider identifier stored in the slot matching the category. Artwork
/// starts unset and is attached only after a successful materialization.
pub open spec fn spec_is_draft(
    d: MediaItem,
    r: SearchResult,
    category: Seq<char>,
    status: Seq<char>,
) -> bool {
    &&& d.id is None
    &&& d.title == r.title
    &&& d.native_title == r.native_title
    &&& d.romaji_title == r.romaji_title
    &&& d.year == r.year
    &&& d.media_type@ == category
    &&& d.status@ == status
    &&& d.quality_type is None
    &&& d.source is None
    &&& d.notes is None
    &&& d.tmdb_id == (if category != "Anime"@ {
        Some(r.api_id)
    } else {
        None::<i64>
    })
    &&& d.anilist_id == (if category == "Anime"@ {
        Some(r.api_id)
    } else {
        None::<i64>
    })
    &&& d.poster_url is None
    &&& d.created_at is None
    &&& d.updated_at is None
}

/// The results picked out by the selection indices, in selection order;
/// indices beyond the result list are ignored.
pub open spec fn spec_selected(results: Seq<SearchResult>, indices: Seq<i64>) -> Seq<SearchResult>
    decreases indices.len(),
{
    if indices.len() == 0 {
        Seq::<SearchResult>::empty()
    } else {
        let rest = spec_selected(results, indices.drop_last());
        let idx = indices.last();
        if 0 <= idx < results.len() {
            rest.push(results[idx as int])
        } else {
            rest
        }
    }
}

/// Builds the promotion drafts for the selected results: one draft per
/// valid selection index, carrying the draft fields of `spec_is_draft` and
/// the result's artwork URL for materialization.
pub fn build_drafts(
    results: &Vec<SearchResult>,
    indices: &Vec<i64>,
    category: &str,
    status: &str,
) -> (r: Vec<PromotionDraft>)
    ensures
        ({
            let sel = spec_selected(results@, indices@);
            &&& r@.len() == sel.len()
            &&& forall|i: int|
                0 <= i < sel.len() ==> spec_is_draft(
                    (#[trigger] r@[i]).item,
                    sel[i],
                    category@,
                    status@,
                ) && r@[i].artwork_url == sel[i].poster_url
        }),
{
    let cat = String::from_str(category);
    let anime_probe = String::from_str("Anime");
    let is_anime = cat.eq(&anime_probe);
    let n = indices.len();
    let mut out: Vec<PromotionDraft> = Vec::new();
    proof {
        assert(indices@.take(0) =~= Seq::<i64>::empty());
    }
    for k in 0..n
        invariant
            n == indices@.len(),
            cat@ == category@,
            is_anime == (category@ == "Anime"@),
            ({
                let sel = spec_selected(results@, indices@.take(k as int));
                &&& out@.len() == sel.len()
                &&& forall|i: int|
                    0 <= i < sel.len() ==> spec_is_draft(
                        (#[trigger] out@[i]).item,
                        sel[i],
                        category@,
                        status@,
                    ) && out@[i].artwork_url == sel[i].poster_url
            }),
    {
        proof {
            assert(indices@.take(k + 1).drop_last() =~= indices@.take(k as int));
            assert(indices@.take(k + 1).last() == indices@[k as int]);
        }
        let idx = indices[k];
        if idx >= 0 && (idx as u64) < (results.len() as u64) {
            let r = &results[idx as usize];
            let item = MediaItem {
                id: None,
                title: r.title.clone(),
                native_title: crate::models::clone_opt_string(&r.native_title),
                romaji_title: crate::models::clone_opt_string(&r.romaji_title),
                year: r.year,
                media_type: cat.clone(),
                status: String::from_str(status),
                quality_type: None,
                source: None,
                notes: None,
                tmdb_id: if !is_anime {
                    Some(r.api_id)
                } else {
                    None
                },
                anilist_id: if is_anime {
                    Some(r.api_id)
                } else {
                    None
                },
                poster_url: None,
                created_at: None,
                updated_at: None,
            };
            let ghost out0 = out@;
            out.push(
                PromotionDraft {
                    item,
                    artwork_url: crate::models::clone_opt_string(&r.poster_url),
                },
            );
            proof {
                let sel = spec_selected(results@, indices@.take(k + 1));
                assert(sel.drop_last() == spec_selected(results@, indices@.take(k as int)));
                assert(sel.last() == results@[idx as int]);
                assert(spec_is_draft(out@[out0.len() as int].item, sel[out0.len() as int], category@, status@));
                assert(forall|i: int| 0 <= i < out0.len() ==> #[trigger] out@[i] == out0[i]);
            }
        }
    }
    assert(indices@.take(n as int) =~= indices@);
    out
}

/// Whether a draft's artwork should be materialized: only a present,
/// non-empty URL is ever fetched.
pub fn wants_artwork(url: &Option<String>) -> (r: bool)
    ensures
        r == (url matches Some(u) && u@.len() > 0),
{
    match url {
        Some(u) => !u.as_str().is_empty(),
        None => false,
    }
}

/// Attaches the outcome of one artwork materialization to a draft: a
/// successful local path is stored, a failed materialization degrades the
/// item to "no artwork" while leaving it eligible for persistence.
pub fn attach_artwork(item: MediaItem, outcome: Result<String, CacheError>) -> (r: MediaItem)
    ensures
        r == (MediaItem {
            poster_url: match outcome {
                Ok(p) => Some(p),
                Err(_) => None::<String>,
            },
            ..item
        }),
{
    let poster_url = match outcome {
        Ok(p) => Some(p),
        Err(_) => None,
    };
    MediaItem { poster_url, ..item }
}

/// The identifiers denoted by a comma-separated list: each segment is
/// trimmed and parsed as a decimal number; segments that do not parse, or
/// do not fit, are skipped.
pub open spec fn spec_parse_ids(parts: Seq<Seq<char>>) -> Seq<i64>
    decreases parts.len(),
{
    if parts.len() == 0 {
        Seq::<i64>::empty()
    } else {
        let rest = spec_parse_ids(parts.drop_last());
        match spec_parse_int(spec_trim(parts.last())) {
            Some(x) => if i64::MIN <= x <= i64::MAX {
                rest.push(x as i64)
            } else {
                rest
            },
            None => rest,
        }
    }
}

/// Parses a comma-separated identifier list, skipping malformed segments.
pub fn parse_id_list(s: &str) -> (r: Vec<i64>)
    ensures
        r@ == spec_parse_ids(spec_split(s@, ',')),
{
    let chars = to_chars(s);
    let parts = split_chars(&chars, ',');
    let n = parts.len();
    let mut out: Vec<i64> = Vec::new();
    proof {
        assert(char_views(parts@).take(0) =~= Seq::<Seq<char>>::empty());
    }
    for i in 0..n
        invariant
            n == parts@.len(),
            char_views(parts@) == spec_split(s@, ','),
            out@ == spec_parse_ids(char_views(parts@).take(i as int)),
    {
        proof {
            assert(char_views(parts@).take(i + 1).drop_last() =~= char_views(parts@).take(
                i as int,
            ));
            assert(char_views(parts@).take(i + 1).last() == parts@[i as int]@);
        }
        let trimmed = trim_chars(&parts[i]);
        match parse_i64(&trimmed) {
            Some(x) => out.push(x),
            None => (),
        }
    }
    assert(char_views(parts@).take(n as int) =~= char_views(parts@));
    out
}

} // verus!

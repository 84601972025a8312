//! Core data model: persisted catalog items, transient search results,
//! batch-ingestion outcomes, application settings, and the error taxonomy.
use vstd::prelude::*;

verus! {

/// A persisted catalog entry. `id` is present only after the first insert;
/// an item without an `id` has not been saved yet.
#[derive(Debug)]
pub struct MediaItem {
    pub id: Option<i64>,
    pub title: String,
    pub native_title: Option<String>,
    pub romaji_title: Option<String>,
    pub year: Option<i32>,
    pub media_type: String,
    pub status: String,
    pub quality_type: Option<String>,
    pub source: Option<String>,
    pub notes: Option<String>,
    pub tmdb_id: Option<i64>,
    pub anilist_id: Option<i64>,
    pub poster_url: Option<String>,
    pub created_at: Option<String>,
    pub updated_at: Option<String>,
}

/// Copies an optional owned string; the copy equals its source.
pub fn clone_opt_string(o: &Option<String>) -> (r: Option<String>)
    ensures
        r == *o,
{
    match o {
        Some(s) => Some(s.clone()),
        None => None,
    }
}

impl MediaItem {
    /// Field-by-field copy; the result equals its source.
    pub fn duplicate(&self) -> (r: MediaItem)
        ensures
            r == *self,
    {
        MediaItem {
            id: self.id,
            title: self.title.clone(),
            native_title: clone_opt_string(&self.native_title),
            romaji_title: clone_opt_string(&self.romaji_title),
            year: self.year,
            media_type: self.media_type.clone(),
            status: self.status.clone(),
            quality_type: clone_opt_string(&self.quality_type),
            source: clone_opt_string(&self.source),
            notes: clone_opt_string(&self.notes),
            tmdb_id: self.tmdb_id,
            anilist_id: self.anilist_id,
            poster_url: clone_opt_string(&self.poster_url),
            created_at: clone_opt_string(&self.created_at),
            updated_at: clone_opt_string(&self.updated_at),
        }
    }
}

/// One normalized result of a provider search. Transient: replaced wholesale
/// by the next search and never persisted directly.
#[derive(Debug)]
pub struct SearchResult {
    pub api_id: i64,
    pub title: String,
    pub native_title: Option<String>,
    pub romaji_title: Option<String>,
    pub year: Option<i32>,
    pub overview: Option<String>,
    pub poster_url: Option<String>,
}

impl SearchResult {
    /// Field-by-field copy; the result equals its source.
    pub fn duplicate(&self) -> (r: SearchResult)
        ensures
            r == *self,
    {
        SearchResult {
            api_id: self.api_id,
            title: self.title.clone(),
            native_title: clone_opt_string(&self.native_title),
            romaji_title: clone_opt_string(&self.romaji_title),
            year: self.year,
            overview: clone_opt_string(&self.overview),
            poster_url: clone_opt_string(&self.poster_url),
        }
    }
}

/// Outcome of one batch ingestion: per-bucket counts plus the titles that
/// landed in each bucket. Counts always equal the list lengths.
#[derive(Debug)]
pub struct BatchAddResult {
    pub added: i32,
    pub skipped: i32,
    pub errors: i32,
    pub added_items: Vec<String>,
    pub skipped_items: Vec<String>,
    pub error_items: Vec<String>,
}

impl BatchAddResult {
    /// The counts mirror the title lists.
    pub open spec fn wf(self) -> bool {
        &&& self.added == self.added_items@.len()
        &&& self.skipped == self.skipped_items@.len()
        &&& self.errors == self.error_items@.len()
    }

    /// An outcome with every bucket empty.
    pub fn empty() -> (r: BatchAddResult)
        ensures
            r.wf(),
            r.added == 0 && r.skipped == 0 && r.errors == 0,
            r.added_items@ =~= Seq::<String>::empty(),
            r.skipped_items@ =~= Seq::<String>::empty(),
            r.error_items@ =~= Seq::<String>::empty(),
    {
        BatchAddResult {
            added: 0,
            skipped: 0,
            errors: 0,
            added_items: Vec::new(),
            skipped_items: Vec::new(),
            error_items: Vec::new(),
        }
    }
}

/// User settings persisted by the configuration collaborator.
#[derive(Debug)]
pub struct AppConfig {
    pub tmdb_api_key: String,
    pub quality_types: Vec<String>,
    pub view_mode: String,
    pub include_adult: bool,
    pub row_height: i32,
}

/// The row height used when no saved preference is available.
pub fn default_row_height() -> (r: i32)
    ensures
        r == 44,
{
    44
}

impl Default for AppConfig {
    /// Fresh settings: no credential, the stock quality vocabulary,
    /// grid layout, adult content off, default row height.
    fn default() -> (r: AppConfig)
        ensures
            r.tmdb_api_key@ == Seq::<char>::empty(),
            r.quality_types@.len() == 9,
            r.quality_types@[0]@ == "BluRay"@,
            r.quality_types@[1]@ == "BluRay 1080p"@,
            r.quality_types@[2]@ == "BluRay 2160p"@,
            r.quality_types@[3]@ == "Remux"@,
            r.quality_types@[4]@ == "Remux 1080p"@,
            r.quality_types@[5]@ == "Remux 2160p"@,
            r.quality_types@[6]@ == "WEB-DL 1080p"@,
            r.quality_types@[7]@ == "WEB-DL 2160p"@,
            r.quality_types@[8]@ == "WebDL"@,
            r.view_mode@ == "grid"@,
            !r.include_adult,
            r.row_height == 44,
    {
        let mut quality_types: Vec<String> = Vec::new();
        quality_types.push(String::from_str("BluRay"));
        quality_types.push(String::from_str("BluRay 1080p"));
        quality_types.push(String::from_str("BluRay 2160p"));
        quality_types.push(String::from_str("Remux"));
        quality_types.push(String::from_str("Remux 1080p"));
        quality_types.push(String::from_str("Remux 2160p"));
        quality_types.push(String::from_str("WEB-DL 1080p"));
        quality_types.push(String::from_str("WEB-DL 2160p"));
        quality_types.push(String::from_str("WebDL"));
        AppConfig {
            tmdb_api_key: String::new(),
            quality_types,
            view_mode: String::from_str("grid"),
            include_adult: false,
            row_height: 44,
        }
    }
}

/// Why a provider search failed.
#[derive(Debug, PartialEq, Eq)]
pub enum SearchError {
    /// Still rate limited after the final retry.
    RateLimited,
    /// A non-success HTTP status other than the rate-limit one.
    ProviderError(u16),
    /// The transport layer failed before any status was seen.
    TransportError(String),
}

/// Why an artwork materialization failed. Both variants are non-fatal to a
/// surrounding batch: the item is persisted without artwork.
#[derive(Debug, PartialEq, Eq)]
pub enum CacheError {
    TransportError(String),
    IoError(String),
}

/// A required credential is missing; fixed in settings, never retried.
#[derive(Debug)]
pub struct ConfigError {
    pub message: String,
}

/// An empty owned string maps to no value, any other to itself.
pub fn opt_string(s: String) -> (r: Option<String>)
    ensures
        s@.len() == 0 ==> r is None,
        s@.len() > 0 ==> r == Some(s),
{
    if s.as_str().is_empty() {
        None
    } else {
        Some(s)
    }
}

} // verus!

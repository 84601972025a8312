//! Provider adapter: normalizes heterogeneous provider search payloads into
//! the uniform `SearchResult` shape, including HTML-to-text cleanup, display
//! title resolution, release-year extraction, poster URL resolution, query
//! construction, two-page pagination and the rate-limit retry rule.
use vstd::prelude::*;

use crate::jsonval::{field2_string, field_i64, field_string, json_as_array, json_error_text, json_get, parse_json};
use crate::models::{SearchError, SearchResult};
use crate::text::{fmt_i32, from_chars, parse_i64, spec_fmt_int, spec_parse_int, to_chars};

verus! {

/// One step of the HTML tag stripper: a `<` opens a tag span, the next `>`
/// closes it, and the whole span including both angle brackets is dropped.
/// Everything outside a span — a bare `>` included — is kept verbatim, in
/// order, with no entity decoding.
pub open spec fn spec_strip_html_from(s: Seq<char>, in_tag: bool) -> Seq<char>
    decreases s.len(),
{
    if s.len() == 0 {
        Seq::<char>::empty()
    } else if in_tag {
        spec_strip_html_from(s.drop_first(), s[0] != '>')
    } else if s[0] == '<' {
        spec_strip_html_from(s.drop_first(), true)
    } else {
        seq![s[0]].add(spec_strip_html_from(s.drop_first(), false))
    }
}

/// The text with all `<...>` tag spans removed.
pub open spec fn spec_strip_html(s: Seq<char>) -> Seq<char> {
    spec_strip_html_from(s, false)
}

/// Removes every `<...>` tag span from the text, keeping all other
/// characters verbatim.
pub fn strip_html_tags(s: &str) -> (r: String)
    ensures
        r@ == spec_strip_html(s@),
{
    let chars = to_chars(s);
    let n = chars.len();
    let mut out: Vec<char> = Vec::new();
    let mut in_tag = false;
    proof {
        assert(chars@.skip(0) =~= chars@);
        assert(out@.add(spec_strip_html_from(chars@, false)) =~= spec_strip_html_from(
            chars@,
            false,
        ));
    }
    for i in 0..n
        invariant
            n == chars@.len(),
            chars@ == s@,
            spec_strip_html(s@) == out@.add(spec_strip_html_from(chars@.skip(i as int), in_tag)),
    {
        let c = chars[i];
        proof {
            assert(chars@.skip(i as int)[0] == c);
            assert(chars@.skip(i as int).drop_first() =~= chars@.skip(i + 1));
        }
        if in_tag {
            if c == '>' {
                in_tag = false;
            }
        } else if c == '<' {
            in_tag = true;
        } else {
            out.push(c);
            assert(out@.add(spec_strip_html_from(chars@.skip(i + 1), in_tag))
                =~= out@.drop_last().add(seq![c].add(spec_strip_html_from(
                chars@.skip(i + 1),
                in_tag,
            ))));
        }
    }
    assert(chars@.skip(n as int) =~= Seq::<char>::empty());
    assert(out@.add(Seq::<char>::empty()) =~= out@);
    from_chars(&out)
}

/// Stripped text never contains a tag opener.
proof fn lemma_strip_html_no_opener(s: Seq<char>, in_tag: bool)
    ensures
        forall|i: int|
            0 <= i < spec_strip_html_from(s, in_tag).len()
                ==> #[trigger] spec_strip_html_from(s, in_tag)[i] != '<',
    decreases s.len(),
{
    if s.len() > 0 {
        lemma_strip_html_no_opener(s.drop_first(), true);
        lemma_strip_html_no_opener(s.drop_first(), false);
        let r = spec_strip_html_from(s, in_tag);
        assert forall|i: int| 0 <= i < r.len() implies #[trigger] r[i] != '<' by {
            if in_tag {
                assert(r[i] == spec_strip_html_from(s.drop_first(), s[0] != '>')[i]);
            } else if s[0] == '<' {
                assert(r[i] == spec_strip_html_from(s.drop_first(), true)[i]);
            } else {
                if i > 0 {
                    assert(r[i] == spec_strip_html_from(s.drop_first(), false)[i - 1]);
                }
            }
        }
    }
}

/// Stripping leaves text without a tag opener unchanged.
proof fn lemma_strip_html_id(s: Seq<char>)
    requires
        forall|i: int| 0 <= i < s.len() ==> #[trigger] s[i] != '<',
    ensures
        spec_strip_html(s) == s,
    decreases s.len(),
{
    if s.len() == 0 {
        assert(spec_strip_html(s) =~= s);
    } else {
        assert(forall|i: int|
            0 <= i < s.drop_first().len() ==> #[trigger] s.drop_first()[i] == s[i + 1]);
        lemma_strip_html_id(s.drop_first());
        assert(seq![s[0]].add(s.drop_first()) =~= s);
    }
}

/// HTML stripping is idempotent: stripping already-stripped text is a no-op.
pub proof fn lemma_strip_html_idempotent(s: Seq<char>)
    ensures
        spec_strip_html(spec_strip_html(s)) == spec_strip_html(s),
{
    lemma_strip_html_no_opener(s, false);
    lemma_strip_html_id(spec_strip_html(s));
}

/// Resolves the provider's localized titles: the display title is the
/// primary-language title when present, else the romanized fallback, else
/// empty; the native and romanized variants are carried through unchanged.
/// With both display-title sources absent the display title is the empty
/// string, never an absent value.
pub fn resolve_title(english: Option<String>, romaji: Option<String>, native: Option<String>)
    -> (r: (String, Option<String>, Option<String>))
    ensures
        r.0@ == (match english {
            Some(e) => e@,
            None => match romaji {
                Some(ro) => ro@,
                None => Seq::<char>::empty(),
            },
        }),
        r.1 == native,
        r.2 == romaji,
{
    let display = match &english {
        Some(e) => e.clone(),
        None => match &romaji {
            Some(ro) => ro.clone(),
            None => String::new(),
        },
    };
    (display, native, romaji)
}

/// The year denoted by the first four characters of a date string, when they
/// parse as a decimal number; nothing for shorter strings.
pub open spec fn spec_extract_year(s: Seq<char>) -> Option<int> {
    if s.len() >= 4 {
        match spec_parse_int(s.take(4)) {
            Some(x) => if i32::MIN <= x <= i32::MAX {
                Some(x)
            } else {
                None
            },
            None => None,
        }
    } else {
        None
    }
}

/// Extracts the release year from a provider date string (`YYYY-MM-DD`).
pub fn extract_year(date_str: &str) -> (r: Option<i32>)
    ensures
        match spec_extract_year(date_str@) {
            Some(x) => r == Some(x as i32),
            None => r is None,
        },
{
    let chars = to_chars(date_str);
    if chars.len() < 4 {
        return None;
    }
    let mut head: Vec<char> = Vec::new();
    head.push(chars[0]);
    head.push(chars[1]);
    head.push(chars[2]);
    head.push(chars[3]);
    assert(head@ =~= date_str@.take(4));
    match parse_i64(&head) {
        Some(x) => {
            if -2147483648i64 <= x && x <= 2147483647i64 {
                Some(x as i32)
            } else {
                None
            }
        },
        None => None,
    }
}

/// Prefixes a poster path with the provider's image base URL.
pub fn poster_url(path: Option<String>) -> (r: Option<String>)
    ensures
        path is None ==> r is None,
        path matches Some(p) ==> r matches Some(u) && u@ == "https://image.tmdb.org/t/p/w500"@.add(
            p@,
        ),
{
    match path {
        Some(p) => {
            let base = String::from_str("https://image.tmdb.org/t/p/w500");
            Some(base.concat(p.as_str()))
        },
        None => None,
    }
}

/// The raw fields read from one element of a provider's result array,
/// before normalization.
pub struct TmdbRow {
    pub id: Option<i64>,
    pub title: Option<String>,
    pub date: Option<String>,
    pub overview: Option<String>,
    pub poster_path: Option<String>,
}

/// Normalizes one movie/TV row: absent identifiers become zero, absent
/// titles become empty, the year comes from the date prefix, the poster URL
/// is resolved against the image base, and no localized title variants are
/// carried (the provider has none).
pub fn normalize_tmdb_row(row: TmdbRow) -> (r: SearchResult)
    ensures
        r.api_id == (match row.id {
            Some(i) => i,
            None => 0,
        }),
        r.title@ == (match row.title {
            Some(t) => t@,
            None => Seq::<char>::empty(),
        }),
        r.native_title is None,
        r.romaji_title is None,
        r.year == (match row.date {
            Some(d) => match spec_extract_year(d@) {
                Some(y) => Some(y as i32),
                None => None::<i32>,
            },
            None => None::<i32>,
        }),
        r.overview == row.overview,
        (match row.poster_path {
            Some(p) => r.poster_url matches Some(u) && u@
                == "https://image.tmdb.org/t/p/w500"@.add(p@),
            None => r.poster_url is None,
        }),
{
    let year = match &row.date {
        Some(d) => extract_year(d.as_str()),
        None => None,
    };
    let title = match row.title {
        Some(t) => t,
        None => String::new(),
    };
    SearchResult {
        api_id: match row.id {
            Some(i) => i,
            None => 0,
        },
        title,
        native_title: None,
        romaji_title: None,
        year,
        overview: row.overview,
        poster_url: poster_url(row.poster_path),
    }
}

/// The raw fields read from one element of the anime provider's media array.
pub struct AnimeRow {
    pub id: Option<i64>,
    pub title_english: Option<String>,
    pub title_romaji: Option<String>,
    pub title_native: Option<String>,
    pub season_year: Option<i64>,
    pub description: Option<String>,
    pub cover_large: Option<String>,
}

/// Normalizes one anime row: the display title follows the localized-title
/// precedence rule, the synopsis has its HTML stripped, and the cover URL is
/// taken as-is.
pub fn normalize_anime_row(row: AnimeRow) -> (r: SearchResult)
    ensures
        r.api_id == (match row.id {
            Some(i) => i,
            None => 0,
        }),
        r.title@ == (match row.title_english {
            Some(e) => e@,
            None => match row.title_romaji {
                Some(ro) => ro@,
                None => Seq::<char>::empty(),
            },
        }),
        r.native_title == row.title_native,
        r.romaji_title == row.title_romaji,
        r.year == (match row.season_year {
            Some(y) => Some(y as i32),
            None => None::<i32>,
        }),
        (match row.description {
            Some(d) => r.overview matches Some(o) && o@ == spec_strip_html(d@),
            None => r.overview is None,
        }),
        r.poster_url == row.cover_large,
{
    let (title, native_title, romaji_title) = resolve_title(
        row.title_english,
        row.title_romaji,
        row.title_native,
    );
    let overview = match &row.description {
        Some(d) => Some(strip_html_tags(d.as_str())),
        None => None,
    };
    SearchResult {
        api_id: match row.id {
            Some(i) => i,
            None => 0,
        },
        title,
        native_title,
        romaji_title,
        year: match row.season_year {
            Some(y) => Some(#[verifier::truncate] (y as i32)),
            None => None,
        },
        overview,
        poster_url: row.cover_large,
    }
}

/// The views of a query-parameter list.
pub open spec fn pair_views(s: Seq<(String, String)>) -> Seq<(Seq<char>, Seq<char>)> {
    s.map_values(|p: (String, String)| (p.0@, p.1@))
}

/// The first-page query parameters of a movie search.
pub fn build_movie_query(api_key: &str, query: &str, year: Option<i32>, include_adult: bool)
    -> (r: Vec<(String, String)>)
    ensures
        pair_views(r@).len() == (if year is Some { 6int } else { 5int }),
        pair_views(r@)[0] == ("api_key"@, api_key@),
        pair_views(r@)[1] == ("query"@, query@),
        pair_views(r@)[2] == ("language"@, "en-US"@),
        pair_views(r@)[3] == ("include_adult"@, (if include_adult { "true"@ } else { "false"@ })),
        pair_views(r@)[4] == ("page"@, "1"@),
        year matches Some(y) ==> pair_views(r@)[5] == ("year"@, spec_fmt_int(y as int)),
{
    build_paged_query(api_key, query, year, include_adult, "year")
}

/// The first-page query parameters of a TV search; the year filter uses the
/// provider's first-air-date key.
pub fn build_tv_query(api_key: &str, query: &str, year: Option<i32>, include_adult: bool)
    -> (r: Vec<(String, String)>)
    ensures
        pair_views(r@).len() == (if year is Some { 6int } else { 5int }),
        pair_views(r@)[0] == ("api_key"@, api_key@),
        pair_views(r@)[1] == ("query"@, query@),
        pair_views(r@)[2] == ("language"@, "en-US"@),
        pair_views(r@)[3] == ("include_adult"@, (if include_adult { "true"@ } else { "false"@ })),
        pair_views(r@)[4] == ("page"@, "1"@),
        year matches Some(y) ==> pair_views(r@)[5] == ("first_air_date_year"@, spec_fmt_int(
            y as int,
        )),
{
    build_paged_query(api_key, query, year, include_adult, "first_air_date_year")
}

fn build_paged_query(
    api_key: &str,
    query: &str,
    year: Option<i32>,
    include_adult: bool,
    year_key: &str,
) -> (r: Vec<(String, String)>)
    ensures
        pair_views(r@).len() == (if year is Some { 6int } else { 5int }),
        pair_views(r@)[0] == ("api_key"@, api_key@),
        pair_views(r@)[1] == ("query"@, query@),
        pair_views(r@)[2] == ("language"@, "en-US"@),
        pair_views(r@)[3] == ("include_adult"@, (if include_adult { "true"@ } else { "false"@ })),
        pair_views(r@)[4] == ("page"@, "1"@),
        year matches Some(y) ==> pair_views(r@)[5] == (year_key@, spec_fmt_int(y as int)),
{
    let mut r: Vec<(String, String)> = Vec::new();
    r.push((String::from_str("api_key"), String::from_str(api_key)));
    r.push((String::from_str("query"), String::from_str(query)));
    r.push((String::from_str("language"), String::from_str("en-US")));
    let adult = if include_adult {
        String::from_str("true")
    } else {
        String::from_str("false")
    };
    r.push((String::from_str("include_adult"), adult));
    r.push((String::from_str("page"), String::from_str("1")));
    if let Some(y) = year {
        r.push((String::from_str(year_key), fmt_i32(y)));
    }
    r
}

/// A second page is fetched exactly when the provider reports more than one.
pub fn should_fetch_second_page(total_pages: i64) -> (r: bool)
    ensures
        r == (total_pages > 1),
{
    total_pages > 1
}

/// The same query retargeted at the second page: every parameter keeps its
/// key, and only the page parameter's value changes to "2".
pub fn second_page_params(params: &Vec<(String, String)>) -> (r: Vec<(String, String)>)
    ensures
        pair_views(r@).len() == pair_views(params@).len(),
        forall|i: int|
            0 <= i < params@.len() ==> #[trigger] pair_views(r@)[i] == (
            pair_views(params@)[i].0,
            if pair_views(params@)[i].0 == "page"@ {
                "2"@
            } else {
                pair_views(params@)[i].1
            },
            ),
{
    let n = params.len();
    let mut r: Vec<(String, String)> = Vec::new();
    for i in 0..n
        invariant
            n == params@.len(),
            r@.len() == i,
            forall|k: int|
                0 <= k < i ==> #[trigger] pair_views(r@)[k] == (
                pair_views(params@)[k].0,
                if pair_views(params@)[k].0 == "page"@ {
                    "2"@
                } else {
                    pair_views(params@)[k].1
                },
                ),
    {
        let key = params[i].0.clone();
        let is_page = {
            let probe = String::from_str("page");
            key.eq(&probe)
        };
        let value = if is_page {
            String::from_str("2")
        } else {
            params[i].1.clone()
        };
        proof {
            let pi = params@[i as int];
            assert(pair_views(params@)[i as int] == (pi.0@, pi.1@));
        }
        proof {
            let pi = params@[i as int];
            assert(key@ == pi.0@);
            assert(is_page == (pi.0@ == "page"@));
            assert(value@ == (if pi.0@ == "page"@ {
                "2"@
            } else {
                pi.1@
            }));
        }
        let ghost r0 = r@;
        r.push((key, value));
        proof {
            assert(pair_views(r@)[i as int] == (key@, value@));
            assert(forall|k: int|
                0 <= k < i ==> #[trigger] pair_views(r@)[k] == pair_views(r0)[k]);
        }
    }
    r
}

/// Concatenates the first page with the optional second page; a missing
/// second page (its fetch failed, which is non-fatal) leaves the first
/// page's results as the outcome.
pub fn combine_pages(page1: Vec<SearchResult>, page2: Option<Vec<SearchResult>>) -> (r: Vec<
    SearchResult,
>)
    ensures
        match page2 {
            Some(p2) => r@ == page1@.add(p2@),
            None => r@ == page1@,
        },
{
    match page2 {
        Some(mut p2) => {
            let mut r = page1;
            r.append(&mut p2);
            r
        },
        None => page1,
    }
}

/// What the adapter does with one HTTP response status during a search.
#[derive(Debug, PartialEq, Eq)]
pub enum RetryStep {
    /// Rate limited with retries left: back off for the given delay.
    Retry { delay_secs: u64 },
    /// Terminal failure: rate limited past the last retry, or a non-success
    /// status.
    Fail(SearchError),
    /// A success status: use the response body.
    Proceed,
}

/// The rate-limit and status rule of §4.1: on the rate-limit status the
/// attempt is retried up to three times with exponential backoff starting at
/// five seconds; a fourth rate-limit answer is terminal; any other
/// non-success status fails immediately with its code.
pub open spec fn spec_retry_decision(attempt: u32, status: u16) -> RetryStep {
    if status == 429 {
        if attempt < 3 {
            RetryStep::Retry {
                delay_secs: if attempt == 0 {
                    5
                } else if attempt == 1 {
                    10
                } else {
                    20
                },
            }
        } else {
            RetryStep::Fail(SearchError::RateLimited)
        }
    } else if 200 <= status && status <= 299 {
        RetryStep::Proceed
    } else {
        RetryStep::Fail(SearchError::ProviderError(status))
    }
}

/// Decides how to react to the status of one search attempt.
pub fn retry_decision(attempt: u32, status: u16) -> (r: RetryStep)
    requires
        attempt <= 3,
    ensures
        r == spec_retry_decision(attempt, status),
{
    if status == 429 {
        if attempt < 3 {
            let delay_secs: u64 = if attempt == 0 {
                5
            } else if attempt == 1 {
                10
            } else {
                20
            };
            RetryStep::Retry { delay_secs }
        } else {
            RetryStep::Fail(SearchError::RateLimited)
        }
    } else if 200 <= status && status <= 299 {
        RetryStep::Proceed
    } else {
        RetryStep::Fail(SearchError::ProviderError(status))
    }
}

/// Stripped text is free of tag openers (a bare `>` is ordinary text and
/// may remain).
pub proof fn lemma_stripped_no_tag_opener(s: Seq<char>)
    ensures
        forall|i: int|
            0 <= i < spec_strip_html(s).len() ==> #[trigger] spec_strip_html(s)[i] != '<',
{
    lemma_strip_html_no_opener(s, false);
}

/// Every synopsis handed out by normalization is free of tag openers.
pub open spec fn overview_clean(r: SearchResult) -> bool {
    match r.overview {
        Some(o) => forall|j: int| 0 <= j < o@.len() ==> #[trigger] o@[j] != '<',
        None => true,
    }
}

/// Reads the movie result array out of a parsed provider payload and
/// normalizes each row. Movie rows never carry localized title variants.
pub fn parse_movie_results(data: &serde_json::Value) -> (r: Vec<SearchResult>)
    ensures
        forall|i: int|
            0 <= i < r@.len() ==> (#[trigger] r@[i]).native_title is None && r@[
                i
            ].romaji_title is None,
{
    let arr = match json_get(data, "results") {
        Some(v) => json_as_array(v),
        None => None,
    };
    let mut out: Vec<SearchResult> = Vec::new();
    if let Some(items) = arr {
        let n = items.len();
        for i in 0..n
            invariant
                n == items@.len(),
                forall|k: int|
                    0 <= k < out@.len() ==> (#[trigger] out@[k]).native_title is None && out@[
                        k
                    ].romaji_title is None,
        {
            let m = &items[i];
            let row = TmdbRow {
                id: field_i64(m, "id"),
                title: field_string(m, "title"),
                date: field_string(m, "release_date"),
                overview: field_string(m, "overview"),
                poster_path: field_string(m, "poster_path"),
            };
            out.push(normalize_tmdb_row(row));
        }
    }
    out
}

/// Reads the TV result array out of a parsed provider payload and
/// normalizes each row; the provider names its fields differently from the
/// movie endpoint but the rows normalize identically.
pub fn parse_tv_results(data: &serde_json::Value) -> (r: Vec<SearchResult>)
    ensures
        forall|i: int|
            0 <= i < r@.len() ==> (#[trigger] r@[i]).native_title is None && r@[
                i
            ].romaji_title is None,
{
    let arr = match json_get(data, "results") {
        Some(v) => json_as_array(v),
        None => None,
    };
    let mut out: Vec<SearchResult> = Vec::new();
    if let Some(items) = arr {
        let n = items.len();
        for i in 0..n
            invariant
                n == items@.len(),
                forall|k: int|
                    0 <= k < out@.len() ==> (#[trigger] out@[k]).native_title is None && out@[
                        k
                    ].romaji_title is None,
        {
            let m = &items[i];
            let row = TmdbRow {
                id: field_i64(m, "id"),
                title: field_string(m, "name"),
                date: field_string(m, "first_air_date"),
                overview: field_string(m, "overview"),
                poster_path: field_string(m, "poster_path"),
            };
            out.push(normalize_tmdb_row(row));
        }
    }
    out
}

/// Reads the anime media array out of a parsed provider payload and
/// normalizes each row. Every synopsis handed out has had its HTML
/// stripped, so none contains an angle bracket.
pub fn parse_anime_results(data: &serde_json::Value) -> (r: Vec<SearchResult>)
    ensures
        forall|i: int| 0 <= i < r@.len() ==> overview_clean(#[trigger] r@[i]),
{
    let media = match json_get(data, "data") {
        Some(d) => match json_get(d, "Page") {
            Some(p) => match json_get(p, "media") {
                Some(m) => json_as_array(m),
                None => None,
            },
            None => None,
        },
        None => None,
    };
    let mut out: Vec<SearchResult> = Vec::new();
    if let Some(items) = media {
        let n = items.len();
        for i in 0..n
            invariant
                n == items@.len(),
                forall|k: int| 0 <= k < out@.len() ==> overview_clean(#[trigger] out@[k]),
        {
            let m = &items[i];
            let row = AnimeRow {
                id: field_i64(m, "id"),
                title_english: field2_string(m, "title", "english"),
                title_romaji: field2_string(m, "title", "romaji"),
                title_native: field2_string(m, "title", "native"),
                season_year: field_i64(m, "seasonYear"),
                description: field_string(m, "description"),
                cover_large: field2_string(m, "coverImage", "large"),
            };
            let ghost desc = row.description;
            let normalized = normalize_anime_row(row);
            proof {
                match desc {
                    Some(d) => lemma_stripped_no_tag_opener(d@),
                    None => (),
                }
                assert(overview_clean(normalized));
            }
            out.push(normalized);
        }
    }
    out
}

/// Parses one provider response body and normalizes it for the given
/// endpoint. A body that is not valid JSON fails as a transport-level
/// error; an unexpected but well-formed document yields no results.
pub fn results_from_payload(target: &crate::session::SearchTarget, body: &str) -> (r: Result<
    Vec<SearchResult>,
    SearchError,
>)
    ensures
        r is Ok <==> crate::jsonval::json_ok(body@),
        r matches Ok(v) ==> ((target is MovieSearch || target is TvSearch) ==> forall|i: int|
            0 <= i < v@.len() ==> (#[trigger] v@[i]).native_title is None && v@[
                i
            ].romaji_title is None),
        r matches Ok(v) ==> (target is AnimeSearch ==> forall|i: int|
            0 <= i < v@.len() ==> overview_clean(#[trigger] v@[i])),
        r is Err ==> r matches Err(SearchError::TransportError(_)),
{
    match parse_json(body) {
        Ok(data) => Ok(
            match target {
                crate::session::SearchTarget::MovieSearch => parse_movie_results(&data),
                crate::session::SearchTarget::TvSearch => parse_tv_results(&data),
                crate::session::SearchTarget::AnimeSearch => parse_anime_results(&data),
            },
        ),
        Err(e) => {
            let prefix = String::from_str("Failed to parse provider response: ");
            Err(SearchError::TransportError(prefix.concat(json_error_text(&e).as_str())))
        },
    }
}

/// The page count the provider reports for a paged payload; one page when
/// the field is absent.
pub fn total_pages_of(data: &serde_json::Value) -> i64 {
    match field_i64(data, "total_pages") {
        Some(p) => p,
        None => 1,
    }
}

/// The anime provider's query document. The adult-content policy is applied
/// at the query level: with filtering on, the document constrains the media
/// to non-adult entries; filtering off omits the constraint.
pub fn gql_document(filter_adult: bool) -> (r: String)
    ensures
        filter_adult ==> r@
            == "query ($search: String, $seasonYear: Int) { Page(page: 1, perPage: 50) { media(search: $search, seasonYear: $seasonYear, type: ANIME, sort: SEARCH_MATCH, isAdult: false) { id title { english romaji native } seasonYear description coverImage { large } } } }"@,
        !filter_adult ==> r@
            == "query ($search: String, $seasonYear: Int) { Page(page: 1, perPage: 50) { media(search: $search, seasonYear: $seasonYear, type: ANIME, sort: SEARCH_MATCH) { id title { english romaji native } seasonYear description coverImage { large } } } }"@,
{
    if filter_adult {
        String::from_str(
            "query ($search: String, $seasonYear: Int) { Page(page: 1, perPage: 50) { media(search: $search, seasonYear: $seasonYear, type: ANIME, sort: SEARCH_MATCH, isAdult: false) { id title { english romaji native } seasonYear description coverImage { large } } } }",
        )
    } else {
        String::from_str(
            "query ($search: String, $seasonYear: Int) { Page(page: 1, perPage: 50) { media(search: $search, seasonYear: $seasonYear, type: ANIME, sort: SEARCH_MATCH) { id title { english romaji native } seasonYear description coverImage { large } } } }",
        )
    }
}

} // verus!

//! Catalog store facade: typed query, insert, update, delete and move
//! operations over the persisted catalog, with sorted and filtered listing,
//! aggregate counts, duplicate detection, and transactional batch insert
//! semantics. The store itself is modeled as the sequence of persisted
//! items plus the next row identifier; the surrounding application mirrors
//! it onto the on-disk relational store.
use vstd::prelude::*;

use crate::models::{BatchAddResult, MediaItem, clone_opt_string};
use crate::sorting::{
    SortKey, sort_desc_of, sort_items, sort_key_of, sorted_by_key, spec_sort_key_of,
};
use crate::text::{contains_chars, has_substring, lower_chars, spec_lower, to_chars};

verus! {

/// The view of an optional borrowed string argument.
pub open spec fn opt_str_view(o: Option<&str>) -> Option<Seq<char>> {
    match o {
        Some(s) => Some(s@),
        None => None,
    }
}

/// The persisted catalog: its rows and the identifier the next insert will
/// receive.
pub struct Catalog {
    pub items: Vec<MediaItem>,
    pub next_id: i64,
}

/// The stored form of an item inserted now: the fresh identifier and the
/// server-assigned timestamps; every other field is taken from the draft.
pub open spec fn spec_persisted(item: MediaItem, id: i64, now: String) -> MediaItem {
    MediaItem {
        id: Some(id),
        created_at: Some(now),
        updated_at: Some(now),
        ..item
    }
}

/// An item matches the optional category and status filters.
pub open spec fn spec_matches_filter(
    it: MediaItem,
    mt: Option<Seq<char>>,
    st: Option<Seq<char>>,
) -> bool {
    &&& (match mt {
        Some(m) => it.media_type@ == m,
        None => true,
    })
    &&& (match st {
        Some(s) => it.status@ == s,
        None => true,
    })
}

/// The rows that pass the category and status filters, in store order.
pub open spec fn spec_filter_items(
    items: Seq<MediaItem>,
    mt: Option<Seq<char>>,
    st: Option<Seq<char>>,
) -> Seq<MediaItem>
    decreases items.len(),
{
    if items.len() == 0 {
        Seq::<MediaItem>::empty()
    } else {
        let rest = spec_filter_items(items.drop_last(), mt, st);
        if spec_matches_filter(items.last(), mt, st) {
            rest.push(items.last())
        } else {
            rest
        }
    }
}

/// The free-text filter: a case-insensitive substring match over the
/// title, notes, native title and romanized title.
pub open spec fn spec_term_match(it: MediaItem, term_lower: Seq<char>) -> bool {
    ||| has_substring(spec_lower(it.title@), term_lower)
    ||| (it.notes matches Some(n) && has_substring(spec_lower(n@), term_lower))
    ||| (it.native_title matches Some(n) && has_substring(spec_lower(n@), term_lower))
    ||| (it.romaji_title matches Some(n) && has_substring(spec_lower(n@), term_lower))
}

/// The rows that match the lowered search term and the optional category.
pub open spec fn spec_search_filter(
    items: Seq<MediaItem>,
    term_lower: Seq<char>,
    mt: Option<Seq<char>>,
) -> Seq<MediaItem>
    decreases items.len(),
{
    if items.len() == 0 {
        Seq::<MediaItem>::empty()
    } else {
        let rest = spec_search_filter(items.drop_last(), term_lower, mt);
        if spec_term_match(items.last(), term_lower) && (match mt {
            Some(m) => items.last().media_type@ == m,
            None => true,
        }) {
            rest.push(items.last())
        } else {
            rest
        }
    }
}

/// The duplicate rule of the facade, in order: an item carrying the
/// category-appropriate external identifier is a duplicate when any row
/// carries the same identifier (scoped by category for the identifier that
/// movie and TV share); otherwise an exact title + year + category match
/// decides.
pub open spec fn spec_is_duplicate(items: Seq<MediaItem>, item: MediaItem) -> bool {
    let base = exists|j: int|
        0 <= j < items.len() && (#[trigger] items[j]).title@ == item.title@ && items[j].year
            == item.year && items[j].media_type@ == item.media_type@;
    if item.media_type@ == "Anime"@ {
        (item.anilist_id matches Some(aid) && exists|j: int|
            0 <= j < items.len() && (#[trigger] items[j]).anilist_id == Some(aid)) || base
    } else {
        (item.tmdb_id matches Some(tid) && exists|j: int|
            0 <= j < items.len() && (#[trigger] items[j]).tmdb_id == Some(tid) && items[
                j
            ].media_type@ == item.media_type@) || base
    }
}

/// How many rows carry the given category.
pub open spec fn spec_count_category(items: Seq<MediaItem>, cat: Seq<char>) -> int
    decreases items.len(),
{
    if items.len() == 0 {
        0
    } else {
        spec_count_category(items.drop_last(), cat) + (if items.last().media_type@ == cat {
            1int
        } else {
            0int
        })
    }
}

/// How many rows carry the given quality descriptor.
pub open spec fn spec_count_quality(items: Seq<MediaItem>, q: Seq<char>) -> int
    decreases items.len(),
{
    if items.len() == 0 {
        0
    } else {
        spec_count_quality(items.drop_last(), q) + (
        if items.last().quality_type matches Some(x) && x@ == q {
            1int
        } else {
            0int
        })
    }
}

/// Aggregate row counts per media category.
pub struct CategoryCounts {
    pub movie: usize,
    pub tv: usize,
    pub anime: usize,
}

impl Catalog {
    /// Every stored row has an identifier below the next one, and no two
    /// rows share an identifier.
    pub open spec fn wf(self) -> bool {
        &&& 1 <= self.next_id
        &&& forall|i: int|
            0 <= i < self.items@.len() ==> ((#[trigger] self.items@[i]).id matches Some(x) && 1 <= x
                < self.next_id)
        &&& forall|i: int, j: int|
            0 <= i < j < self.items@.len() ==> (#[trigger] self.items@[i]).id != (
            #[trigger] self.items@[j]).id
    }

    /// An empty catalog.
    pub fn new() -> (r: Catalog)
        ensures
            r.wf(),
            r.items@ =~= Seq::<MediaItem>::empty(),
            r.next_id == 1,
    {
        Catalog { items: Vec::new(), next_id: 1 }
    }

    /// Inserts one draft as a new row: it receives the next identifier and
    /// both server-assigned timestamps, and every other field is stored as
    /// given. Returns the assigned identifier.
    pub fn add_item(&mut self, item: MediaItem, now: &String) -> (id: i64)
        requires
            old(self).wf(),
            old(self).next_id < i64::MAX,
        ensures
            final(self).wf(),
            id == old(self).next_id,
            final(self).next_id == old(self).next_id + 1,
            final(self).items@ == old(self).items@.push(
                spec_persisted(item, old(self).next_id, *now),
            ),
    {
        let id = self.next_id;
        let stored = MediaItem {
            id: Some(id),
            created_at: Some(now.clone()),
            updated_at: Some(now.clone()),
            ..item
        };
        self.items.push(stored);
        self.next_id = id + 1;
        id
    }

    /// Whether the draft duplicates a stored row, per the facade's ordered
    /// duplicate rule.
    pub fn check_duplicate_by_id(&self, item: &MediaItem) -> (r: bool)
        ensures
            r == spec_is_duplicate(self.items@, *item),
    {
        let anime = String::from_str("Anime");
        if item.media_type.eq(&anime) {
            if let Some(aid) = item.anilist_id {
                if self.scan_anilist(aid) {
                    return true;
                }
            }
        } else {
            if let Some(tid) = item.tmdb_id {
                if self.scan_tmdb(tid, &item.media_type) {
                    return true;
                }
            }
        }
        self.scan_title_year_category(item)
    }

    fn scan_anilist(&self, aid: i64) -> (r: bool)
        ensures
            r == exists|j: int|
                0 <= j < self.items@.len() && (#[trigger] self.items@[j]).anilist_id == Some(aid),
    {
        let n = self.items.len();
        for i in 0..n
            invariant
                n == self.items@.len(),
                forall|k: int| 0 <= k < i ==> (#[trigger] self.items@[k]).anilist_id != Some(aid),
        {
            if let Some(x) = self.items[i].anilist_id {
                if x == aid {
                    return true;
                }
            }
        }
        false
    }

    fn scan_tmdb(&self, tid: i64, media_type: &String) -> (r: bool)
        ensures
            r == exists|j: int|
                0 <= j < self.items@.len() && (#[trigger] self.items@[j]).tmdb_id == Some(tid)
                    && self.items@[j].media_type@ == media_type@,
    {
        let n = self.items.len();
        for i in 0..n
            invariant
                n == self.items@.len(),
                forall|k: int|
                    0 <= k < i ==> !((#[trigger] self.items@[k]).tmdb_id == Some(tid)
                        && self.items@[k].media_type@ == media_type@),
        {
            if let Some(x) = self.items[i].tmdb_id {
                if x == tid && self.items[i].media_type.eq(media_type) {
                    return true;
                }
            }
        }
        false
    }

    fn scan_title_year_category(&self, item: &MediaItem) -> (r: bool)
        ensures
            r == exists|j: int|
                0 <= j < self.items@.len() && (#[trigger] self.items@[j]).title@ == item.title@
                    && self.items@[j].year == item.year && self.items@[j].media_type@
                    == item.media_type@,
    {
        let n = self.items.len();
        for i in 0..n
            invariant
                n == self.items@.len(),
                forall|k: int|
                    0 <= k < i ==> !((#[trigger] self.items@[k]).title@ == item.title@
                        && self.items@[k].year == item.year && self.items@[k].media_type@
                        == item.media_type@),
        {
            let it = &self.items[i];
            let year_eq = match (it.year, item.year) {
                (Option::Some(a), Option::Some(b)) => a == b,
                (Option::None, Option::None) => true,
                _ => false,
            };
            if year_eq && it.title.eq(&item.title) && it.media_type.eq(&item.media_type) {
                return true;
            }
        }
        false
    }

    /// The rows passing the optional category and status filters, in store
    /// order.
    fn filter_items(&self, mt: Option<&str>, st: Option<&str>) -> (r: Vec<MediaItem>)
        ensures
            r@ == spec_filter_items(self.items@, opt_str_view(mt), opt_str_view(st)),
    {
        let mt_probe = match mt {
            Some(m) => Some(String::from_str(m)),
            None => None,
        };
        let st_probe = match st {
            Some(s) => Some(String::from_str(s)),
            None => None,
        };
        let ghost mtv = opt_str_view(mt);
        let ghost stv = opt_str_view(st);
        let n = self.items.len();
        let mut out: Vec<MediaItem> = Vec::new();
        proof {
            assert(self.items@.take(0) =~= Seq::<MediaItem>::empty());
        }
        for i in 0..n
            invariant
                n == self.items@.len(),
                (match mt_probe {
                    Some(p) => mtv == Some(p@),
                    None => mtv is None,
                }),
                (match st_probe {
                    Some(p) => stv == Some(p@),
                    None => stv is None,
                }),
                out@ == spec_filter_items(self.items@.take(i as int), mtv, stv),
        {
            let it = &self.items[i];
            let mt_ok = match &mt_probe {
                Some(p) => it.media_type.eq(p),
                None => true,
            };
            let st_ok = match &st_probe {
                Some(p) => it.status.eq(p),
                None => true,
            };
            proof {
                assert(self.items@.take(i + 1).drop_last() =~= self.items@.take(i as int));
                assert(self.items@.take(i + 1).last() == self.items@[i as int]);
            }
            if mt_ok && st_ok {
                out.push(it.duplicate());
            }
        }
        assert(self.items@.take(n as int) =~= self.items@);
        out
    }

    /// The filtered listing in the requested order: only whitelisted sort
    /// fields reach the ordering (anything else falls back to the title
    /// column), the direction token selects descending exactly, and absent
    /// values order last.
    pub fn get_items_sorted(
        &self,
        media_type: Option<&str>,
        status: Option<&str>,
        sort_field: &str,
        sort_dir: &str,
    ) -> (r: Vec<MediaItem>)
        ensures
            sorted_by_key(r@, spec_sort_key_of(sort_field@), sort_dir@ == "DESC"@),
            r@.to_multiset() == spec_filter_items(
                self.items@,
                opt_str_view(media_type),
                opt_str_view(status),
            ).to_multiset(),
    {
        let filtered = self.filter_items(media_type, status);
        let key = sort_key_of(sort_field);
        let desc = sort_desc_of(sort_dir);
        sort_items(filtered, &key, desc)
    }

    /// The filtered listing in the default order: by title, ascending.
    pub fn get_items(&self, media_type: Option<&str>, status: Option<&str>) -> (r: Vec<MediaItem>)
        ensures
            sorted_by_key(r@, SortKey::Title, false),
            r@.to_multiset() == spec_filter_items(
                self.items@,
                opt_str_view(media_type),
                opt_str_view(status),
            ).to_multiset(),
    {
        let r = self.get_items_sorted(media_type, status, "title", "ASC");
        proof {
            reveal_strlit("title");
            reveal_strlit("year");
            reveal_strlit("quality_type");
            reveal_strlit("source");
            reveal_strlit("ASC");
            reveal_strlit("DESC");
            assert("title"@.len() == 5 && "year"@.len() == 4 && "quality_type"@.len() == 12
                && "source"@.len() == 6 && "ASC"@.len() == 3 && "DESC"@.len() == 4);
            assert(spec_sort_key_of("title"@) == SortKey::Title);
            assert("ASC"@ != "DESC"@);
        }
        r
    }

    /// The rows matching the free-text term (case-insensitive substring
    /// over title, notes, native and romanized titles) and the optional
    /// category, ordered by title ascending.
    pub fn search_items(&self, term: &str, media_type: Option<&str>) -> (r: Vec<MediaItem>)
        ensures
            sorted_by_key(r@, SortKey::Title, false),
            r@.to_multiset() == spec_search_filter(
                self.items@,
                spec_lower(term@),
                opt_str_view(media_type),
            ).to_multiset(),
    {
        let term_chars = to_chars(term);
        let term_lower = lower_chars(&term_chars);
        let mt_probe = match media_type {
            Some(m) => Some(String::from_str(m)),
            None => None,
        };
        let ghost mtv = opt_str_view(media_type);
        let n = self.items.len();
        let mut out: Vec<MediaItem> = Vec::new();
        proof {
            assert(self.items@.take(0) =~= Seq::<MediaItem>::empty());
        }
        for i in 0..n
            invariant
                n == self.items@.len(),
                term_lower@ == spec_lower(term@),
                (match mt_probe {
                    Some(p) => mtv == Some(p@),
                    None => mtv is None,
                }),
                out@ == spec_search_filter(self.items@.take(i as int), spec_lower(term@), mtv),
        {
            let it = &self.items[i];
            let matched = matches_term(it, &term_lower);
            let mt_ok = match &mt_probe {
                Some(p) => it.media_type.eq(p),
                None => true,
            };
            proof {
                assert(self.items@.take(i + 1).drop_last() =~= self.items@.take(i as int));
                assert(self.items@.take(i + 1).last() == self.items@[i as int]);
            }
            if matched && mt_ok {
                out.push(it.duplicate());
            }
        }
        assert(self.items@.take(n as int) =~= self.items@);
        let key = SortKey::Title;
        sort_items(out, &key, false)
    }

    /// How many rows pass the category, status and free-text filters.
    pub fn count_filtered_items(&self, media_type: Option<&str>, status: Option<&str>, term: Option<
        &str,
    >) -> (r: usize)
        ensures
            match term {
                Some(t) => r == spec_search_filter(
                    spec_filter_items(self.items@, opt_str_view(media_type), opt_str_view(status)),
                    spec_lower(t@),
                    Option::<Seq<char>>::None,
                ).len(),
                None => r == spec_filter_items(
                    self.items@,
                    opt_str_view(media_type),
                    opt_str_view(status),
                ).len(),
            },
    {
        let filtered = self.filter_items(media_type, status);
        match term {
            Some(t) => {
                let term_chars = to_chars(t);
                let term_lower = lower_chars(&term_chars);
                let n = filtered.len();
                let mut count: usize = 0;
                proof {
                    assert(filtered@.take(0) =~= Seq::<MediaItem>::empty());
                }
                for i in 0..n
                    invariant
                        n == filtered@.len(),
                        term_lower@ == spec_lower(t@),
                        count == spec_search_filter(
                            filtered@.take(i as int),
                            spec_lower(t@),
                            Option::<Seq<char>>::None,
                        ).len(),
                        count <= i,
                {
                    proof {
                        assert(filtered@.take(i + 1).drop_last() =~= filtered@.take(i as int));
                        assert(filtered@.take(i + 1).last() == filtered@[i as int]);
                    }
                    if matches_term(&filtered[i], &term_lower) {
                        count = count + 1;
                    }
                }
                assert(filtered@.take(n as int) =~= filtered@);
                count
            },
            None => filtered.len(),
        }
    }

    /// How many rows carry the given quality descriptor.
    pub fn count_items_with_quality_type(&self, quality_type: &str) -> (r: usize)
        ensures
            r == spec_count_quality(self.items@, quality_type@),
    {
        let probe = String::from_str(quality_type);
        let n = self.items.len();
        let mut count: usize = 0;
        proof {
            assert(self.items@.take(0) =~= Seq::<MediaItem>::empty());
        }
        for i in 0..n
            invariant
                n == self.items@.len(),
                probe@ == quality_type@,
                count == spec_count_quality(self.items@.take(i as int), quality_type@),
                count <= i,
        {
            proof {
                assert(self.items@.take(i + 1).drop_last() =~= self.items@.take(i as int));
                assert(self.items@.take(i + 1).last() == self.items@[i as int]);
            }
            let matched = match &self.items[i].quality_type {
                Some(q) => q.eq(&probe),
                None => false,
            };
            if matched {
                count = count + 1;
            }
        }
        assert(self.items@.take(n as int) =~= self.items@);
        count
    }

    /// The aggregate counts per media category.
    pub fn get_counts(&self) -> (r: CategoryCounts)
        ensures
            r.movie == spec_count_category(self.items@, "Movie"@),
            r.tv == spec_count_category(self.items@, "TV"@),
            r.anime == spec_count_category(self.items@, "Anime"@),
    {
        let movie_probe = String::from_str("Movie");
        let tv_probe = String::from_str("TV");
        let anime_probe = String::from_str("Anime");
        let n = self.items.len();
        let mut movie: usize = 0;
        let mut tv: usize = 0;
        let mut anime: usize = 0;
        proof {
            assert(self.items@.take(0) =~= Seq::<MediaItem>::empty());
        }
        for i in 0..n
            invariant
                n == self.items@.len(),
                movie_probe@ == "Movie"@,
                tv_probe@ == "TV"@,
                anime_probe@ == "Anime"@,
                movie == spec_count_category(self.items@.take(i as int), "Movie"@),
                tv == spec_count_category(self.items@.take(i as int), "TV"@),
                anime == spec_count_category(self.items@.take(i as int), "Anime"@),
                movie <= i && tv <= i && anime <= i,
        {
            proof {
                assert(self.items@.take(i + 1).drop_last() =~= self.items@.take(i as int));
                assert(self.items@.take(i + 1).last() == self.items@[i as int]);
            }
            let it = &self.items[i];
            if it.media_type.eq(&movie_probe) {
                movie = movie + 1;
            }
            if it.media_type.eq(&tv_probe) {
                tv = tv + 1;
            }
            if it.media_type.eq(&anime_probe) {
                anime = anime + 1;
            }
        }
        assert(self.items@.take(n as int) =~= self.items@);
        CategoryCounts { movie, tv, anime }
    }
}

/// The stored form of a row updated now from a draft: the draft's fields,
/// the row's own creation timestamp, and a fresh update timestamp.
pub open spec fn spec_updated(item: MediaItem, created_at: Option<String>, now: String) -> MediaItem {
    MediaItem {
        created_at,
        updated_at: Some(now),
        ..item
    }
}

/// The rows that survive deleting the given identifiers, in store order.
pub open spec fn spec_remove_ids(items: Seq<MediaItem>, ids: Seq<i64>) -> Seq<MediaItem>
    decreases items.len(),
{
    if items.len() == 0 {
        Seq::<MediaItem>::empty()
    } else {
        let rest = spec_remove_ids(items.drop_last(), ids);
        if items.last().id matches Some(x) && ids.contains(x) {
            rest
        } else {
            rest.push(items.last())
        }
    }
}

/// Deleting nothing keeps every row.
pub proof fn lemma_remove_no_ids(items: Seq<MediaItem>, ids: Seq<i64>)
    requires
        ids.len() == 0,
    ensures
        spec_remove_ids(items, ids) == items,
    decreases items.len(),
{
    if items.len() > 0 {
        lemma_remove_no_ids(items.drop_last(), ids);
        assert(spec_remove_ids(items.drop_last(), ids).push(items.last()) =~= items);
    }
}

/// The poster paths referenced by rows with the given identifiers, in
/// store order.
pub open spec fn spec_poster_paths(items: Seq<MediaItem>, ids: Seq<i64>) -> Seq<String>
    decreases items.len(),
{
    if items.len() == 0 {
        Seq::<String>::empty()
    } else {
        let rest = spec_poster_paths(items.drop_last(), ids);
        if items.last().id matches Some(x) && ids.contains(x) && items.last().poster_url matches Some(
            _p,
        ) {
            rest.push(items.last().poster_url->0)
        } else {
            rest
        }
    }
}

/// The stored form of a row moved to a new lifecycle status now.
pub open spec fn spec_moved(it: MediaItem, status: String, now: String) -> MediaItem {
    MediaItem {
        status,
        updated_at: Some(now),
        ..it
    }
}

/// The running state of one transactional batch insert: the rows so far,
/// the next identifier, and the titles added and skipped so far.
pub struct BatchState {
    pub items: Seq<MediaItem>,
    pub next_id: int,
    pub added: Seq<String>,
    pub skipped: Seq<String>,
}

/// The batch insert rule of the facade: items are taken in order; with
/// duplicate skipping on, an item that duplicates the rows *as inserted so
/// far* is recorded as skipped; every other item is persisted under the
/// next identifier and recorded as added. Nothing aborts the batch.
pub open spec fn spec_batch_add(
    pending: Seq<MediaItem>,
    st: BatchState,
    skip: bool,
    now: String,
) -> BatchState
    decreases pending.len(),
{
    if pending.len() == 0 {
        st
    } else {
        let it = pending.first();
        if skip && spec_is_duplicate(st.items, it) {
            spec_batch_add(
                pending.drop_first(),
                BatchState { skipped: st.skipped.push(it.title), ..st },
                skip,
                now,
            )
        } else {
            spec_batch_add(
                pending.drop_first(),
                BatchState {
                    items: st.items.push(spec_persisted(it, st.next_id as i64, now)),
                    next_id: st.next_id + 1,
                    added: st.added.push(it.title),
                    ..st
                },
                skip,
                now,
            )
        }
    }
}

/// Inserting a fresh item twice in one batch with duplicate skipping adds
/// exactly one row and skips exactly one item: the first insert makes the
/// second occurrence a duplicate of itself.
pub proof fn lemma_duplicate_skip_reflexive(st: BatchState, item: MediaItem, now: String)
    requires
        !spec_is_duplicate(st.items, item),
    ensures
        ({
            let fin = spec_batch_add(seq![item, item], st, true, now);
            &&& fin.added.len() == st.added.len() + 1
            &&& fin.skipped.len() == st.skipped.len() + 1
            &&& fin.items == st.items.push(spec_persisted(item, st.next_id as i64, now))
        }),
{
    let two = seq![item, item];
    let one = two.drop_first();
    assert(one =~= seq![item]);
    assert(two.first() == item && one.first() == item);
    let stored = spec_persisted(item, st.next_id as i64, now);
    let st1 = BatchState {
        items: st.items.push(stored),
        next_id: st.next_id + 1,
        added: st.added.push(item.title),
        ..st
    };
    let w = st1.items.len() - 1;
    assert(st1.items[w] == stored);
    assert(stored.title == item.title && stored.year == item.year && stored.media_type
        == item.media_type && stored.anilist_id == item.anilist_id && stored.tmdb_id
        == item.tmdb_id);
    assert(spec_is_duplicate(st1.items, item));
    let st2 = BatchState { skipped: st1.skipped.push(item.title), ..st1 };
    let zero = one.drop_first();
    assert(zero =~= Seq::<MediaItem>::empty());
    assert(spec_batch_add(two, st, true, now) == spec_batch_add(one, st1, true, now));
    assert(spec_batch_add(one, st1, true, now) == spec_batch_add(zero, st2, true, now));
    assert(spec_batch_add(zero, st2, true, now) == st2);
}

/// Promoting two fresh selections in one batch with duplicate skipping
/// adds both and skips neither: the first draft must not duplicate the
/// stored rows, and the second must not duplicate them even after the
/// first is inserted.
pub proof fn lemma_batch_add_fresh_pair(st: BatchState, a: MediaItem, b: MediaItem, now: String)
    requires
        !spec_is_duplicate(st.items, a),
        !spec_is_duplicate(st.items.push(spec_persisted(a, st.next_id as i64, now)), b),
    ensures
        ({
            let fin = spec_batch_add(seq![a, b], st, true, now);
            &&& fin.added.len() == st.added.len() + 2
            &&& fin.skipped.len() == st.skipped.len()
            &&& fin.items == st.items.push(spec_persisted(a, st.next_id as i64, now)).push(
                spec_persisted(b, (st.next_id + 1) as i64, now),
            )
        }),
{
    let two = seq![a, b];
    let one = two.drop_first();
    assert(one =~= seq![b]);
    assert(two.first() == a && one.first() == b);
    let st1 = BatchState {
        items: st.items.push(spec_persisted(a, st.next_id as i64, now)),
        next_id: st.next_id + 1,
        added: st.added.push(a.title),
        ..st
    };
    let st2 = BatchState {
        items: st1.items.push(spec_persisted(b, st1.next_id as i64, now)),
        next_id: st1.next_id + 1,
        added: st1.added.push(b.title),
        ..st1
    };
    let zero = one.drop_first();
    assert(zero =~= Seq::<MediaItem>::empty());
    assert(spec_batch_add(two, st, true, now) == spec_batch_add(one, st1, true, now));
    assert(spec_batch_add(one, st1, true, now) == spec_batch_add(zero, st2, true, now));
    assert(spec_batch_add(zero, st2, true, now) == st2);
}

impl Catalog {
    /// Updates the row carrying the draft's identifier with the draft's
    /// fields: the row's creation timestamp is kept and its update
    /// timestamp refreshed; every other row is untouched. A draft without
    /// an identifier, or with an unknown one, changes nothing.
    pub fn update_item(&mut self, item: &MediaItem, now: &String)
        requires
            old(self).wf(),
        ensures
            final(self).wf(),
            final(self).next_id == old(self).next_id,
            final(self).items@.len() == old(self).items@.len(),
            forall|j: int|
                0 <= j < old(self).items@.len() ==> #[trigger] final(self).items@[j] == (
                if old(self).items@[j].id == item.id && item.id is Some {
                    spec_updated(*item, old(self).items@[j].created_at, *now)
                } else {
                    old(self).items@[j]
                }),
    {
        let n = self.items.len();
        let mut out: Vec<MediaItem> = Vec::new();
        let ghost orig = self.items@;
        for i in 0..n
            invariant
                n == orig.len(),
                self.items@ == orig,
                out@.len() == i,
                forall|j: int|
                    0 <= j < i ==> #[trigger] out@[j] == (
                    if orig[j].id == item.id && item.id is Some {
                        spec_updated(*item, orig[j].created_at, *now)
                    } else {
                        orig[j]
                    }),
        {
            let row = &self.items[i];
            let id_match = match (row.id, item.id) {
                (Option::Some(a), Option::Some(b)) => a == b,
                _ => false,
            };
            if id_match {
                let updated = MediaItem {
                    id: item.id,
                    created_at: clone_opt_string(&row.created_at),
                    updated_at: Some(now.clone()),
                    ..item.duplicate()
                };
                out.push(updated);
            } else {
                out.push(row.duplicate());
            }
        }
        self.items = out;
    }

    /// Saves an edited item: a draft that already carries an identifier
    /// updates its row in place, one without is inserted as a new row.
    /// Answers whether an update (rather than an insert) happened.
    pub fn save_item(&mut self, item: MediaItem, now: &String) -> (updated: bool)
        requires
            old(self).wf(),
            old(self).next_id < i64::MAX,
        ensures
            final(self).wf(),
            updated == (item.id is Some),
            item.id is Some ==> ({
                &&& final(self).next_id == old(self).next_id
                &&& final(self).items@.len() == old(self).items@.len()
                &&& forall|j: int|
                    0 <= j < old(self).items@.len() ==> #[trigger] final(self).items@[j] == (
                    if old(self).items@[j].id == item.id {
                        spec_updated(item, old(self).items@[j].created_at, *now)
                    } else {
                        old(self).items@[j]
                    })
            }),
            item.id is None ==> final(self).items@ == old(self).items@.push(
                spec_persisted(item, old(self).next_id, *now),
            ) && final(self).next_id == old(self).next_id + 1,
    {
        if item.id.is_some() {
            self.update_item(&item, now);
            true
        } else {
            self.add_item(item, now);
            false
        }
    }

    /// Removes the rows carrying the given identifiers; unknown
    /// identifiers are ignored and an empty list is a no-op.
    pub fn delete_items_batch(&mut self, ids: &Vec<i64>)
        requires
            old(self).wf(),
        ensures
            final(self).wf(),
            final(self).next_id == old(self).next_id,
            final(self).items@ == spec_remove_ids(old(self).items@, ids@),
            ids@.len() == 0 ==> final(self).items@ == old(self).items@,
    {
        let n = self.items.len();
        let mut out: Vec<MediaItem> = Vec::new();
        let ghost orig = self.items@;
        proof {
            assert(orig.take(0) =~= Seq::<MediaItem>::empty());
        }
        for i in 0..n
            invariant
                n == orig.len(),
                self.items@ == orig,
                out@ == spec_remove_ids(orig.take(i as int), ids@),
        {
            proof {
                assert(orig.take(i + 1).drop_last() =~= orig.take(i as int));
                assert(orig.take(i + 1).last() == orig[i as int]);
            }
            let row = &self.items[i];
            let hit = match row.id {
                Some(x) => contains_id(ids, x),
                None => false,
            };
            if !hit {
                out.push(row.duplicate());
            }
        }
        proof {
            assert(orig.take(n as int) =~= orig);
            if ids@.len() == 0 {
                lemma_remove_no_ids(orig, ids@);
            }
        }
        let ghost kept = spec_remove_ids(orig, ids@);
        proof {
            lemma_remove_ids_wf(orig, ids@, old(self).next_id as int);
        }
        self.items = out;
    }

    /// Removes the single row carrying the identifier.
    pub fn delete_item(&mut self, id: i64)
        requires
            old(self).wf(),
        ensures
            final(self).wf(),
            final(self).next_id == old(self).next_id,
            final(self).items@ == spec_remove_ids(old(self).items@, seq![id]),
    {
        let mut ids: Vec<i64> = Vec::new();
        ids.push(id);
        assert(ids@ =~= seq![id]);
        self.delete_items_batch(&ids);
    }

    /// The poster paths referenced by the rows about to be deleted, so the
    /// caller can clean up their cached artwork afterwards.
    pub fn get_poster_urls(&self, ids: &Vec<i64>) -> (r: Vec<String>)
        ensures
            r@ == spec_poster_paths(self.items@, ids@),
    {
        let n = self.items.len();
        let mut out: Vec<String> = Vec::new();
        proof {
            assert(self.items@.take(0) =~= Seq::<MediaItem>::empty());
        }
        for i in 0..n
            invariant
                n == self.items@.len(),
                out@ == spec_poster_paths(self.items@.take(i as int), ids@),
        {
            proof {
                assert(self.items@.take(i + 1).drop_last() =~= self.items@.take(i as int));
                assert(self.items@.take(i + 1).last() == self.items@[i as int]);
            }
            let row = &self.items[i];
            let hit = match row.id {
                Some(x) => contains_id(ids, x),
                None => false,
            };
            if hit {
                if let Some(p) = &row.poster_url {
                    out.push(p.clone());
                }
            }
        }
        assert(self.items@.take(n as int) =~= self.items@);
        out
    }

    /// Moves the rows carrying the given identifiers to a new lifecycle
    /// status, refreshing their update timestamps; every other row is
    /// untouched and an empty list is a no-op.
    pub fn move_items(&mut self, ids: &Vec<i64>, new_status: &String, now: &String)
        requires
            old(self).wf(),
        ensures
            final(self).wf(),
            final(self).next_id == old(self).next_id,
            final(self).items@.len() == old(self).items@.len(),
            forall|j: int|
                0 <= j < old(self).items@.len() ==> #[trigger] final(self).items@[j] == (
                if old(self).items@[j].id matches Some(x) && ids@.contains(x) {
                    spec_moved(old(self).items@[j], *new_status, *now)
                } else {
                    old(self).items@[j]
                }),
    {
        let n = self.items.len();
        let mut out: Vec<MediaItem> = Vec::new();
        let ghost orig = self.items@;
        for i in 0..n
            invariant
                n == orig.len(),
                self.items@ == orig,
                out@.len() == i,
                forall|j: int|
                    0 <= j < i ==> #[trigger] out@[j] == (
                    if orig[j].id matches Some(x) && ids@.contains(x) {
                        spec_moved(orig[j], *new_status, *now)
                    } else {
                        orig[j]
                    }),
        {
            let row = &self.items[i];
            let hit = match row.id {
                Some(x) => contains_id(ids, x),
                None => false,
            };
            if hit {
                let moved = MediaItem {
                    status: new_status.clone(),
                    updated_at: Some(now.clone()),
                    ..row.duplicate()
                };
                out.push(moved);
            } else {
                out.push(row.duplicate());
            }
        }
        self.items = out;
    }

    /// Runs one batch insert as a single transaction following
    /// `spec_batch_add`: with duplicate skipping on, each item is checked
    /// against the rows as inserted so far; the outcome reports the added
    /// and skipped titles with matching counts. No per-item failure exists
    /// in this store, so the error bucket is always empty.
    pub fn add_items_batch(&mut self, items: Vec<MediaItem>, skip_duplicates: bool, now: &String)
        -> (r: BatchAddResult)
        requires
            old(self).wf(),
            old(self).next_id + items@.len() <= i64::MAX,
            items@.len() <= 0x7fffffff,
        ensures
            final(self).wf(),
            r.wf(),
            ({
                let fin = spec_batch_add(
                    items@,
                    BatchState {
                        items: old(self).items@,
                        next_id: old(self).next_id as int,
                        added: Seq::<String>::empty(),
                        skipped: Seq::<String>::empty(),
                    },
                    skip_duplicates,
                    *now,
                );
                &&& final(self).items@ == fin.items
                &&& final(self).next_id as int == fin.next_id
                &&& r.added_items@ == fin.added
                &&& r.skipped_items@ == fin.skipped
                &&& r.errors == 0
                &&& r.error_items@.len() == 0
            }),
    {
        let ghost init = BatchState {
            items: old(self).items@,
            next_id: old(self).next_id as int,
            added: Seq::<String>::empty(),
            skipped: Seq::<String>::empty(),
        };
        let ghost fin = spec_batch_add(items@, init, skip_duplicates, *now);
        let mut result = BatchAddResult::empty();
        let n = items.len();
        proof {
            assert(items@.skip(0) =~= items@);
        }
        for i in 0..n
            invariant
                n == items@.len(),
                old(self).next_id + items@.len() <= i64::MAX,
                items@.len() <= 0x7fffffff,
                self.wf(),
                self.next_id == old(self).next_id + result.added_items@.len(),
                result.added == result.added_items@.len(),
                result.skipped == result.skipped_items@.len(),
                result.added_items@.len() + result.skipped_items@.len() == i,
                result.errors == 0,
                result.error_items@.len() == 0,
                fin == spec_batch_add(items@, init, skip_duplicates, *now),
                fin == spec_batch_add(
                    items@.skip(i as int),
                    BatchState {
                        items: self.items@,
                        next_id: self.next_id as int,
                        added: result.added_items@,
                        skipped: result.skipped_items@,
                    },
                    skip_duplicates,
                    *now,
                ),
        {
            proof {
                assert(items@.skip(i as int)[0] == items@[i as int]);
                assert(items@.skip(i as int).drop_first() =~= items@.skip(i + 1));
            }
            let item = items[i].duplicate();
            let dup = if skip_duplicates {
                self.check_duplicate_by_id(&item)
            } else {
                false
            };
            if dup {
                result.skipped = result.skipped + 1;
                result.skipped_items.push(item.title);
            } else {
                let id = self.next_id;
                let stored = MediaItem {
                    id: Some(id),
                    created_at: Some(now.clone()),
                    updated_at: Some(now.clone()),
                    ..item
                };
                proof {
                    assert forall|k: int| 0 <= k < self.items@.len() implies (
                    #[trigger] self.items@[k]).id != Some(id) by {
                        assert(self.items@[k].id matches Some(x) && x < self.next_id);
                    }
                }
                result.added = result.added + 1;
                result.added_items.push(stored.title.clone());
                self.items.push(stored);
                self.next_id = id + 1;
            }
        }
        proof {
            assert(items@.skip(n as int) =~= Seq::<MediaItem>::empty());
        }
        result
    }
}

/// A filtered listing never has more rows than the store.
pub proof fn lemma_filter_len_bound(
    items: Seq<MediaItem>,
    mt: Option<Seq<char>>,
    st: Option<Seq<char>>,
)
    ensures
        spec_filter_items(items, mt, st).len() <= items.len(),
    decreases items.len(),
{
    if items.len() > 0 {
        lemma_filter_len_bound(items.drop_last(), mt, st);
    }
}

/// A searched listing never has more rows than its input.
pub proof fn lemma_search_filter_len_bound(
    items: Seq<MediaItem>,
    term_lower: Seq<char>,
    mt: Option<Seq<char>>,
)
    ensures
        spec_search_filter(items, term_lower, mt).len() <= items.len(),
    decreases items.len(),
{
    if items.len() > 0 {
        lemma_search_filter_len_bound(items.drop_last(), term_lower, mt);
    }
}

/// A category count lies between zero and the row count.
pub proof fn lemma_count_category_bound(items: Seq<MediaItem>, cat: Seq<char>)
    ensures
        0 <= spec_count_category(items, cat) <= items.len(),
    decreases items.len(),
{
    if items.len() > 0 {
        lemma_count_category_bound(items.drop_last(), cat);
    }
}

/// Whether the identifier occurs in the list.
fn contains_id(ids: &Vec<i64>, x: i64) -> (r: bool)
    ensures
        r == ids@.contains(x),
{
    let n = ids.len();
    for i in 0..n
        invariant
            n == ids@.len(),
            forall|k: int| 0 <= k < i ==> ids@[k] != x,
    {
        if ids[i] == x {
            return true;
        }
    }
    false
}

/// Removal keeps identifiers unique and below the next one.
proof fn lemma_remove_ids_wf(items: Seq<MediaItem>, ids: Seq<i64>, next_id: int)
    requires
        forall|i: int|
            0 <= i < items.len() ==> ((#[trigger] items[i]).id matches Some(x) && 1 <= x < next_id),
        forall|i: int, j: int|
            0 <= i < j < items.len() ==> (#[trigger] items[i]).id != (#[trigger] items[j]).id,
    ensures
        ({
            let kept = spec_remove_ids(items, ids);
            &&& forall|i: int|
                0 <= i < kept.len() ==> ((#[trigger] kept[i]).id matches Some(x) && 1 <= x
                    < next_id)
            &&& forall|i: int, j: int|
                0 <= i < j < kept.len() ==> (#[trigger] kept[i]).id != (#[trigger] kept[j]).id
        }),
    decreases items.len(),
{
    if items.len() > 0 {
        let prefix = items.drop_last();
        assert(forall|i: int| 0 <= i < prefix.len() ==> #[trigger] prefix[i] == items[i]);
        lemma_remove_ids_wf(prefix, ids, next_id);
        let rest = spec_remove_ids(prefix, ids);
        lemma_remove_subset(prefix, ids);
        if !(items.last().id matches Some(x) && ids.contains(x)) {
            let kept = rest.push(items.last());
            assert forall|i: int, j: int| 0 <= i < j < kept.len() implies (
            #[trigger] kept[i]).id != (#[trigger] kept[j]).id by {
                if j == kept.len() - 1 {
                    let wi = choose|w: int| 0 <= w < prefix.len() && prefix[w] == kept[i];
                    assert(items[wi] == kept[i]);
                    assert(items[wi].id != items.last().id);
                }
            }
        }
    }
}

/// Every surviving row was a stored row.
proof fn lemma_remove_subset(items: Seq<MediaItem>, ids: Seq<i64>)
    ensures
        forall|i: int|
            0 <= i < spec_remove_ids(items, ids).len() ==> exists|w: int|
                0 <= w < items.len() && items[w] == #[trigger] spec_remove_ids(items, ids)[i],
    decreases items.len(),
{
    if items.len() > 0 {
        let prefix = items.drop_last();
        lemma_remove_subset(prefix, ids);
        let rest = spec_remove_ids(prefix, ids);
        let kept = spec_remove_ids(items, ids);
        assert forall|i: int| 0 <= i < kept.len() implies exists|w: int|
            0 <= w < items.len() && items[w] == #[trigger] kept[i] by {
            if i < rest.len() {
                assert(kept[i] == rest[i]);
                let w = choose|w: int| 0 <= w < prefix.len() && prefix[w] == rest[i];
                assert(items[w] == kept[i]);
            } else {
                assert(kept[i] == items.last());
                assert(items[items.len() - 1] == kept[i]);
            }
        }
    }
}

/// Whether the item matches the lowered free-text term on any of its four
/// searched fields.
fn matches_term(it: &MediaItem, term_lower: &Vec<char>) -> (r: bool)
    ensures
        r == spec_term_match(*it, term_lower@),
{
    let title_chars = to_chars(it.title.as_str());
    let title_lower = lower_chars(&title_chars);
    if contains_chars(&title_lower, term_lower) {
        return true;
    }
    if opt_field_matches(&it.notes, term_lower) {
        return true;
    }
    if opt_field_matches(&it.native_title, term_lower) {
        return true;
    }
    opt_field_matches(&it.romaji_title, term_lower)
}

fn opt_field_matches(field: &Option<String>, term_lower: &Vec<char>) -> (r: bool)
    ensures
        r == (field matches Some(n) && has_substring(spec_lower(n@), term_lower@)),
{
    match field {
        Some(n) => {
            let chars = to_chars(n.as_str());
            let lowered = lower_chars(&chars);
            contains_chars(&lowered, term_lower)
        },
        None => false,
    }
}

} // verus!

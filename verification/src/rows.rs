//! Read-model projections: the flattened row shapes the presentation layer
//! consumes, re-derived from catalog and transient-search state on every
//! reload, plus the selection state of the transient search list.
use vstd::prelude::*;

use crate::models::{MediaItem, SearchResult};
use crate::text::{fmt_i32, join_strings, spec_fmt_int, spec_join, string_views};

verus! {

/// An absent optional string projects to the empty string.
pub fn opt_or_empty(o: &Option<String>) -> (r: String)
    ensures
        r@ == (match o {
            Some(s) => s@,
            None => Seq::<char>::empty(),
        }),
{
    match o {
        Some(s) => s.clone(),
        None => String::new(),
    }
}

/// One flattened catalog row as the presentation layer reads it: absent
/// identifier projects to -1, absent year to zero, absent texts to empty
/// strings, and the artwork reference comes pre-resolved.
pub struct DisplayItem {
    pub id: i32,
    pub title: String,
    pub native_title: String,
    pub romaji_title: String,
    pub year: i32,
    pub media_type: String,
    pub status: String,
    pub quality_type: String,
    pub source: String,
    pub notes: String,
    pub poster_path: String,
    pub has_poster: bool,
}

/// The projection relation between a catalog item and its display row,
/// given the resolved artwork reference.
pub open spec fn spec_display_row(
    d: DisplayItem,
    it: MediaItem,
    poster_path: Seq<char>,
    has_poster: bool,
) -> bool {
    &&& d.id as int == (match it.id {
        Some(x) => x as i32 as int,
        None => -1int,
    })
    &&& d.title == it.title
    &&& d.native_title@ == (match it.native_title {
        Some(s) => s@,
        None => Seq::<char>::empty(),
    })
    &&& d.romaji_title@ == (match it.romaji_title {
        Some(s) => s@,
        None => Seq::<char>::empty(),
    })
    &&& d.year == (match it.year {
        Some(y) => y,
        None => 0,
    })
    &&& d.media_type == it.media_type
    &&& d.status == it.status
    &&& d.quality_type@ == (match it.quality_type {
        Some(s) => s@,
        None => Seq::<char>::empty(),
    })
    &&& d.source@ == (match it.source {
        Some(s) => s@,
        None => Seq::<char>::empty(),
    })
    &&& d.notes@ == (match it.notes {
        Some(s) => s@,
        None => Seq::<char>::empty(),
    })
    &&& d.poster_path@ == poster_path
    &&& d.has_poster == has_poster
}

/// The backing rows of the catalog listing view.
pub struct MediaModelRust {
    pub items: Vec<DisplayItem>,
}

/// The listing model as the presentation layer addresses it.
pub type MediaModel = MediaModelRust;

impl Default for MediaModel {
    /// An empty listing.
    fn default() -> (r: MediaModelRust)
        ensures
            r.items@.len() == 0,
    {
        MediaModelRust { items: Vec::new() }
    }
}

impl MediaModel {
    /// Projects the queried items into display rows; the caller resolves
    /// each item's artwork (path and existence) beforehand, one entry per
    /// item.
    pub fn load(&mut self, rows: &Vec<MediaItem>, posters: &Vec<(String, bool)>)
        requires
            rows@.len() == posters@.len(),
        ensures
            final(self).items@.len() == rows@.len(),
            forall|i: int|
                0 <= i < rows@.len() ==> spec_display_row(
                    #[trigger] final(self).items@[i],
                    rows@[i],
                    posters@[i].0@,
                    posters@[i].1,
                ),
    {
        let n = rows.len();
        let mut out: Vec<DisplayItem> = Vec::new();
        for i in 0..n
            invariant
                n == rows@.len(),
                rows@.len() == posters@.len(),
                out@.len() == i,
                forall|k: int|
                    0 <= k < i ==> spec_display_row(
                        #[trigger] out@[k],
                        rows@[k],
                        posters@[k].0@,
                        posters@[k].1,
                    ),
        {
            let it = &rows[i];
            let id: i32 = match it.id {
                Some(x) => #[verifier::truncate] (x as i32),
                None => -1,
            };
            let year: i32 = match it.year {
                Some(y) => y,
                None => 0,
            };
            let d = DisplayItem {
                id,
                title: it.title.clone(),
                native_title: opt_or_empty(&it.native_title),
                romaji_title: opt_or_empty(&it.romaji_title),
                year,
                media_type: it.media_type.clone(),
                status: it.status.clone(),
                quality_type: opt_or_empty(&it.quality_type),
                source: opt_or_empty(&it.source),
                notes: opt_or_empty(&it.notes),
                poster_path: posters[i].0.clone(),
                has_poster: posters[i].1,
            };
            let ghost out0 = out@;
            out.push(d);
            proof {
                assert(forall|k: int| 0 <= k < out0.len() ==> #[trigger] out@[k] == out0[k]);
            }
        }
        self.items = out;
    }

    /// How many rows the listing holds.
    pub fn row_count(&self) -> (r: i32)
        ensures
            self.items@.len() <= 0x7fffffff ==> r == self.items@.len(),
    {
        #[verifier::truncate] (self.items.len() as i32)
    }

    /// The identifier at a row, or -1 outside the listing.
    pub fn get_item_id(&self, row: i32) -> (r: i32)
        ensures
            r == (if 0 <= row < self.items@.len() {
                self.items@[row as int].id as int
            } else {
                -1
            }),
    {
        if row >= 0 && (row as u64) < (self.items.len() as u64) {
            self.items[row as usize].id
        } else {
            -1
        }
    }

    /// The title at a row, or empty outside the listing.
    pub fn get_item_title(&self, row: i32) -> (r: String)
        ensures
            r@ == (if 0 <= row < self.items@.len() {
                self.items@[row as int].title@
            } else {
                Seq::<char>::empty()
            }),
    {
        if row >= 0 && (row as u64) < (self.items.len() as u64) {
            self.items[row as usize].title.clone()
        } else {
            String::new()
        }
    }

    /// The native-language title at a row, or empty outside the listing.
    pub fn get_item_native_title(&self, row: i32) -> (r: String)
        ensures
            r@ == (if 0 <= row < self.items@.len() {
                self.items@[row as int].native_title@
            } else {
                Seq::<char>::empty()
            }),
    {
        if row >= 0 && (row as u64) < (self.items.len() as u64) {
            self.items[row as usize].native_title.clone()
        } else {
            String::new()
        }
    }

    /// The romanized title at a row, or empty outside the listing.
    pub fn get_item_romaji_title(&self, row: i32) -> (r: String)
        ensures
            r@ == (if 0 <= row < self.items@.len() {
                self.items@[row as int].romaji_title@
            } else {
                Seq::<char>::empty()
            }),
    {
        if row >= 0 && (row as u64) < (self.items.len() as u64) {
            self.items[row as usize].romaji_title.clone()
        } else {
            String::new()
        }
    }
}

/// One flattened transient search row, with its selection state and its
/// stable index into the session's result list.
pub struct SearchItem {
    pub title: String,
    pub native_title: String,
    pub romaji_title: String,
    pub year: i32,
    pub overview: String,
    pub poster_path: String,
    pub has_poster: bool,
    pub selected: bool,
    pub index: i32,
}

/// The projection relation between a transient search result and its row.
pub open spec fn spec_search_row(
    s: SearchItem,
    r: SearchResult,
    poster_path: Seq<char>,
    has_poster: bool,
    index: int,
) -> bool {
    &&& s.title == r.title
    &&& s.native_title@ == (match r.native_title {
        Some(x) => x@,
        None => Seq::<char>::empty(),
    })
    &&& s.romaji_title@ == (match r.romaji_title {
        Some(x) => x@,
        None => Seq::<char>::empty(),
    })
    &&& s.year == (match r.year {
        Some(y) => y,
        None => 0,
    })
    &&& s.overview@ == (match r.overview {
        Some(x) => x@,
        None => Seq::<char>::empty(),
    })
    &&& s.poster_path@ == poster_path
    &&& s.has_poster == has_poster
    &&& s.index == index
}

/// How many rows are selected.
pub open spec fn spec_count_selected(items: Seq<SearchItem>) -> int
    decreases items.len(),
{
    if items.len() == 0 {
        0
    } else {
        spec_count_selected(items.drop_last()) + (if items.last().selected {
            1int
        } else {
            0int
        })
    }
}

/// The indices of the selected rows, in decimal, in row order.
pub open spec fn spec_selected_index_strs(items: Seq<SearchItem>) -> Seq<Seq<char>>
    decreases items.len(),
{
    if items.len() == 0 {
        Seq::<Seq<char>>::empty()
    } else {
        let rest = spec_selected_index_strs(items.drop_last());
        if items.last().selected {
            rest.push(spec_fmt_int(items.last().index as int))
        } else {
            rest
        }
    }
}

/// The backing rows of the transient search view, with the running
/// selected-row count.
pub struct SearchModelRust {
    pub items: Vec<SearchItem>,
    pub selected_count: i32,
}

/// The transient search model as the presentation layer addresses it.
pub type SearchModel = SearchModelRust;

impl Default for SearchModel {
    /// An empty search view.
    fn default() -> (r: SearchModelRust)
        ensures
            r.items@.len() == 0,
            r.selected_count == 0,
    {
        SearchModelRust { items: Vec::new(), selected_count: 0 }
    }
}

impl SearchModel {
    /// Projects the session's results into rows, nothing selected; the
    /// caller resolves each result's cached artwork beforehand, one entry
    /// per result.
    pub fn load_from_state(&mut self, results: &Vec<SearchResult>, posters: &Vec<(String, bool)>)
        requires
            results@.len() == posters@.len(),
            results@.len() <= 0x7fffffff,
        ensures
            final(self).items@.len() == results@.len(),
            final(self).selected_count == 0,
            forall|i: int|
                0 <= i < results@.len() ==> spec_search_row(
                    #[trigger] final(self).items@[i],
                    results@[i],
                    posters@[i].0@,
                    posters@[i].1,
                    i,
                ) && !final(self).items@[i].selected,
    {
        let n = results.len();
        let mut out: Vec<SearchItem> = Vec::new();
        for i in 0..n
            invariant
                n == results@.len(),
                results@.len() == posters@.len(),
                results@.len() <= 0x7fffffff,
                out@.len() == i,
                forall|k: int|
                    0 <= k < i ==> spec_search_row(
                        #[trigger] out@[k],
                        results@[k],
                        posters@[k].0@,
                        posters@[k].1,
                        k,
                    ) && !out@[k].selected,
        {
            let r = &results[i];
            let row = SearchItem {
                title: r.title.clone(),
                native_title: opt_or_empty(&r.native_title),
                romaji_title: opt_or_empty(&r.romaji_title),
                year: match r.year {
                    Some(y) => y,
                    None => 0,
                },
                overview: opt_or_empty(&r.overview),
                poster_path: posters[i].0.clone(),
                has_poster: posters[i].1,
                selected: false,
                index: i as i32,
            };
            let ghost out0 = out@;
            out.push(row);
            proof {
                assert(forall|k: int| 0 <= k < out0.len() ==> #[trigger] out@[k] == out0[k]);
            }
        }
        self.items = out;
        self.selected_count = 0;
    }

    /// Flips the selection at one row (rows outside the listing are
    /// ignored) and recomputes the selected-row count.
    pub fn toggle_selection(&mut self, row: i32)
        requires
            old(self).items@.len() <= 0x7fffffff,
        ensures
            final(self).items@.len() == old(self).items@.len(),
            forall|j: int|
                0 <= j < old(self).items@.len() && j != row ==> #[trigger] final(self).items@[j]
                    == old(self).items@[j],
            0 <= row < old(self).items@.len() ==> final(self).items@[row as int] == (SearchItem {
                selected: !old(self).items@[row as int].selected,
                ..old(self).items@[row as int]
            }),
            final(self).selected_count == spec_count_selected(final(self).items@),
    {
        let n = self.items.len();
        let mut out: Vec<SearchItem> = Vec::new();
        let ghost orig = self.items@;
        for i in 0..n
            invariant
                n == orig.len(),
                self.items@ == orig,
                out@.len() == i,
                forall|j: int| 0 <= j < i && j != row ==> #[trigger] out@[j] == orig[j],
                0 <= row < i ==> out@[row as int] == (SearchItem {
                    selected: !orig[row as int].selected,
                    ..orig[row as int]
                }),
        {
            let it = &self.items[i];
            let flip = row >= 0 && (i as u64) == (row as u64);
            let copied = SearchItem {
                title: it.title.clone(),
                native_title: it.native_title.clone(),
                romaji_title: it.romaji_title.clone(),
                year: it.year,
                overview: it.overview.clone(),
                poster_path: it.poster_path.clone(),
                has_poster: it.has_poster,
                selected: if flip {
                    !it.selected
                } else {
                    it.selected
                },
                index: it.index,
            };
            let ghost out0 = out@;
            out.push(copied);
            proof {
                assert(forall|k: int| 0 <= k < out0.len() ==> #[trigger] out@[k] == out0[k]);
            }
        }
        self.items = out;
        let count = self.count_selected();
        self.selected_count = count;
    }

    /// Counts the selected rows.
    fn count_selected(&self) -> (r: i32)
        requires
            self.items@.len() <= 0x7fffffff,
        ensures
            r == spec_count_selected(self.items@),
    {
        let n = self.items.len();
        let mut count: i32 = 0;
        proof {
            assert(self.items@.take(0) =~= Seq::<SearchItem>::empty());
        }
        for i in 0..n
            invariant
                n == self.items@.len(),
                self.items@.len() <= 0x7fffffff,
                count == spec_count_selected(self.items@.take(i as int)),
                0 <= count <= i,
        {
            proof {
                assert(self.items@.take(i + 1).drop_last() =~= self.items@.take(i as int));
                assert(self.items@.take(i + 1).last() == self.items@[i as int]);
            }
            if self.items[i].selected {
                count = count + 1;
            }
        }
        assert(self.items@.take(n as int) =~= self.items@);
        count
    }

    /// The selected rows' indices as a comma-separated list.
    pub fn get_selected_indices(&self) -> (r: String)
        ensures
            r@ == spec_join(spec_selected_index_strs(self.items@), ','),
    {
        let n = self.items.len();
        let mut parts: Vec<String> = Vec::new();
        proof {
            assert(self.items@.take(0) =~= Seq::<SearchItem>::empty());
            assert(string_views(parts@) =~= spec_selected_index_strs(self.items@.take(0)));
        }
        for i in 0..n
            invariant
                n == self.items@.len(),
                string_views(parts@) == spec_selected_index_strs(self.items@.take(i as int)),
        {
            proof {
                assert(self.items@.take(i + 1).drop_last() =~= self.items@.take(i as int));
                assert(self.items@.take(i + 1).last() == self.items@[i as int]);
            }
            if self.items[i].selected {
                let ghost p0 = parts@;
                let s = fmt_i32(self.items[i].index);
                parts.push(s);
                proof {
                    assert(string_views(parts@) =~= string_views(p0).push(
                        spec_fmt_int(self.items@[i as int].index as int),
                    ));
                }
            }
        }
        assert(self.items@.take(n as int) =~= self.items@);
        join_strings(&parts, ',')
    }

    /// Discards the rows and the selection.
    pub fn clear(&mut self)
        ensures
            final(self).items@.len() == 0,
            final(self).selected_count == 0,
    {
        self.items = Vec::new();
        self.selected_count = 0;
    }
}

} // verus!

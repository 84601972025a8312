//! The listing order of the catalog facade: a whitelisted sort key, a
//! direction, absent values always last, and byte-order comparison of
//! titles; plus a verified insertion sort realizing that order.
use vstd::prelude::*;
use vstd::seq_lib::group_to_multiset_ensures;
use vstd::seq_lib::lemma_multiset_commutative;

use crate::models::MediaItem;
use crate::text::to_chars;

verus! {

/// Lexicographic order on character sequences by code point, the order the
/// persisted store applies to text columns.
pub open spec fn lex_le(s: Seq<char>, t: Seq<char>) -> bool
    decreases s.len(),
{
    if s.len() == 0 {
        true
    } else if t.len() == 0 {
        false
    } else if s[0] == t[0] {
        lex_le(s.drop_first(), t.drop_first())
    } else {
        s[0] < t[0]
    }
}

pub proof fn lemma_lex_le_total(s: Seq<char>, t: Seq<char>)
    ensures
        lex_le(s, t) || lex_le(t, s),
    decreases s.len(),
{
    if s.len() > 0 && t.len() > 0 && s[0] == t[0] {
        lemma_lex_le_total(s.drop_first(), t.drop_first());
    }
}

pub proof fn lemma_lex_le_trans(a: Seq<char>, b: Seq<char>, c: Seq<char>)
    requires
        lex_le(a, b),
        lex_le(b, c),
    ensures
        lex_le(a, c),
    decreases a.len(),
{
    if a.len() > 0 && b.len() > 0 && c.len() > 0 && a[0] == b[0] && b[0] == c[0] {
        lemma_lex_le_trans(a.drop_first(), b.drop_first(), c.drop_first());
    }
}

/// With equal prefixes of length `i`, the order is decided by the suffixes.
pub proof fn lemma_lex_le_skip(s: Seq<char>, t: Seq<char>, i: int)
    requires
        0 <= i <= s.len(),
        i <= t.len(),
        forall|k: int| 0 <= k < i ==> s[k] == t[k],
    ensures
        lex_le(s, t) == lex_le(s.skip(i), t.skip(i)),
    decreases i,
{
    if i > 0 {
        assert(s.len() > 0 && t.len() > 0 && s[0] == t[0]);
        assert(forall|k: int|
            0 <= k < i - 1 ==> s.drop_first()[k] == t.drop_first()[k]);
        lemma_lex_le_skip(s.drop_first(), t.drop_first(), i - 1);
        assert(s.drop_first().skip(i - 1) =~= s.skip(i));
        assert(t.drop_first().skip(i - 1) =~= t.skip(i));
    } else {
        assert(s.skip(0) =~= s);
        assert(t.skip(0) =~= t);
    }
}

/// Compares two strings in the listing order.
pub fn lex_le_strings(a: &String, b: &String) -> (r: bool)
    ensures
        r == lex_le(a@, b@),
{
    let x = to_chars(a.as_str());
    let y = to_chars(b.as_str());
    let mut i: usize = 0;
    loop
        invariant
            i <= x@.len(),
            i <= y@.len(),
            x@ == a@,
            y@ == b@,
            forall|k: int| 0 <= k < i ==> a@[k] == b@[k],
        decreases x@.len() - i,
    {
        proof {
            lemma_lex_le_skip(a@, b@, i as int);
        }
        if i >= x.len() {
            assert(a@.skip(i as int).len() == 0);
            return true;
        }
        if i >= y.len() {
            assert(b@.skip(i as int).len() == 0 && a@.skip(i as int).len() > 0);
            return false;
        }
        let cx = x[i];
        let cy = y[i];
        proof {
            assert(a@.skip(i as int)[0] == cx);
            assert(b@.skip(i as int)[0] == cy);
        }
        if cx != cy {
            return cx < cy;
        }
        i = i + 1;
    }
}

/// The whitelisted sort columns of the catalog listing.
pub enum SortKey {
    Title,
    Year,
    Quality,
    Source,
}

/// The whitelist mapping from a requested sort field to a column: only the
/// three recognized non-title fields select themselves; anything else falls
/// back to the title, so unsanitized input can never reach the query layer.
pub open spec fn spec_sort_key_of(field: Seq<char>) -> SortKey {
    if field == "year"@ {
        SortKey::Year
    } else if field == "quality_type"@ {
        SortKey::Quality
    } else if field == "source"@ {
        SortKey::Source
    } else {
        SortKey::Title
    }
}

/// Requesting any unrecognized sort field selects the same column as
/// requesting the title.
pub proof fn lemma_sort_key_whitelist(field: Seq<char>)
    requires
        field != "year"@,
        field != "quality_type"@,
        field != "source"@,
    ensures
        spec_sort_key_of(field) == spec_sort_key_of("title"@),
{
    reveal_strlit("title");
    reveal_strlit("year");
    reveal_strlit("quality_type");
    reveal_strlit("source");
    assert("title"@.len() == 5 && "year"@.len() == 4 && "quality_type"@.len() == 12 && "source"@.len()
        == 6);
}

/// Resolves the requested sort field against the whitelist.
pub fn sort_key_of(field: &str) -> (r: SortKey)
    ensures
        r == spec_sort_key_of(field@),
{
    let f = String::from_str(field);
    if f.eq(&String::from_str("year")) {
        SortKey::Year
    } else if f.eq(&String::from_str("quality_type")) {
        SortKey::Quality
    } else if f.eq(&String::from_str("source")) {
        SortKey::Source
    } else {
        SortKey::Title
    }
}

/// Descending order is chosen exactly by the literal direction token.
pub fn sort_desc_of(dir: &str) -> (r: bool)
    ensures
        r == (dir@ == "DESC"@),
{
    let d = String::from_str(dir);
    d.eq(&String::from_str("DESC"))
}

/// Order on optional numbers: absent values sort last in both directions.
pub open spec fn opt_num_le(x: Option<i32>, y: Option<i32>, desc: bool) -> bool {
    match (x, y) {
        (Option::None, Option::None) => true,
        (Option::Some(_), Option::None) => true,
        (Option::None, Option::Some(_)) => false,
        (Option::Some(a), Option::Some(b)) => if desc {
            b <= a
        } else {
            a <= b
        },
    }
}

/// Order on optional strings: absent values sort last in both directions.
pub open spec fn opt_str_le(x: Option<Seq<char>>, y: Option<Seq<char>>, desc: bool) -> bool {
    match (x, y) {
        (Option::None, Option::None) => true,
        (Option::Some(_), Option::None) => true,
        (Option::None, Option::Some(_)) => false,
        (Option::Some(a), Option::Some(b)) => if desc {
            lex_le(b, a)
        } else {
            lex_le(a, b)
        },
    }
}

/// The view of an optional string field.
pub open spec fn opt_view(s: Option<String>) -> Option<Seq<char>> {
    match s {
        Some(x) => Some(x@),
        None => None,
    }
}

/// The listing order between two catalog items under a sort key and
/// direction.
pub open spec fn spec_le(a: MediaItem, b: MediaItem, key: SortKey, desc: bool) -> bool {
    match key {
        SortKey::Title => if desc {
            lex_le(b.title@, a.title@)
        } else {
            lex_le(a.title@, b.title@)
        },
        SortKey::Year => opt_num_le(a.year, b.year, desc),
        SortKey::Quality => opt_str_le(opt_view(a.quality_type), opt_view(b.quality_type), desc),
        SortKey::Source => opt_str_le(opt_view(a.source), opt_view(b.source), desc),
    }
}

pub proof fn lemma_le_total(a: MediaItem, b: MediaItem, key: SortKey, desc: bool)
    ensures
        spec_le(a, b, key, desc) || spec_le(b, a, key, desc),
{
    match key {
        SortKey::Title => lemma_lex_le_total(a.title@, b.title@),
        SortKey::Year => (),
        SortKey::Quality => {
            match (a.quality_type, b.quality_type) {
                (Some(x), Some(y)) => lemma_lex_le_total(x@, y@),
                _ => (),
            }
        },
        SortKey::Source => {
            match (a.source, b.source) {
                (Some(x), Some(y)) => lemma_lex_le_total(x@, y@),
                _ => (),
            }
        },
    }
}

pub proof fn lemma_le_trans(a: MediaItem, b: MediaItem, c: MediaItem, key: SortKey, desc: bool)
    requires
        spec_le(a, b, key, desc),
        spec_le(b, c, key, desc),
    ensures
        spec_le(a, c, key, desc),
{
    match key {
        SortKey::Title => if desc {
            lemma_lex_le_trans(c.title@, b.title@, a.title@);
        } else {
            lemma_lex_le_trans(a.title@, b.title@, c.title@);
        },
        SortKey::Year => (),
        SortKey::Quality => {
            match (a.quality_type, b.quality_type, c.quality_type) {
                (Some(x), Some(y), Some(z)) => if desc {
                    lemma_lex_le_trans(z@, y@, x@);
                } else {
                    lemma_lex_le_trans(x@, y@, z@);
                },
                _ => (),
            }
        },
        SortKey::Source => {
            match (a.source, b.source, c.source) {
                (Some(x), Some(y), Some(z)) => if desc {
                    lemma_lex_le_trans(z@, y@, x@);
                } else {
                    lemma_lex_le_trans(x@, y@, z@);
                },
                _ => (),
            }
        },
    }
}

/// Every pair of positions is ordered.
pub open spec fn sorted_by_key(s: Seq<MediaItem>, key: SortKey, desc: bool) -> bool {
    forall|i: int, j: int| 0 <= i < j < s.len() ==> spec_le(#[trigger] s[i], #[trigger] s[j], key, desc)
}

/// Compares two items in the listing order.
pub fn le_items(a: &MediaItem, b: &MediaItem, key: &SortKey, desc: bool) -> (r: bool)
    ensures
        r == spec_le(*a, *b, *key, desc),
{
    match key {
        SortKey::Title => if desc {
            lex_le_strings(&b.title, &a.title)
        } else {
            lex_le_strings(&a.title, &b.title)
        },
        SortKey::Year => match (a.year, b.year) {
            (Option::None, Option::None) => true,
            (Option::Some(_), Option::None) => true,
            (Option::None, Option::Some(_)) => false,
            (Option::Some(x), Option::Some(y)) => if desc {
                y <= x
            } else {
                x <= y
            },
        },
        SortKey::Quality => le_opt_strings(&a.quality_type, &b.quality_type, desc),
        SortKey::Source => le_opt_strings(&a.source, &b.source, desc),
    }
}

fn le_opt_strings(x: &Option<String>, y: &Option<String>, desc: bool) -> (r: bool)
    ensures
        r == opt_str_le(opt_view(*x), opt_view(*y), desc),
{
    match (x, y) {
        (Option::None, Option::None) => true,
        (Option::Some(_), Option::None) => true,
        (Option::None, Option::Some(_)) => false,
        (Option::Some(a), Option::Some(b)) => if desc {
            lex_le_strings(b, a)
        } else {
            lex_le_strings(a, b)
        },
    }
}

proof fn lemma_insert_multiset(s: Seq<MediaItem>, p: int, x: MediaItem)
    requires
        0 <= p <= s.len(),
    ensures
        s.take(p).push(x).add(s.skip(p)).to_multiset() =~= s.to_multiset().insert(x),
{
    broadcast use group_to_multiset_ensures;

    lemma_multiset_commutative(s.take(p).push(x), s.skip(p));
    lemma_multiset_commutative(s.take(p), s.skip(p));
    assert(s.take(p).add(s.skip(p)) =~= s);
}

/// Sorts the items in the listing order; the result holds exactly the given
/// items.
pub fn sort_items(v: Vec<MediaItem>, key: &SortKey, desc: bool) -> (r: Vec<MediaItem>)
    ensures
        sorted_by_key(r@, *key, desc),
        r@.to_multiset() == v@.to_multiset(),
{
    let n = v.len();
    let mut out: Vec<MediaItem> = Vec::new();
    proof {
        broadcast use group_to_multiset_ensures;

        assert(v@.take(0) =~= Seq::<MediaItem>::empty());
        assert(out@.to_multiset() =~= v@.take(0).to_multiset());
    }
    for i in 0..n
        invariant
            n == v@.len(),
            sorted_by_key(out@, *key, desc),
            out@.to_multiset() == v@.take(i as int).to_multiset(),
    {
        let item = v[i].duplicate();
        let mut p: usize = 0;
        while p < out.len() && le_items(&out[p], &item, key, desc)
            invariant
                p <= out@.len(),
                forall|k: int| 0 <= k < p ==> spec_le(#[trigger] out@[k], item, *key, desc),
            decreases out@.len() - p,
        {
            p = p + 1;
        }
        proof {
            if p < out@.len() {
                lemma_le_total(out@[p as int], item, *key, desc);
            }
        }
        let ghost before = out@;
        out.insert(p, item);
        proof {
            assert(out@ =~= before.take(p as int).push(item).add(before.skip(p as int)));
            lemma_insert_multiset(before, p as int, item);
            assert(v@.take(i + 1) =~= v@.take(i as int).push(v@[i as int]));
            broadcast use group_to_multiset_ensures;

            assert(out@.to_multiset() =~= v@.take(i + 1).to_multiset());
            assert forall|a: int, b: int| 0 <= a < b < out@.len() implies spec_le(
                #[trigger] out@[a],
                #[trigger] out@[b],
                *key,
                desc,
            ) by {
                if a < p && b < p {
                    assert(out@[a] == before[a] && out@[b] == before[b]);
                } else if b == p {
                    assert(out@[a] == before[a]);
                } else if a == p {
                    assert(out@[b] == before[b - 1]);
                    if p < before.len() {
                        if b - 1 > p {
                            lemma_le_trans(item, before[p as int], before[b - 1], *key, desc);
                        }
                    }
                } else if a < p {
                    assert(out@[a] == before[a] && out@[b] == before[b - 1]);
                } else {
                    assert(out@[a] == before[a - 1] && out@[b] == before[b - 1]);
                }
            }
        }
    }
    assert(v@.take(n as int) =~= v@);
    out
}

} // verus!

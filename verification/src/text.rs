//! Character-level string utilities shared by the provider adapter, the
//! catalog facade and the artwork cache: conversions between `String` and
//! `Vec<char>`, ASCII case folding, substring search, decimal formatting and
//! parsing, splitting, joining and trimming.
use vstd::prelude::*;

verus! {

/// Relies on std's String::push: appends one character at the end.
pub assume_specification[ String::push ](s: &mut String, c: char)
    ensures
        final(s)@ == old(s)@.push(c),
;

/// The characters of a string slice, in order.
pub fn to_chars(s: &str) -> (r: Vec<char>)
    ensures
        r@ == s@,
{
    let n = s.unicode_len();
    let mut r: Vec<char> = Vec::new();
    for i in 0..n
        invariant
            n == s@.len(),
            r@ == s@.subrange(0, i as int),
    {
        r.push(s.get_char(i));
    }
    assert(s@.subrange(0, n as int) =~= s@);
    r
}

/// The string holding exactly the given characters.
pub fn from_chars(v: &Vec<char>) -> (r: String)
    ensures
        r@ == v@,
{
    let mut r = String::new();
    let n = v.len();
    for i in 0..n
        invariant
            n == v@.len(),
            r@ == v@.subrange(0, i as int),
    {
        r.push(v[i]);
        assert(v@.subrange(0, i as int).push(v@[i as int]) =~= v@.subrange(0, i + 1));
    }
    assert(v@.subrange(0, n as int) =~= v@);
    r
}

/// ASCII-only lower casing of one character.
pub open spec fn spec_lower_char(c: char) -> char {
    if 'A' <= c && c <= 'Z' {
        (((c as u8) + 32) as char)
    } else {
        c
    }
}

/// Lower-cases an ASCII letter; any other character is unchanged.
pub fn lower_char(c: char) -> (r: char)
    ensures
        r == spec_lower_char(c),
{
    if 'A' <= c && c <= 'Z' {
        ((c as u8) + 32) as char
    } else {
        c
    }
}

/// ASCII-only lower casing of a character sequence.
pub open spec fn spec_lower(s: Seq<char>) -> Seq<char> {
    s.map_values(|c: char| spec_lower_char(c))
}

/// Lower-cases every ASCII letter of the input.
pub fn lower_chars(v: &Vec<char>) -> (r: Vec<char>)
    ensures
        r@ == spec_lower(v@),
{
    let n = v.len();
    let mut r: Vec<char> = Vec::new();
    for i in 0..n
        invariant
            n == v@.len(),
            r@ == spec_lower(v@.subrange(0, i as int)),
    {
        r.push(lower_char(v[i]));
        assert(r@ =~= spec_lower(v@.subrange(0, i + 1)));
    }
    assert(v@.subrange(0, n as int) =~= v@);
    r
}

/// `needle` occurs contiguously somewhere in `hay`.
pub open spec fn has_substring(hay: Seq<char>, needle: Seq<char>) -> bool {
    exists|i: int|
        0 <= i && i + needle.len() <= hay.len() && #[trigger] hay.subrange(
            i,
            i + needle.len(),
        ) == needle
}

/// The needle matches `hay` exactly at offset `at`.
fn matches_at(hay: &Vec<char>, needle: &Vec<char>, at: usize) -> (r: bool)
    requires
        at + needle@.len() <= hay@.len(),
    ensures
        r == (hay@.subrange(at as int, at + needle@.len()) == needle@),
{
    let n = hay.len();
    let m = needle.len();
    for j in 0..m
        invariant
            n == hay@.len(),
            at + m <= n,
            m == needle@.len(),
            hay@.subrange(at as int, at + j) == needle@.subrange(0, j as int),
    {
        if hay[at + j] != needle[j] {
            assert(hay@.subrange(at as int, at + m as int)[j as int] != needle@[j as int]);
            return false;
        }
        assert(hay@.subrange(at as int, at + j + 1) =~= needle@.subrange(0, j + 1));
    }
    assert(hay@.subrange(at as int, at + m as int) =~= needle@.subrange(0, m as int));
    assert(needle@.subrange(0, m as int) =~= needle@);
    true
}

/// Naive substring search; true exactly when `needle` occurs in `hay`.
pub fn contains_chars(hay: &Vec<char>, needle: &Vec<char>) -> (r: bool)
    ensures
        r == has_substring(hay@, needle@),
{
    let n = hay.len();
    let m = needle.len();
    if m > n {
        assert(!has_substring(hay@, needle@));
        return false;
    }
    let mut i: usize = 0;
    loop
        invariant
            n == hay@.len(),
            m == needle@.len(),
            m <= n,
            i <= n - m,
            forall|k: int|
                0 <= k < i ==> #[trigger] hay@.subrange(k, k + needle@.len()) != needle@,
        decreases n - m - i,
    {
        if matches_at(hay, needle, i) {
            return true;
        }
        if i == n - m {
            return false;
        }
        i = i + 1;
    }
}

/// The decimal digit character for a value below ten.
pub open spec fn digit_char(d: int) -> char {
    if d == 0 {
        '0'
    } else if d == 1 {
        '1'
    } else if d == 2 {
        '2'
    } else if d == 3 {
        '3'
    } else if d == 4 {
        '4'
    } else if d == 5 {
        '5'
    } else if d == 6 {
        '6'
    } else if d == 7 {
        '7'
    } else if d == 8 {
        '8'
    } else {
        '9'
    }
}

fn digit_to_char(d: u64) -> (r: char)
    requires
        d < 10,
    ensures
        r == digit_char(d as int),
{
    if d == 0 {
        '0'
    } else if d == 1 {
        '1'
    } else if d == 2 {
        '2'
    } else if d == 3 {
        '3'
    } else if d == 4 {
        '4'
    } else if d == 5 {
        '5'
    } else if d == 6 {
        '6'
    } else if d == 7 {
        '7'
    } else if d == 8 {
        '8'
    } else {
        '9'
    }
}

/// Decimal notation of a non-negative number, most significant digit first,
/// without leading zeros (a lone zero for zero itself).
pub open spec fn spec_fmt_nat(n: int) -> Seq<char>
    decreases n,
{
    if n < 10 {
        seq![digit_char(n)]
    } else {
        spec_fmt_nat(n / 10).push(digit_char(n % 10))
    }
}

/// Decimal notation of an integer: a leading minus sign when negative.
pub open spec fn spec_fmt_int(n: int) -> Seq<char> {
    if n < 0 {
        seq!['-'].add(spec_fmt_nat(-n))
    } else {
        spec_fmt_nat(n)
    }
}

/// Formats an unsigned number in decimal.
pub fn fmt_u64(n: u64) -> (r: String)
    ensures
        r@ == spec_fmt_nat(n as int),
    decreases n,
{
    if n < 10 {
        let mut s = String::new();
        s.push(digit_to_char(n));
        assert(s@ =~= seq![digit_char(n as int)]);
        s
    } else {
        let mut s = fmt_u64(n / 10);
        s.push(digit_to_char(n % 10));
        s
    }
}

/// Formats a signed number in decimal.
pub fn fmt_i64(n: i64) -> (r: String)
    ensures
        r@ == spec_fmt_int(n as int),
{
    if n >= 0 {
        fmt_u64(n as u64)
    } else {
        let mag: u64 = ((-(n + 1)) as u64) + 1;
        let digits = fmt_u64(mag);
        let mut s = String::new();
        s.push('-');
        assert(s@ =~= seq!['-']);
        let r = s.concat(digits.as_str());
        assert(r@ =~= seq!['-'].add(spec_fmt_nat(-(n as int))));
        r
    }
}

/// Formats a 32-bit signed number in decimal.
pub fn fmt_i32(n: i32) -> (r: String)
    ensures
        r@ == spec_fmt_int(n as int),
{
    fmt_i64(n as i64)
}

pub open spec fn is_digit(c: char) -> bool {
    '0' <= c && c <= '9'
}

pub open spec fn digit_val(c: char) -> int {
    c as int - '0' as int
}

pub open spec fn all_digits(s: Seq<char>) -> bool {
    forall|i: int| 0 <= i < s.len() ==> is_digit(#[trigger] s[i])
}

/// The number denoted by a digit string, most significant digit first.
pub open spec fn digits_val(s: Seq<char>) -> int
    decreases s.len(),
{
    if s.len() == 0 {
        0
    } else {
        digits_val(s.drop_last()) * 10 + digit_val(s.last())
    }
}

/// The integer denoted by a string under the usual decimal grammar: an
/// optional single sign followed by at least one digit, nothing else.
pub open spec fn spec_parse_int(s: Seq<char>) -> Option<int> {
    let ds = if s.len() > 0 && (s[0] == '-' || s[0] == '+') {
        s.drop_first()
    } else {
        s
    };
    if ds.len() == 0 || !all_digits(ds) {
        None
    } else if s.len() > 0 && s[0] == '-' {
        Some(-digits_val(ds))
    } else {
        Some(digits_val(ds))
    }
}

proof fn lemma_digits_val_nonneg(s: Seq<char>)
    requires
        all_digits(s),
    ensures
        digits_val(s) >= 0,
    decreases s.len(),
{
    if s.len() > 0 {
        assert(all_digits(s.drop_last())) by {
            assert(forall|i: int|
                0 <= i < s.len() - 1 ==> s.drop_last()[i] == #[trigger] s[i]);
        }
        lemma_digits_val_nonneg(s.drop_last());
    }
}

/// Extending a digit string on the right never shrinks its value.
proof fn lemma_digits_val_mono(s: Seq<char>, k: int)
    requires
        all_digits(s),
        0 <= k <= s.len(),
    ensures
        digits_val(s) >= digits_val(s.take(k)),
    decreases s.len() - k,
{
    if k < s.len() {
        assert(all_digits(s.take(k + 1))) by {
            assert(forall|i: int|
                0 <= i < k + 1 ==> s.take(k + 1)[i] == #[trigger] s[i]);
        }
        assert(s.take(k + 1).drop_last() =~= s.take(k));
        lemma_digits_val_nonneg(s.take(k));
        assert(digits_val(s.take(k + 1)) == digits_val(s.take(k)) * 10 + digit_val(
            s.take(k + 1).last(),
        ));
        assert(is_digit(s[k]));
        lemma_digits_val_mono(s, k + 1);
    } else {
        assert(s.take(k) =~= s);
    }
}

/// Parses a signed 64-bit decimal; mirrors std's grammar exactly and yields
/// nothing when the value does not fit.
pub fn parse_i64(v: &Vec<char>) -> (r: Option<i64>)
    ensures
        match spec_parse_int(v@) {
            Some(x) => if i64::MIN <= x <= i64::MAX {
                r == Some(x as i64)
            } else {
                r is None
            },
            None => r is None,
        },
{
    let n = v.len();
    let mut start: usize = 0;
    let mut neg = false;
    if n > 0 && (v[0] == '-' || v[0] == '+') {
        start = 1;
        neg = v[0] == '-';
    }
    if start >= n {
        return None;
    }
    let ghost ds = if start == 1 {
        v@.drop_first()
    } else {
        v@
    };
    assert(ds =~= v@.skip(start as int));
    let mut acc: u64 = 0;
    let mut i = start;
    while i < n
        invariant
            start <= i <= n,
            n == v@.len(),
            start < n,
            (start == 1) == (n > 0 && (v@[0] == '-' || v@[0] == '+')),
            start <= 1,
            neg == (start == 1 && v@[0] == '-'),
            ds == v@.skip(start as int),
            all_digits(ds.take(i - start)),
            acc == digits_val(ds.take(i - start)),
        decreases n - i,
    {
        let c = v[i];
        if !('0' <= c && c <= '9') {
            proof {
                assert(ds[i - start] == c);
                assert(!is_digit(c));
                assert(!all_digits(ds));
                assert(v@.drop_first() =~= v@.skip(1));
                assert(spec_parse_int(v@) is None);
            }
            return None;
        }
        let d: u64 = ((c as u8) - 48) as u64;
        assert(d == digit_val(c) && d < 10);
        let ghost prefix = ds.take(i - start + 1);
        assert(prefix.drop_last() =~= ds.take(i - start));
        assert(prefix.last() == c);
        assert(all_digits(prefix)) by {
            assert(forall|j: int|
                0 <= j < prefix.len() - 1 ==> prefix[j] == #[trigger] ds.take(i - start)[j]);
        }
        let next = match acc.checked_mul(10) {
            Some(a) => a.checked_add(d),
            None => None,
        };
        match next {
            Some(a) => {
                acc = a;
            },
            None => {
                proof {
                    // The value so far already exceeds u64::MAX, so the full
                    // digit string is out of range either way.
                    assert(v@.drop_first() =~= v@.skip(1));
                    assert(v@.skip(0) =~= v@);
                    if all_digits(ds) {
                        assert(acc * 10 + d > u64::MAX);
                        assert(digits_val(prefix) == acc * 10 + d);
                        lemma_digits_val_mono(ds, i - start + 1);
                        assert(ds.take(ds.len() as int) =~= ds);
                        assert(prefix == ds.take(i - start + 1));
                        assert(digits_val(ds) > u64::MAX);
                        assert(ds.len() > 0);
                        match spec_parse_int(v@) {
                            Some(x) => {
                                assert(x == digits_val(ds) || x == -digits_val(ds));
                                assert(x > i64::MAX || x < i64::MIN);
                            },
                            None => {
                                assert(false);
                            },
                        }
                    } else {
                        assert(spec_parse_int(v@) is None);
                    }
                }
                return None;
            },
        }
        i = i + 1;
    }
    assert(ds.take(ds.len() as int) =~= ds);
    assert(acc == digits_val(ds) && all_digits(ds));
    if neg {
        if acc <= 9_223_372_036_854_775_807u64 {
            Some(-(acc as i64))
        } else if acc == 9_223_372_036_854_775_808u64 {
            Some(i64::MIN)
        } else {
            None
        }
    } else {
        if acc <= 9_223_372_036_854_775_807u64 {
            Some(acc as i64)
        } else {
            None
        }
    }
}

/// The whitespace recognized by trimming: the Unicode white-space
/// characters, the set std's trim removes.
pub open spec fn is_space(c: char) -> bool {
    ||| c == '\t'
    ||| c == '\n'
    ||| c == '\u{000B}'
    ||| c == '\u{000C}'
    ||| c == '\r'
    ||| c == ' '
    ||| c == '\u{0085}'
    ||| c == '\u{00A0}'
    ||| c == '\u{1680}'
    ||| ('\u{2000}' <= c && c <= '\u{200A}')
    ||| c == '\u{2028}'
    ||| c == '\u{2029}'
    ||| c == '\u{202F}'
    ||| c == '\u{205F}'
    ||| c == '\u{3000}'
}

pub open spec fn spec_drop_leading(s: Seq<char>) -> Seq<char>
    decreases s.len(),
{
    if s.len() > 0 && is_space(s[0]) {
        spec_drop_leading(s.drop_first())
    } else {
        s
    }
}

pub open spec fn spec_drop_trailing(s: Seq<char>) -> Seq<char>
    decreases s.len(),
{
    if s.len() > 0 && is_space(s.last()) {
        spec_drop_trailing(s.drop_last())
    } else {
        s
    }
}

/// The string without its leading and trailing whitespace.
pub open spec fn spec_trim(s: Seq<char>) -> Seq<char> {
    spec_drop_trailing(spec_drop_leading(s))
}

proof fn lemma_drop_leading_skip(s: Seq<char>, k: int)
    requires
        0 <= k <= s.len(),
        forall|i: int| 0 <= i < k ==> is_space(#[trigger] s[i]),
    ensures
        spec_drop_leading(s) == spec_drop_leading(s.skip(k)),
    decreases k,
{
    if k == 0 {
        assert(s.skip(0) =~= s);
    } else {
        assert(is_space(s[0]));
        assert(s.drop_first() =~= s.skip(1));
        assert(s.skip(1).skip(k - 1) =~= s.skip(k));
        lemma_drop_leading_skip(s.skip(1), k - 1);
    }
}

proof fn lemma_drop_trailing_take(s: Seq<char>, k: int)
    requires
        0 <= k <= s.len(),
        forall|i: int| k <= i < s.len() ==> is_space(#[trigger] s[i]),
    ensures
        spec_drop_trailing(s) == spec_drop_trailing(s.take(k)),
    decreases s.len() - k,
{
    if k == s.len() {
        assert(s.take(k) =~= s);
    } else {
        assert(is_space(s.last()));
        assert(s.drop_last() =~= s.take(s.len() - 1));
        lemma_drop_trailing_take(s.take(s.len() - 1), k);
        assert(s.take(s.len() - 1).take(k) =~= s.take(k));
    }
}

/// Removes leading and trailing whitespace.
pub fn trim_chars(v: &Vec<char>) -> (r: Vec<char>)
    ensures
        r@ == spec_trim(v@),
{
    let n = v.len();
    let mut lo: usize = 0;
    while lo < n && space_char(v[lo])
        invariant
            lo <= n,
            n == v@.len(),
            forall|i: int| 0 <= i < lo ==> is_space(#[trigger] v@[i]),
        decreases n - lo,
    {
        lo = lo + 1;
    }
    proof {
        lemma_drop_leading_skip(v@, lo as int);
        if lo < n {
            assert(!is_space(v@.skip(lo as int)[0]));
        }
        assert(spec_drop_leading(v@) == v@.skip(lo as int));
    }
    let ghost t = v@.skip(lo as int);
    let mut hi: usize = n;
    while hi > lo && space_char(v[hi - 1])
        invariant
            lo <= hi <= n,
            n == v@.len(),
            t == v@.skip(lo as int),
            forall|i: int| hi <= i < n ==> is_space(#[trigger] v@[i]),
        decreases hi,
    {
        hi = hi - 1;
    }
    proof {
        assert(forall|i: int|
            hi - lo <= i < t.len() ==> is_space(#[trigger] t[i]));
        lemma_drop_trailing_take(t, hi - lo);
        if hi > lo {
            assert(t.take(hi - lo).last() == v@[hi - 1]);
            assert(!is_space(t.take(hi - lo).last()));
        }
        assert(spec_drop_trailing(t) == t.take(hi - lo));
    }
    let mut r: Vec<char> = Vec::new();
    for i in lo..hi
        invariant
            lo <= hi <= n,
            n == v@.len(),
            r@ == v@.subrange(lo as int, i as int),
    {
        r.push(v[i]);
        assert(r@ =~= v@.subrange(lo as int, i + 1));
    }
    assert(r@ =~= v@.skip(lo as int).take(hi - lo));
    r
}

/// Whether the character counts as whitespace for trimming.
pub fn space_char(c: char) -> (r: bool)
    ensures
        r == is_space(c),
{
    c == '\t' || c == '\n' || c == '\u{000B}' || c == '\u{000C}' || c == '\r' || c == ' ' || c
        == '\u{0085}' || c == '\u{00A0}' || c == '\u{1680}' || ('\u{2000}' <= c && c
        <= '\u{200A}') || c == '\u{2028}' || c == '\u{2029}' || c == '\u{202F}' || c == '\u{205F}'
        || c == '\u{3000}'
}

/// The views of a vector of character vectors.
pub open spec fn char_views(vs: Seq<Vec<char>>) -> Seq<Seq<char>> {
    vs.map_values(|x: Vec<char>| x@)
}

/// The views of a vector of strings.
pub open spec fn string_views(vs: Seq<String>) -> Seq<Seq<char>> {
    vs.map_values(|x: String| x@)
}

/// The segments of a string around a separator, in order. Always at least
/// one segment; adjacent separators yield empty segments.
pub open spec fn spec_split(s: Seq<char>, sep: char) -> Seq<Seq<char>>
    decreases s.len(),
{
    if s.len() == 0 {
        seq![s]
    } else if s[0] == sep {
        seq![Seq::<char>::empty()].add(spec_split(s.drop_first(), sep))
    } else {
        let rest = spec_split(s.drop_first(), sep);
        seq![seq![s[0]].add(rest[0])].add(rest.drop_first())
    }
}

pub proof fn lemma_split_len(s: Seq<char>, sep: char)
    ensures
        spec_split(s, sep).len() >= 1,
    decreases s.len(),
{
    if s.len() > 0 {
        lemma_split_len(s.drop_first(), sep);
    }
}

/// A separator-free string splits into exactly itself.
pub proof fn lemma_split_no_sep(s: Seq<char>, sep: char)
    requires
        forall|i: int| 0 <= i < s.len() ==> #[trigger] s[i] != sep,
    ensures
        spec_split(s, sep) == seq![s],
    decreases s.len(),
{
    if s.len() == 0 {
    } else {
        assert(forall|i: int|
            0 <= i < s.drop_first().len() ==> #[trigger] s.drop_first()[i] == s[i + 1]);
        lemma_split_no_sep(s.drop_first(), sep);
        assert(seq![seq![s[0]].add(s.drop_first())].add(seq![s.drop_first()].drop_first())
            =~= seq![seq![s[0]].add(s.drop_first())]);
        assert(seq![s[0]].add(s.drop_first()) =~= s);
    }
}

/// Splitting peels one separator-free segment off the front.
pub proof fn lemma_split_peel(a: Seq<char>, b: Seq<char>, sep: char)
    requires
        forall|i: int| 0 <= i < a.len() ==> #[trigger] a[i] != sep,
    ensures
        spec_split(a.add(seq![sep]).add(b), sep) == seq![a].add(spec_split(b, sep)),
    decreases a.len(),
{
    let s = a.add(seq![sep]).add(b);
    if a.len() == 0 {
        assert(s[0] == sep);
        assert(s.drop_first() =~= b);
        assert(a =~= Seq::<char>::empty());
        assert(seq![Seq::<char>::empty()].add(spec_split(b, sep)) =~= seq![a].add(
            spec_split(b, sep),
        ));
    } else {
        assert(s[0] == a[0] && a[0] != sep);
        let a1 = a.drop_first();
        assert(forall|i: int| 0 <= i < a1.len() ==> #[trigger] a1[i] == a[i + 1]);
        lemma_split_peel(a1, b, sep);
        assert(s.drop_first() =~= a1.add(seq![sep]).add(b));
        let rest = spec_split(s.drop_first(), sep);
        assert(rest == seq![a1].add(spec_split(b, sep)));
        lemma_split_len(b, sep);
        assert(rest[0] == a1);
        assert(seq![s[0]].add(rest[0]) =~= a);
        assert(rest.drop_first() =~= spec_split(b, sep));
        assert(seq![seq![s[0]].add(rest[0])].add(rest.drop_first()) =~= seq![a].add(
            spec_split(b, sep),
        ));
    }
}

/// Splits a string at every occurrence of the separator.
pub fn split_chars(v: &Vec<char>, sep: char) -> (r: Vec<Vec<char>>)
    ensures
        char_views(r@) == spec_split(v@, sep),
        r@.len() >= 1,
{
    let n = v.len();
    let mut out: Vec<Vec<char>> = Vec::new();
    let mut pos: usize = 0;
    proof {
        assert(v@.skip(0) =~= v@);
        assert(char_views(out@).add(spec_split(v@, sep)) =~= spec_split(v@, sep));
    }
    loop
        invariant
            pos <= n,
            n == v@.len(),
            spec_split(v@, sep) == char_views(out@).add(spec_split(v@.skip(pos as int), sep)),
        decreases n - pos,
    {
        let mut j = pos;
        while j < n && v[j] != sep
            invariant
                pos <= j <= n,
                n == v@.len(),
                forall|k: int| pos <= k < j ==> #[trigger] v@[k] != sep,
            decreases n - j,
        {
            j = j + 1;
        }
        let mut seg: Vec<char> = Vec::new();
        let mut k = pos;
        while k < j
            invariant
                pos <= k <= j <= n,
                n == v@.len(),
                seg@ == v@.subrange(pos as int, k as int),
            decreases j - k,
        {
            seg.push(v[k]);
            assert(seg@ =~= v@.subrange(pos as int, k + 1));
            k = k + 1;
        }
        let ghost a = v@.subrange(pos as int, j as int);
        proof {
            assert(forall|i: int| 0 <= i < a.len() ==> #[trigger] a[i] != sep);
        }
        if j == n {
            proof {
                assert(v@.skip(pos as int) =~= a);
                lemma_split_no_sep(a, sep);
                assert(char_views(out@.push(seg)) =~= char_views(out@).add(seq![a]));
            }
            out.push(seg);
            proof {
                lemma_split_len(v@, sep);
            }
            return out;
        }
        proof {
            assert(v@[j as int] == sep);
            assert(v@.skip(pos as int) =~= a.add(seq![sep]).add(v@.skip(j + 1)));
            lemma_split_peel(a, v@.skip(j + 1), sep);
            assert(char_views(out@.push(seg)) =~= char_views(out@).add(seq![a]));
            assert(char_views(out@.push(seg)).add(spec_split(v@.skip(j + 1), sep))
                =~= char_views(out@).add(spec_split(v@.skip(pos as int), sep)));
        }
        out.push(seg);
        pos = j + 1;
    }
}

/// A string with the separator somewhere splits into at least two parts.
pub proof fn lemma_split_has_sep(s: Seq<char>, sep: char)
    requires
        exists|i: int| 0 <= i < s.len() && s[i] == sep,
    ensures
        spec_split(s, sep).len() >= 2,
    decreases s.len(),
{
    let i = choose|i: int| 0 <= i < s.len() && s[i] == sep;
    if s[0] == sep {
        lemma_split_len(s.drop_first(), sep);
    } else {
        assert(s.drop_first()[i - 1] == sep);
        lemma_split_has_sep(s.drop_first(), sep);
    }
}

/// Whether one character vector starts with another.
pub fn has_prefix_chars(s: &Vec<char>, p: &Vec<char>) -> (r: bool)
    ensures
        r == (s@.len() >= p@.len() && s@.take(p@.len() as int) == p@),
{
    if s.len() < p.len() {
        return false;
    }
    let m = matches_at(s, p, 0);
    assert(s@.subrange(0, p@.len() as int) == s@.take(p@.len() as int));
    m
}

/// Whether two character vectors hold the same characters.
pub fn chars_eq(a: &Vec<char>, b: &Vec<char>) -> (r: bool)
    ensures
        r == (a@ == b@),
{
    if a.len() != b.len() {
        return false;
    }
    let m = matches_at(a, b, 0);
    assert(a@.subrange(0, b@.len() as int) =~= a@);
    m
}

/// The parts joined with the separator between consecutive parts.
pub open spec fn spec_join(parts: Seq<Seq<char>>, sep: char) -> Seq<char>
    decreases parts.len(),
{
    if parts.len() == 0 {
        Seq::<char>::empty()
    } else if parts.len() == 1 {
        parts[0]
    } else {
        spec_join(parts.drop_last(), sep).push(sep).add(parts.last())
    }
}

/// Joins strings with a single-character separator.
pub fn join_strings(parts: &Vec<String>, sep: char) -> (r: String)
    ensures
        r@ == spec_join(string_views(parts@), sep),
{
    let mut r = String::new();
    let n = parts.len();
    for i in 0..n
        invariant
            n == parts@.len(),
            r@ == spec_join(string_views(parts@).take(i as int), sep),
    {
        if i > 0 {
            r.push(sep);
        }
        r.append(parts[i].as_str());
        proof {
            let views = string_views(parts@);
            assert(views.take(i + 1).drop_last() =~= views.take(i as int));
            assert(views.take(i + 1).last() == parts@[i as int]@);
        }
    }
    assert(string_views(parts@).take(n as int) =~= string_views(parts@));
    r
}

} // verus!

//! Artwork cache: content-addressed filenames for remote poster images,
//! the at-most-once-download materialization rule, the path-scoped eviction
//! guard, and the read-model poster resolution.
use vstd::prelude::*;
use vstd::string::StringSliceAdditionalSpecFns;

use crate::text::{
    chars_eq, from_chars, has_prefix_chars, lemma_split_has_sep, lemma_split_len,
    lemma_split_no_sep, spec_split, split_chars, to_chars, char_views,
};

verus! {

/// Name for the SHA-256 digest: a function of the input bytes alone.
pub uninterp spec fn sha256_of(data: Seq<u8>) -> Seq<u8>;

/// Relies on sha2::Sha256: the 32-byte SHA-256 digest of the input,
/// determined by the input bytes alone.
#[verifier::external_body]
fn sha256_digest(data: &[u8]) -> (r: Vec<u8>)
    ensures
        r@ == sha256_of(data@),
        r@.len() == 32,
{
    let digest = <sha2::Sha256 as sha2::Digest>::digest(data);
    digest.to_vec()
}

/// The lowercase hexadecimal digit for a value below sixteen.
pub open spec fn hex_digit(d: int) -> char {
    if d == 0 {
        '0'
    } else if d == 1 {
        '1'
    } else if d == 2 {
        '2'
    } else if d == 3 {
        '3'
    } else if d == 4 {
        '4'
    } else if d == 5 {
        '5'
    } else if d == 6 {
        '6'
    } else if d == 7 {
        '7'
    } else if d == 8 {
        '8'
    } else if d == 9 {
        '9'
    } else if d == 10 {
        'a'
    } else if d == 11 {
        'b'
    } else if d == 12 {
        'c'
    } else if d == 13 {
        'd'
    } else if d == 14 {
        'e'
    } else {
        'f'
    }
}

/// Lowercase hex encoding: two digits per byte, high nibble first.
pub open spec fn spec_hex(data: Seq<u8>) -> Seq<char>
    decreases data.len(),
{
    if data.len() == 0 {
        Seq::<char>::empty()
    } else {
        seq![hex_digit(data.first() as int / 16), hex_digit(data.first() as int % 16)].add(
            spec_hex(data.drop_first()),
        )
    }
}

pub proof fn lemma_spec_hex_len(data: Seq<u8>)
    ensures
        spec_hex(data).len() == 2 * data.len(),
    decreases data.len(),
{
    if data.len() > 0 {
        lemma_spec_hex_len(data.drop_first());
    }
}

/// Relies on hex::encode: the lowercase hex string of the bytes, two digits
/// per byte with the high nibble first.
#[verifier::external_body]
fn hex_encode(data: &[u8]) -> (r: String)
    ensures
        r@ == spec_hex(data@),
{
    hex::encode(data)
}

/// The extension of a cache filename: the part of the URL's trailing path
/// segment after its last dot, or `jpg` when the segment has no dot.
pub open spec fn spec_cache_ext(url: Seq<char>) -> Seq<char> {
    let seg = spec_split(url, '/').last();
    if exists|i: int| 0 <= i < seg.len() && seg[i] == '.' {
        spec_split(seg, '.').last()
    } else {
        "jpg"@
    }
}

/// The first sixteen hex digits of the SHA-256 digest of the URL bytes.
pub open spec fn spec_cache_key(url: Seq<char>) -> Seq<char> {
    spec_hex(sha256_of(vstd::utf8::encode_utf8(url))).take(16)
}

/// The deterministic cache filename of a source URL:
/// `<16-hex-digest-chars>.<ext>`.
pub open spec fn spec_cache_filename(url: Seq<char>) -> Seq<char> {
    spec_cache_key(url).add(seq!['.']).add(spec_cache_ext(url))
}

/// Computes the content-addressed cache filename of a source URL. The name
/// is a function of the URL alone, so repeated materializations of one URL
/// always resolve to the same local path.
pub fn cache_filename(url: &str) -> (r: String)
    ensures
        r@ == spec_cache_filename(url@),
        r@.len() == 17 + spec_cache_ext(url@).len(),
{
    let digest = sha256_digest(url.as_bytes());
    let hexs = hex_encode(digest.as_slice());
    proof {
        lemma_spec_hex_len(digest@);
    }
    let key = hexs.as_str().substring_char(0, 16);
    assert(key@ =~= spec_cache_key(url@));
    let chars = to_chars(url);
    let parts = split_chars(&chars, '/');
    let seg = &parts[parts.len() - 1];
    proof {
        assert(char_views(parts@).last() == seg@);
        assert(seg@ == spec_split(url@, '/').last());
    }
    let dots = split_chars(seg, '.');
    let ext: String = if dots.len() >= 2 {
        proof {
            assert(char_views(dots@).len() == dots@.len());
            if forall|i: int| 0 <= i < seg@.len() ==> #[trigger] seg@[i] != '.' {
                lemma_split_no_sep(seg@, '.');
                assert(char_views(dots@).len() == 1);
                assert(false);
            }
            assert(exists|i: int| 0 <= i < seg@.len() && seg@[i] == '.');
            assert(char_views(dots@).last() == spec_split(seg@, '.').last());
        }
        from_chars(&dots[dots.len() - 1])
    } else {
        proof {
            if exists|i: int| 0 <= i < seg@.len() && seg@[i] == '.' {
                lemma_split_has_sep(seg@, '.');
            }
        }
        String::from_str("jpg")
    };
    let mut name = String::from_str(key);
    name.push('.');
    let r = name.concat(ext.as_str());
    assert(r@ =~= spec_cache_filename(url@));
    r
}

/// Distinct sixteen-digit keys give distinct cache paths, whatever the
/// extensions are. The key length hypotheses hold of every real digest
/// (SHA-256 yields 32 bytes, so 64 hex digits); the key inequality is the
/// assumed absence of truncated-digest collisions.
pub proof fn lemma_distinct_keys_distinct_paths(u1: Seq<char>, u2: Seq<char>)
    requires
        spec_cache_key(u1).len() == 16,
        spec_cache_key(u2).len() == 16,
        spec_cache_key(u1) != spec_cache_key(u2),
    ensures
        spec_cache_filename(u1) != spec_cache_filename(u2),
{
    let k1 = spec_cache_key(u1);
    let k2 = spec_cache_key(u2);
    assert(exists|i: int| 0 <= i < 16 && k1[i] != k2[i]) by {
        if forall|i: int| 0 <= i < 16 ==> #[trigger] k1[i] == k2[i] {
            assert(k1 =~= k2);
        }
    }
    let i = choose|i: int| 0 <= i < 16 && k1[i] != k2[i];
    assert(spec_cache_filename(u1)[i] == k1[i]);
    assert(spec_cache_filename(u2)[i] == k2[i]);
}

/// What one materialization does to the set of cached files: nothing when
/// the name is already present (no download), otherwise the file is fetched
/// once and recorded. The boolean says whether a download happened.
pub open spec fn spec_materialize(files: Seq<Seq<char>>, name: Seq<char>) -> (Seq<Seq<char>>, bool) {
    if files.contains(name) {
        (files, false)
    } else {
        (files.push(name), true)
    }
}

/// Materializing a name twice downloads at most once: the second call never
/// fetches and leaves the cache unchanged.
pub proof fn lemma_materialize_at_most_once(files: Seq<Seq<char>>, name: Seq<char>)
    ensures
        !spec_materialize(spec_materialize(files, name).0, name).1,
        spec_materialize(spec_materialize(files, name).0, name).0 == spec_materialize(
            files,
            name,
        ).0,
{
    let f1 = spec_materialize(files, name).0;
    if !files.contains(name) {
        assert(f1[f1.len() - 1] == name);
        assert(f1.contains(name));
    }
}

/// The model of the cache directory a materialization session works
/// against: the filenames known to be present.
pub struct CacheModel {
    pub files: Vec<String>,
}

impl CacheModel {
    pub open spec fn names(self) -> Seq<Seq<char>> {
        self.files@.map_values(|f: String| f@)
    }

    /// An empty cache directory.
    pub fn new() -> (r: CacheModel)
        ensures
            r.names() =~= Seq::<Seq<char>>::empty(),
    {
        CacheModel { files: Vec::new() }
    }

    /// Whether a filename is already cached.
    pub fn contains(&self, name: &String) -> (r: bool)
        ensures
            r == self.names().contains(name@),
    {
        let n = self.files.len();
        for i in 0..n
            invariant
                n == self.files@.len(),
                forall|k: int| 0 <= k < i ==> #[trigger] self.names()[k] != name@,
        {
            if self.files[i].eq(name) {
                assert(self.names()[i as int] == name@);
                return true;
            }
            assert(self.names()[i as int] == self.files@[i as int]@);
        }
        assert forall|k: int| 0 <= k < self.names().len() implies #[trigger] self.names()[k]
            != name@ by {}
        false
    }

    /// Decides one materialization: answers whether the caller must
    /// download, and records the name as cached either way. Follows
    /// `spec_materialize`, so a second call for the same name never asks
    /// for a download.
    pub fn materialize(&mut self, name: String) -> (fetched: bool)
        ensures
            (final(self).names(), fetched) == spec_materialize(old(self).names(), name@),
    {
        if self.contains(&name) {
            false
        } else {
            let ghost before = self.names();
            self.files.push(name);
            assert(self.names() =~= before.push(name@));
            true
        }
    }
}

/// Whether a stored path may be evicted: only paths lexically inside the
/// managed cache directory (a path segment equal to the cache marker) may
/// ever be deleted, so a malformed stored path can never delete an
/// arbitrary file.
pub fn should_evict(path: &str) -> (r: bool)
    ensures
        r == spec_split(path@, '/').contains("image_cache"@),
{
    let chars = to_chars(path);
    let parts = split_chars(&chars, '/');
    let probe = to_chars("image_cache");
    let n = parts.len();
    for i in 0..n
        invariant
            n == parts@.len(),
            probe@ == "image_cache"@,
            char_views(parts@) == spec_split(path@, '/'),
            forall|k: int| 0 <= k < i ==> #[trigger] char_views(parts@)[k] != "image_cache"@,
    {
        if chars_eq(&parts[i], &probe) {
            assert(char_views(parts@)[i as int] == "image_cache"@);
            assert(spec_split(path@, '/').contains("image_cache"@));
            return true;
        }
        assert(char_views(parts@)[i as int] == parts@[i as int]@);
    }
    assert forall|k: int| 0 <= k < spec_split(path@, '/').len() implies #[trigger] spec_split(
        path@,
        '/',
    )[k] != "image_cache"@ by {}
    false
}

/// The displayable form of a stored poster path, given whether the file
/// still exists on disk: an existing file resolves to a `file://`
/// reference, anything else to "no artwork" rather than a broken reference.
pub fn resolve_poster(poster_path: Option<&str>, file_exists: bool) -> (r: (String, bool))
    ensures
        match poster_path {
            Some(p) => if p@.len() > 0 && file_exists {
                r.1 == true && r.0@ == "file://"@.add(p@)
            } else {
                r.1 == false && r.0@ == Seq::<char>::empty()
            },
            None => r.1 == false && r.0@ == Seq::<char>::empty(),
        },
{
    match poster_path {
        Some(p) => {
            if !p.is_empty() && file_exists {
                let prefix = String::from_str("file://");
                (prefix.concat(p), true)
            } else {
                (String::new(), false)
            }
        },
        None => (String::new(), false),
    }
}

/// Strips the asset-scheme prefix a stored poster reference may carry,
/// yielding the plain filesystem path the read model should check.
pub fn normalize_poster_path(url: &str) -> (r: String)
    ensures
        ({
            let p = "asset://localhost/"@;
            if url@.len() >= p.len() && url@.take(p.len() as int) == p {
                r@ == url@.skip(p.len() as int)
            } else {
                r@ == url@
            }
        }),
{
    let chars = to_chars(url);
    let prefix = to_chars("asset://localhost/");
    if has_prefix_chars(&chars, &prefix) {
        let mut out: Vec<char> = Vec::new();
        let n = chars.len();
        let start = prefix.len();
        for i in start..n
            invariant
                start <= i <= n,
                n == chars@.len(),
                start == prefix@.len(),
                prefix@.len() <= chars@.len(),
                chars@ == url@,
                prefix@ == "asset://localhost/"@,
                out@ == chars@.subrange(start as int, i as int),
        {
            out.push(chars[i]);
            assert(out@ =~= chars@.subrange(start as int, i + 1));
        }
        assert(out@ =~= url@.skip(start as int));
        from_chars(&out)
    } else {
        String::from_str(url)
    }
}

} // verus!

//! The corpus repository: known content hashes, filename keywords and
//! perceptual hashes, with case-insensitive lookups.
//!
//! Hashes and keywords are lowercased on insertion and queries are
//! lowercased before comparison, so lookups never depend on case. When
//! several stored keywords occur in one filename, the first inserted match
//! wins — the deterministic tie-break this library commits to.
use vstd::prelude::*;

verus! {

use crate::phash::spec_distance;
use crate::phash::distance;
use crate::text::lower_of;
use crate::text::lowercase;
use crate::text::ascii_lower_chars;
use crate::text::ascii_case_variant;
use crate::text::is_substr;
use crate::text::contains_str;

/// Insertion into a duplicate-free store: appended only when absent.
pub open spec fn add_entry(s: Seq<Seq<char>>, x: Seq<char>) -> Seq<Seq<char>> {
    if s.contains(x) {
        s
    } else {
        s.push(x)
    }
}

/// No entry occurs twice.
pub open spec fn distinct_entries(s: Seq<Seq<char>>) -> bool {
    forall|i: int, j: int| 0 <= i < j < s.len() ==> s[i] != s[j]
}

/// The store holds the lowercase form of the queried hash.
pub open spec fn spec_contains_hash(hashes: Seq<Seq<char>>, query: Seq<char>) -> bool {
    hashes.contains(lower_of(query))
}

/// Some stored keyword occurs in the already case-folded filename.
pub open spec fn keyword_hit_in(keywords: Seq<Seq<char>>, folded: Seq<char>) -> bool {
    exists|i: int| 0 <= i < keywords.len() && is_substr(#[trigger] keywords[i], folded)
}

/// Some stored keyword occurs in the lowercased filename.
pub open spec fn spec_keyword_hit(keywords: Seq<Seq<char>>, filename: Seq<char>) -> bool {
    keyword_hit_in(keywords, lower_of(filename))
}

/// `kw` is a stored keyword, it occurs in the already case-folded
/// filename, and no keyword stored before it does: the first-inserted
/// match wins.
pub open spec fn first_keyword_hit_in(
    kws: Seq<Seq<char>>,
    folded: Seq<char>,
    kw: Seq<char>,
) -> bool {
    exists|i: int|
        0 <= i < kws.len() && #[trigger] kws[i] == kw && is_substr(kw, folded) && (forall|j: int|
            0 <= j < i ==> !is_substr(#[trigger] kws[j], folded))
}

/// `first_keyword_hit_in`, with the filename folded by `lower_of`.
pub open spec fn first_keyword_hit(kws: Seq<Seq<char>>, filename: Seq<char>, kw: Seq<char>) -> bool {
    first_keyword_hit_in(kws, lower_of(filename), kw)
}

/// Some stored perceptual hash lies within `max_distance` of `phash`.
pub open spec fn spec_phash_hit(phashes: Seq<u64>, phash: u64, max_distance: u32) -> bool {
    exists|i: int|
        0 <= i < phashes.len() && spec_distance(#[trigger] phashes[i], phash) <= max_distance
}

/// `d` is the least Hamming distance any stored perceptual hash has from
/// `phash`, and it lies within the allowed maximum.
pub open spec fn is_best_distance(phashes: Seq<u64>, phash: u64, max_distance: u32, d: u32) -> bool {
    &&& d <= max_distance
    &&& exists|i: int| 0 <= i < phashes.len() && spec_distance(#[trigger] phashes[i], phash) == d
    &&& forall|i: int|
        0 <= i < phashes.len() ==> spec_distance(#[trigger] phashes[i], phash) >= d
}

/// The corpus store: concurrent plumbing is the caller's concern, so the
/// operations here mutate the store directly and say exactly what they do
/// to its three views.
pub trait Repository: Sized {
    /// Stored keywords (lowercased), in insertion order.
    spec fn keywords(&self) -> Seq<Seq<char>>;

    /// Stored content hashes (lowercased), in insertion order.
    spec fn hashes(&self) -> Seq<Seq<char>>;

    /// Stored perceptual hashes, duplicates allowed.
    spec fn phashes(&self) -> Seq<u64>;

    /// Well-formedness: keyword and hash stores are duplicate-free.
    spec fn inv(&self) -> bool;

    /// Stores the lowercase form of `keyword` unless already present; for
    /// an ASCII keyword the stored form is the pointwise ASCII folding.
    fn add_keyword(&mut self, keyword: &str)
        requires
            old(self).inv(),
        ensures
            final(self).inv(),
            final(self).keywords() == add_entry(old(self).keywords(), lower_of(keyword@)),
            vstd::utf8::is_ascii_chars(keyword@) ==> final(self).keywords() == add_entry(
                old(self).keywords(),
                ascii_lower_chars(keyword@),
            ),
            final(self).hashes() == old(self).hashes(),
            final(self).phashes() == old(self).phashes(),
    ;

    /// Stores the lowercase form of `hash` unless already present; for an
    /// ASCII hash the stored form is the pointwise ASCII folding.
    fn add_hash(&mut self, hash: &str)
        requires
            old(self).inv(),
        ensures
            final(self).inv(),
            final(self).hashes() == add_entry(old(self).hashes(), lower_of(hash@)),
            vstd::utf8::is_ascii_chars(hash@) ==> final(self).hashes() == add_entry(
                old(self).hashes(),
                ascii_lower_chars(hash@),
            ),
            final(self).keywords() == old(self).keywords(),
            final(self).phashes() == old(self).phashes(),
    ;

    /// Appends a perceptual hash; duplicates are kept.
    fn add_phash(&mut self, phash: u64)
        requires
            old(self).inv(),
        ensures
            final(self).inv(),
            final(self).phashes() == old(self).phashes().push(phash),
            final(self).keywords() == old(self).keywords(),
            final(self).hashes() == old(self).hashes(),
    ;

    /// Empties the keyword store.
    fn remove_all_keywords(&mut self)
        requires
            old(self).inv(),
        ensures
            final(self).inv(),
            final(self).keywords() == Seq::<Seq<char>>::empty(),
            final(self).hashes() == old(self).hashes(),
            final(self).phashes() == old(self).phashes(),
    ;

    /// Empties the hash store.
    fn remove_all_hash(&mut self)
        requires
            old(self).inv(),
        ensures
            final(self).inv(),
            final(self).hashes() == Seq::<Seq<char>>::empty(),
            final(self).keywords() == old(self).keywords(),
            final(self).phashes() == old(self).phashes(),
    ;

    /// Empties the perceptual-hash store.
    fn remove_all_phash(&mut self)
        requires
            old(self).inv(),
        ensures
            final(self).inv(),
            final(self).phashes() == Seq::<u64>::empty(),
            final(self).keywords() == old(self).keywords(),
            final(self).hashes() == old(self).hashes(),
    ;

    /// Returns the first stored keyword (in insertion order) that occurs in
    /// the lowercased filename, or nothing when none occurs.
    fn contains_keyword(&self, filename: &str) -> (r: Option<String>)
        requires
            self.inv(),
        ensures
            r is None <==> !spec_keyword_hit(self.keywords(), filename@),
            r matches Some(kw) ==> first_keyword_hit(self.keywords(), filename@, kw@),
            vstd::utf8::is_ascii_chars(filename@) ==> ((r is None) <==> !keyword_hit_in(
                self.keywords(),
                ascii_lower_chars(filename@),
            )),
            vstd::utf8::is_ascii_chars(filename@) ==> (r matches Some(kw)
                ==> first_keyword_hit_in(self.keywords(), ascii_lower_chars(filename@), kw@)),
    ;

    /// Case-insensitive exact lookup of a content hash.
    fn contains_hash(&self, hash: &str) -> (r: bool)
        requires
            self.inv(),
        ensures
            r == spec_contains_hash(self.hashes(), hash@),
            vstd::utf8::is_ascii_chars(hash@) ==> r == self.hashes().contains(
                ascii_lower_chars(hash@),
            ),
    ;

    /// Least Hamming distance from `phash` to any stored perceptual hash,
    /// if that minimum lies within `max_distance`; nothing otherwise.
    fn match_phash(&self, phash: u64, max_distance: u32) -> (r: Option<u32>)
        requires
            self.inv(),
        ensures
            r is Some <==> spec_phash_hit(self.phashes(), phash, max_distance),
            r matches Some(d) ==> is_best_distance(self.phashes(), phash, max_distance, d),
    ;

    /// Number of stored keywords.
    fn count_keyword(&self) -> (r: usize)
        requires
            self.inv(),
        ensures
            r == self.keywords().len(),
    ;

    /// Number of stored content hashes.
    fn count_hash(&self) -> (r: usize)
        requires
            self.inv(),
        ensures
            r == self.hashes().len(),
    ;

    /// Number of stored perceptual hashes.
    fn count_phash(&self) -> (r: usize)
        requires
            self.inv(),
        ensures
            r == self.phashes().len(),
    ;

    /// Empties all three stores.
    fn clear(&mut self)
        requires
            old(self).inv(),
        ensures
            final(self).inv(),
            final(self).keywords() == Seq::<Seq<char>>::empty(),
            final(self).hashes() == Seq::<Seq<char>>::empty(),
            final(self).phashes() == Seq::<u64>::empty(),
    ;

    /// A copy of the stored keywords, in insertion order.
    fn load_keywords(&self) -> (r: Vec<String>)
        requires
            self.inv(),
        ensures
            r@.map_values(|s: String| s@) == self.keywords(),
    ;
}

/// Whether a duplicate-free string store holds `s`.
fn store_contains(store: &Vec<String>, s: &str) -> (r: bool)
    ensures
        r == store@.map_values(|x: String| x@).contains(s@),
{
    let view = Ghost(store@.map_values(|x: String| x@));
    let mut i: usize = 0;
    while i < store.len()
        invariant
            view@ == store@.map_values(|x: String| x@),
            view@.len() == store@.len(),
            i <= store@.len(),
            forall|j: int| 0 <= j < i ==> view@[j] != s@,
        decreases store@.len() - i,
    {
        if crate::text::str_eq(store[i].as_str(), s) {
            proof {
                assert(view@[i as int] == s@);
            }
            return true;
        }
        i = i + 1;
    }
    proof {
        if view@.contains(s@) {
            let w = choose|j: int| 0 <= j < view@.len() && view@[j] == s@;
            assert(view@[w] != s@);
        }
    }
    false
}

/// Inserts the (already lowercased) string unless present.
fn store_insert(store: &mut Vec<String>, s: String)
    requires
        distinct_entries(old(store)@.map_values(|x: String| x@)),
    ensures
        final(store)@.map_values(|x: String| x@) == add_entry(
            old(store)@.map_values(|x: String| x@),
            s@,
        ),
        distinct_entries(final(store)@.map_values(|x: String| x@)),
{
    let ghost old_view = store@.map_values(|x: String| x@);
    if !store_contains(store, s.as_str()) {
        store.push(s);
        proof {
            assert(store@.map_values(|x: String| x@) =~= old_view.push(s@));
        }
    }
}

/// In-memory corpus store backing the search service.
pub struct InMemoryRepository {
    keyword_store: Vec<String>,
    hash_store: Vec<String>,
    phash_store: Vec<u64>,
}

impl InMemoryRepository {
    /// An empty corpus.
    pub fn new() -> (r: Self)
        ensures
            r.inv(),
            r.keywords() == Seq::<Seq<char>>::empty(),
            r.hashes() == Seq::<Seq<char>>::empty(),
            r.phashes() == Seq::<u64>::empty(),
    {
        let r = InMemoryRepository {
            keyword_store: Vec::new(),
            hash_store: Vec::new(),
            phash_store: Vec::new(),
        };
        proof {
            assert(r.keywords() =~= Seq::<Seq<char>>::empty());
            assert(r.hashes() =~= Seq::<Seq<char>>::empty());
        }
        r
    }
}

impl Repository for InMemoryRepository {
    closed spec fn keywords(&self) -> Seq<Seq<char>> {
        self.keyword_store@.map_values(|s: String| s@)
    }

    closed spec fn hashes(&self) -> Seq<Seq<char>> {
        self.hash_store@.map_values(|s: String| s@)
    }

    closed spec fn phashes(&self) -> Seq<u64> {
        self.phash_store@
    }

    closed spec fn inv(&self) -> bool {
        distinct_entries(self.keywords()) && distinct_entries(self.hashes())
    }

    fn add_keyword(&mut self, keyword: &str) {
        let lowered = lowercase(keyword);
        store_insert(&mut self.keyword_store, lowered);
    }

    fn add_hash(&mut self, hash: &str) {
        let lowered = lowercase(hash);
        store_insert(&mut self.hash_store, lowered);
    }

    fn add_phash(&mut self, phash: u64) {
        self.phash_store.push(phash);
    }

    fn remove_all_keywords(&mut self) {
        self.keyword_store.clear();
        proof {
            assert(self.keywords() =~= Seq::<Seq<char>>::empty());
        }
    }

    fn remove_all_hash(&mut self) {
        self.hash_store.clear();
        proof {
            assert(self.hashes() =~= Seq::<Seq<char>>::empty());
        }
    }

    fn remove_all_phash(&mut self) {
        self.phash_store.clear();
    }

    fn contains_keyword(&self, filename: &str) -> (r: Option<String>) {
        first_keyword_match(&self.keyword_store, filename)
    }

    fn contains_hash(&self, hash: &str) -> (r: bool) {
        let lowered = lowercase(hash);
        store_contains(&self.hash_store, lowered.as_str())
    }

    fn match_phash(&self, phash: u64, max_distance: u32) -> (r: Option<u32>) {
        best_phash_distance(&self.phash_store, phash, max_distance)
    }

    fn count_keyword(&self) -> (r: usize) {
        self.keyword_store.len()
    }

    fn count_hash(&self) -> (r: usize) {
        self.hash_store.len()
    }

    fn count_phash(&self) -> (r: usize) {
        self.phash_store.len()
    }

    fn clear(&mut self) {
        self.keyword_store.clear();
        self.hash_store.clear();
        self.phash_store.clear();
        proof {
            assert(self.keywords() =~= Seq::<Seq<char>>::empty());
            assert(self.hashes() =~= Seq::<Seq<char>>::empty());
        }
    }

    fn load_keywords(&self) -> (r: Vec<String>) {
        copy_store(&self.keyword_store)
    }
}

/// Corpus store owned by the search service; same behaviour as
/// `InMemoryRepository`, kept as its own type so a service instance and an
/// externally managed store can coexist.
pub struct CsamRepository {
    keyword_store: Vec<String>,
    hash_store: Vec<String>,
    phash_store: Vec<u64>,
}

impl CsamRepository {
    /// An empty corpus.
    pub fn new() -> (r: Self)
        ensures
            r.inv(),
            r.keywords() == Seq::<Seq<char>>::empty(),
            r.hashes() == Seq::<Seq<char>>::empty(),
            r.phashes() == Seq::<u64>::empty(),
    {
        let keyword_store: Vec<String> = Vec::new();
        let hash_store: Vec<String> = Vec::new();
        let phash_store: Vec<u64> = Vec::new();
        let r = CsamRepository { keyword_store, hash_store, phash_store };
        proof {
            assert(r.keywords() =~= Seq::<Seq<char>>::empty());
            assert(r.hashes() =~= Seq::<Seq<char>>::empty());
        }
        r
    }
}

impl Repository for CsamRepository {
    closed spec fn keywords(&self) -> Seq<Seq<char>> {
        self.keyword_store@.map_values(|s: String| s@)
    }

    closed spec fn hashes(&self) -> Seq<Seq<char>> {
        self.hash_store@.map_values(|s: String| s@)
    }

    closed spec fn phashes(&self) -> Seq<u64> {
        self.phash_store@
    }

    closed spec fn inv(&self) -> bool {
        distinct_entries(self.keywords()) && distinct_entries(self.hashes())
    }

    fn add_keyword(&mut self, keyword: &str) {
        let lowered = lowercase(keyword);
        store_insert(&mut self.keyword_store, lowered);
    }

    fn add_hash(&mut self, hash: &str) {
        let lowered = lowercase(hash);
        store_insert(&mut self.hash_store, lowered);
    }

    fn add_phash(&mut self, phash: u64) {
        self.phash_store.push(phash);
    }

    fn remove_all_keywords(&mut self) {
        self.keyword_store.clear();
        proof {
            assert(self.keywords() =~= Seq::<Seq<char>>::empty());
        }
    }

    fn remove_all_hash(&mut self) {
        self.hash_store.clear();
        proof {
            assert(self.hashes() =~= Seq::<Seq<char>>::empty());
        }
    }

    fn remove_all_phash(&mut self) {
        self.phash_store.clear();
    }

    fn contains_keyword(&self, filename: &str) -> (r: Option<String>) {
        first_keyword_match(&self.keyword_store, filename)
    }

    fn contains_hash(&self, hash: &str) -> (r: bool) {
        let lowered = lowercase(hash);
        store_contains(&self.hash_store, lowered.as_str())
    }

    fn match_phash(&self, phash: u64, max_distance: u32) -> (r: Option<u32>) {
        best_phash_distance(&self.phash_store, phash, max_distance)
    }

    fn count_keyword(&self) -> (r: usize) {
        self.keyword_store.len()
    }

    fn count_hash(&self) -> (r: usize) {
        self.hash_store.len()
    }

    fn count_phash(&self) -> (r: usize) {
        self.phash_store.len()
    }

    fn clear(&mut self) {
        self.keyword_store.clear();
        self.hash_store.clear();
        self.phash_store.clear();
        proof {
            assert(self.keywords() =~= Seq::<Seq<char>>::empty());
            assert(self.hashes() =~= Seq::<Seq<char>>::empty());
        }
    }

    fn load_keywords(&self) -> (r: Vec<String>) {
        copy_store(&self.keyword_store)
    }
}

/// First stored keyword occurring in the lowercased filename.
fn first_keyword_match(store: &Vec<String>, filename: &str) -> (r: Option<String>)
    ensures
        r is None <==> !spec_keyword_hit(store@.map_values(|x: String| x@), filename@),
        r matches Some(kw) ==> first_keyword_hit(
            store@.map_values(|x: String| x@),
            filename@,
            kw@,
        ),
        vstd::utf8::is_ascii_chars(filename@) ==> ((r is None) <==> !keyword_hit_in(
            store@.map_values(|x: String| x@),
            ascii_lower_chars(filename@),
        )),
        vstd::utf8::is_ascii_chars(filename@) ==> (r matches Some(kw) ==> first_keyword_hit_in(
            store@.map_values(|x: String| x@),
            ascii_lower_chars(filename@),
            kw@,
        )),
{
    let ghost view = store@.map_values(|x: String| x@);
    let lowered = lowercase(filename);
    let mut i: usize = 0;
    while i < store.len()
        invariant
            view == store@.map_values(|x: String| x@),
            view.len() == store@.len(),
            lowered@ == lower_of(filename@),
            vstd::utf8::is_ascii_chars(filename@) ==> lower_of(filename@) == ascii_lower_chars(
                filename@,
            ),
            i <= store@.len(),
            forall|j: int| 0 <= j < i ==> !is_substr(#[trigger] view[j], lower_of(filename@)),
        decreases store@.len() - i,
    {
        let kw = &store[i];
        if contains_str(lowered.as_str(), kw.as_str()) {
            let found = kw.clone();
            proof {
                assert(view[i as int] == found@);
                assert(first_keyword_hit(view, filename@, found@));
            }
            return Some(found);
        }
        i = i + 1;
    }
    proof {
        if spec_keyword_hit(view, filename@) {
            let w = choose|j: int|
                0 <= j < view.len() && is_substr(#[trigger] view[j], lower_of(filename@));
            assert(!is_substr(view[w], lower_of(filename@)));
        }
    }
    None
}

/// Least distance from `phash` to any entry, when within `max_distance`.
fn best_phash_distance(store: &Vec<u64>, phash: u64, max_distance: u32) -> (r: Option<u32>)
    ensures
        r is Some <==> spec_phash_hit(store@, phash, max_distance),
        r matches Some(d) ==> is_best_distance(store@, phash, max_distance, d),
{
    let mut best: Option<u32> = None;
    let mut i: usize = 0;
    while i < store.len()
        invariant
            i <= store@.len(),
            best is Some <==> spec_phash_hit(store@.subrange(0, i as int), phash, max_distance),
            best matches Some(b) ==> is_best_distance(
                store@.subrange(0, i as int),
                phash,
                max_distance,
                b,
            ),
        decreases store@.len() - i,
    {
        let ghost prefix = store@.subrange(0, i as int);
        let d = distance(store[i], phash);
        let new_best = match best {
            Some(b) => if d < b {
                Some(d)
            } else {
                Some(b)
            },
            None => if d <= max_distance {
                Some(d)
            } else {
                None
            },
        };
        best = new_best;
        proof {
            let next = store@.subrange(0, i + 1);
            assert(next.drop_last() =~= prefix);
            assert(next.last() == store@[i as int]);
            assert forall|k: int| 0 <= k < next.len() implies (#[trigger] next[k] == if k
                < prefix.len() {
                prefix[k]
            } else {
                store@[i as int]
            }) by {}
        }
        i = i + 1;
    }
    proof {
        assert(store@.subrange(0, store@.len() as int) =~= store@);
    }
    best
}

/// A fresh copy of every entry, preserving order.
fn copy_store(store: &Vec<String>) -> (r: Vec<String>)
    ensures
        r@.map_values(|s: String| s@) == store@.map_values(|s: String| s@),
{
    let mut out: Vec<String> = Vec::new();
    let mut i: usize = 0;
    while i < store.len()
        invariant
            i <= store@.len(),
            out@.len() == i,
            forall|j: int| 0 <= j < i ==> #[trigger] out@[j]@ == store@[j]@,
        decreases store@.len() - i,
    {
        out.push(store[i].clone());
        i = i + 1;
    }
    proof {
        assert(out@.map_values(|s: String| s@) =~= store@.map_values(|s: String| s@));
    }
    out
}

/// After a hash is added, a lookup finds every case variant of it: any
/// query with the same lowercase form as the inserted hash is contained.
pub proof fn lemma_hash_lookup_ignores_case(hashes: Seq<Seq<char>>, h: Seq<char>, v: Seq<char>)
    requires
        lower_of(v) == lower_of(h),
    ensures
        spec_contains_hash(add_entry(hashes, lower_of(h)), v),
{
    if hashes.contains(lower_of(h))  {
    } else {
        let pushed = hashes.push(lower_of(h));
        assert(pushed[hashes.len() as int] == lower_of(h));
        assert(pushed.contains(lower_of(v)));
    }
}

/// The same, grounded for ASCII text — the form the corpus's hex hashes
/// take: after an ASCII hash is added, a lookup of any ASCII case variant
/// finds the stored folded form.
pub proof fn lemma_hash_lookup_ignores_ascii_case(
    hashes: Seq<Seq<char>>,
    h: Seq<char>,
    v: Seq<char>,
)
    requires
        ascii_case_variant(v, h),
    ensures
        add_entry(hashes, ascii_lower_chars(h)).contains(ascii_lower_chars(v)),
{
    lemma_add_entry_contains(hashes, ascii_lower_chars(h));
}

/// Once an ASCII keyword is stored, every case-folded filename in which
/// its folded form occurs yields a keyword hit.
pub proof fn lemma_ascii_keyword_hit(
    keywords: Seq<Seq<char>>,
    kw: Seq<char>,
    folded_name: Seq<char>,
)
    requires
        keywords.contains(kw),
        is_substr(kw, folded_name),
    ensures
        keyword_hit_in(keywords, folded_name),
{
    let i = choose|i: int| 0 <= i < keywords.len() && keywords[i] == kw;
    assert(is_substr(keywords[i], folded_name));
}

/// Once a keyword is stored, every filename in which its lowercase form
/// occurs (in any case) yields a keyword hit.
pub proof fn lemma_keyword_hit_when_contained(
    keywords: Seq<Seq<char>>,
    kw: Seq<char>,
    filename: Seq<char>,
)
    requires
        keywords.contains(kw),
        is_substr(kw, lower_of(filename)),
    ensures
        spec_keyword_hit(keywords, filename),
{
    let i = choose|i: int| 0 <= i < keywords.len() && keywords[i] == kw;
    assert(is_substr(keywords[i], lower_of(filename)));
}

/// A filename in which no stored keyword occurs yields no keyword hit.
pub proof fn lemma_no_keyword_hit(keywords: Seq<Seq<char>>, filename: Seq<char>)
    requires
        forall|i: int|
            0 <= i < keywords.len() ==> !is_substr(#[trigger] keywords[i], lower_of(filename)),
    ensures
        !spec_keyword_hit(keywords, filename),
{
}

/// Adding a keyword makes its lowercase form a stored entry.
pub proof fn lemma_add_entry_contains(entries: Seq<Seq<char>>, x: Seq<char>)
    ensures
        add_entry(entries, x).contains(x),
{
    if entries.contains(x) {
    } else {
        let pushed = entries.push(x);
        assert(pushed[entries.len() as int] == x);
    }
}

} // verus!

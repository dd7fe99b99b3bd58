//! Loading corpus database lines into a repository.
//!
//! Each store is persisted as one text file, one entry per line. A load
//! first empties the matching store and then inserts every usable line:
//! hash lines verbatim, keyword lines unless blank, perceptual-hash lines
//! when they spell a 64-bit decimal number — malformed ones are skipped
//! silently. The final state is a function of the lines alone, so loading
//! the same file twice leaves the same store.
use vstd::prelude::*;

verus! {

use vstd::utf8::encode_utf8;
use vstd::utf8::is_ascii_chars;
use crate::repository::Repository;
use crate::repository::add_entry;
use crate::text::lower_of;
use crate::text::ascii_lower_chars;
use crate::text::ascii_no_upper;
use crate::text::lemma_ascii_no_upper_fixed;
use crate::text::is_blank;
use crate::text::dec_value;
use crate::text::spells_u64;
use crate::text::parse_u64_dec;
use crate::text::str_is_blank;

/// The hash store that loading the given lines produces: every line,
/// lowercased, first occurrence kept.
pub open spec fn spec_load_hashes(lines: Seq<Seq<char>>) -> Seq<Seq<char>>
    decreases lines.len(),
{
    if lines.len() == 0 {
        Seq::empty()
    } else {
        add_entry(spec_load_hashes(lines.drop_last()), lower_of(lines.last()))
    }
}

/// The hash store that loading ASCII lines produces, folded pointwise.
pub open spec fn spec_load_hashes_ascii(lines: Seq<Seq<char>>) -> Seq<Seq<char>>
    decreases lines.len(),
{
    if lines.len() == 0 {
        Seq::empty()
    } else {
        add_entry(spec_load_hashes_ascii(lines.drop_last()), ascii_lower_chars(lines.last()))
    }
}

/// The keyword store that loading the given lines produces: every
/// non-blank line, lowercased, first occurrence kept.
pub open spec fn spec_load_keywords(lines: Seq<Seq<char>>) -> Seq<Seq<char>>
    decreases lines.len(),
{
    if lines.len() == 0 {
        Seq::empty()
    } else if is_blank(lines.last()) {
        spec_load_keywords(lines.drop_last())
    } else {
        add_entry(spec_load_keywords(lines.drop_last()), lower_of(lines.last()))
    }
}

/// The perceptual-hash store that loading the given lines produces: the
/// value of every line that spells a 64-bit decimal number, in order.
pub open spec fn spec_load_phashes(lines: Seq<Seq<char>>) -> Seq<u64>
    decreases lines.len(),
{
    if lines.len() == 0 {
        Seq::empty()
    } else {
        let rest = spec_load_phashes(lines.drop_last());
        let bytes = encode_utf8(lines.last());
        if spells_u64(bytes) {
            rest.push(dec_value(bytes) as u64)
        } else {
            rest
        }
    }
}

/// Replaces the hash store with the given lines.
pub fn load_hash_lines<R: Repository>(repo: &mut R, lines: &Vec<String>)
    requires
        old(repo).inv(),
    ensures
        final(repo).inv(),
        final(repo).hashes() == spec_load_hashes(lines@.map_values(|s: String| s@)),
        (forall|k: int|
            0 <= k < lines@.len() ==> is_ascii_chars((#[trigger] lines@[k])@)) ==> final(repo).hashes()
            == spec_load_hashes_ascii(lines@.map_values(|s: String| s@)),
        final(repo).keywords() == old(repo).keywords(),
        final(repo).phashes() == old(repo).phashes(),
{
    let ghost lviews = lines@.map_values(|s: String| s@);
    let ghost all_ascii = forall|k: int|
        0 <= k < lines@.len() ==> is_ascii_chars((#[trigger] lines@[k])@);
    repo.remove_all_hash();
    let mut i: usize = 0;
    while i < lines.len()
        invariant
            repo.inv(),
            lviews == lines@.map_values(|s: String| s@),
            lviews.len() == lines@.len(),
            all_ascii == (forall|k: int|
                0 <= k < lines@.len() ==> is_ascii_chars((#[trigger] lines@[k])@)),
            i <= lines@.len(),
            repo.hashes() == spec_load_hashes(lviews.subrange(0, i as int)),
            all_ascii ==> repo.hashes() == spec_load_hashes_ascii(lviews.subrange(0, i as int)),
            repo.keywords() == old(repo).keywords(),
            repo.phashes() == old(repo).phashes(),
        decreases lines@.len() - i,
    {
        repo.add_hash(lines[i].as_str());
        proof {
            assert(lviews.subrange(0, i + 1).drop_last() =~= lviews.subrange(0, i as int));
            assert(lviews.subrange(0, i + 1).last() == lviews[i as int]);
        }
        i = i + 1;
    }
    proof {
        assert(lviews.subrange(0, lviews.len() as int) =~= lviews);
    }
}

/// Replaces the keyword store with the non-blank lines.
pub fn load_keyword_lines<R: Repository>(repo: &mut R, lines: &Vec<String>)
    requires
        old(repo).inv(),
    ensures
        final(repo).inv(),
        final(repo).keywords() == spec_load_keywords(lines@.map_values(|s: String| s@)),
        final(repo).hashes() == old(repo).hashes(),
        final(repo).phashes() == old(repo).phashes(),
{
    let ghost lviews = lines@.map_values(|s: String| s@);
    repo.remove_all_keywords();
    let mut i: usize = 0;
    while i < lines.len()
        invariant
            repo.inv(),
            lviews == lines@.map_values(|s: String| s@),
            lviews.len() == lines@.len(),
            i <= lines@.len(),
            repo.keywords() == spec_load_keywords(lviews.subrange(0, i as int)),
            repo.hashes() == old(repo).hashes(),
            repo.phashes() == old(repo).phashes(),
        decreases lines@.len() - i,
    {
        let line = &lines[i];
        if !str_is_blank(line.as_str()) {
            repo.add_keyword(line.as_str());
        }
        proof {
            assert(lviews.subrange(0, i + 1).drop_last() =~= lviews.subrange(0, i as int));
            assert(lviews.subrange(0, i + 1).last() == lviews[i as int]);
        }
        i = i + 1;
    }
    proof {
        assert(lviews.subrange(0, lviews.len() as int) =~= lviews);
    }
}

/// Replaces the perceptual-hash store with the well-formed lines,
/// skipping malformed ones silently.
pub fn load_phash_lines<R: Repository>(repo: &mut R, lines: &Vec<String>)
    requires
        old(repo).inv(),
    ensures
        final(repo).inv(),
        final(repo).phashes() == spec_load_phashes(lines@.map_values(|s: String| s@)),
        final(repo).keywords() == old(repo).keywords(),
        final(repo).hashes() == old(repo).hashes(),
{
    let ghost lviews = lines@.map_values(|s: String| s@);
    repo.remove_all_phash();
    let mut i: usize = 0;
    while i < lines.len()
        invariant
            repo.inv(),
            lviews == lines@.map_values(|s: String| s@),
            lviews.len() == lines@.len(),
            i <= lines@.len(),
            repo.phashes() == spec_load_phashes(lviews.subrange(0, i as int)),
            repo.keywords() == old(repo).keywords(),
            repo.hashes() == old(repo).hashes(),
        decreases lines@.len() - i,
    {
        let line = &lines[i];
        match parse_u64_dec(line.as_str()) {
            Some(value) => {
                repo.add_phash(value);
            },
            None => {},
        }
        proof {
            assert(lviews.subrange(0, i + 1).drop_last() =~= lviews.subrange(0, i as int));
            assert(lviews.subrange(0, i + 1).last() == lviews[i as int]);
        }
        i = i + 1;
    }
    proof {
        assert(lviews.subrange(0, lviews.len() as int) =~= lviews);
    }
}

/// Persistence is lossless for the lines a database build writes: a
/// lowercase line (no ASCII uppercase, all ASCII) loads as itself, so
/// pairwise-distinct lines yield exactly one entry per line, in order.
pub proof fn lemma_load_hashes_lossless_ascii(lines: Seq<Seq<char>>)
    requires
        forall|k: int|
            0 <= k < lines.len() ==> is_ascii_chars(#[trigger] lines[k]) && ascii_no_upper(
                lines[k],
            ),
        forall|i: int, j: int| 0 <= i < j < lines.len() ==> lines[i] != lines[j],
    ensures
        spec_load_hashes_ascii(lines) == lines,
        spec_load_hashes_ascii(lines).len() == lines.len(),
    decreases lines.len(),
{
    if lines.len() == 0 {
        assert(spec_load_hashes_ascii(lines) =~= lines);
    } else {
        let prefix = lines.drop_last();
        lemma_load_hashes_lossless_ascii(prefix);
        lemma_ascii_no_upper_fixed(lines.last());
        if prefix.contains(lines.last()) {
            let w = choose|w: int| 0 <= w < prefix.len() && prefix[w] == lines.last();
            assert(lines[w] == lines[lines.len() - 1]);
        }
        assert(!prefix.contains(lines.last()));
        assert(spec_load_hashes_ascii(lines) == prefix.push(lines.last()));
        assert(spec_load_hashes_ascii(lines) =~= lines);
    }
}

/// The round trip a hash database makes: building writes one lowercase
/// hex digest line per source file, and loading those lines back yields
/// exactly one repository entry per file with a distinct digest, each
/// entry the written line itself.
pub proof fn lemma_hash_database_round_trip(datas: Seq<Seq<u8>>)
    requires
        forall|i: int, j: int|
            0 <= i < j < datas.len() ==> crate::digest::hex_of(
                crate::digest::md5_of(#[trigger] datas[i]),
            ) != crate::digest::hex_of(crate::digest::md5_of(#[trigger] datas[j])),
    ensures
        ({
            let lines = datas.map_values(
                |d: Seq<u8>| crate::digest::hex_of(crate::digest::md5_of(d)),
            );
            spec_load_hashes_ascii(lines) == lines && spec_load_hashes_ascii(lines).len()
                == datas.len()
        }),
{
    let lines = datas.map_values(|d: Seq<u8>| crate::digest::hex_of(crate::digest::md5_of(d)));
    assert forall|k: int|
        0 <= k < lines.len() implies is_ascii_chars(#[trigger] lines[k]) && ascii_no_upper(
        lines[k],
    ) by {
        crate::digest::lemma_hex_of_ascii_no_upper(crate::digest::md5_of(datas[k]));
        assert(lines[k] == crate::digest::hex_of(crate::digest::md5_of(datas[k])));
    }
    lemma_load_hashes_lossless_ascii(lines);
}

/// Persistence is lossless in general: when the lines' lowercase forms
/// are pairwise distinct, the loaded store holds exactly one entry per
/// line, in order.
pub proof fn lemma_load_hashes_lossless(lines: Seq<Seq<char>>)
    requires
        forall|i: int, j: int|
            0 <= i < j < lines.len() ==> lower_of(#[trigger] lines[i]) != lower_of(
                #[trigger] lines[j],
            ),
    ensures
        spec_load_hashes(lines) == lines.map_values(|l: Seq<char>| lower_of(l)),
        spec_load_hashes(lines).len() == lines.len(),
    decreases lines.len(),
{
    let mapped = lines.map_values(|l: Seq<char>| lower_of(l));
    if lines.len() == 0 {
        assert(spec_load_hashes(lines) =~= mapped);
    } else {
        let prefix = lines.drop_last();
        lemma_load_hashes_lossless(prefix);
        let prev = spec_load_hashes(prefix);
        assert(prev == prefix.map_values(|l: Seq<char>| lower_of(l)));
        if prev.contains(lower_of(lines.last())) {
            let w = choose|w: int| 0 <= w < prev.len() && prev[w] == lower_of(lines.last());
            assert(prev[w] == lower_of(prefix[w]));
            assert(lower_of(lines[w]) != lower_of(lines[lines.len() - 1]));
        }
        assert(!prev.contains(lower_of(lines.last())));
        assert(spec_load_hashes(lines) == prev.push(lower_of(lines.last())));
        assert(spec_load_hashes(lines) =~= mapped);
    }
}

} // verus!

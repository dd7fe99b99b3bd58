//! Media records and the matching engine: classifying a file by extension,
//! and deciding how a file's fingerprints match the corpus.
//!
//! Match priority is strict: an exact content-hash hit shadows a keyword
//! hit, which shadows a perceptual-similarity hit.
use vstd::prelude::*;

verus! {

use vstd::string::StringSliceAdditionalSpecFns;
use vstd::utf8::encode_utf8;
use crate::repository::Repository;
use crate::repository::spec_contains_hash;
use crate::repository::spec_keyword_hit;
use crate::repository::first_keyword_hit;
use crate::repository::spec_phash_hit;
use crate::repository::is_best_distance;
use crate::phash::spec_distance;

/// Largest Hamming distance at which two perceptual hashes still count as
/// similar.
pub const MAX_DISTANCE_HAMMING: u32 = 20;

/// Extensions the engine treats as images.
pub open spec fn spec_is_image(ext: Seq<char>) -> bool {
    ||| ext == "jpeg"@
    ||| ext == "jpg"@
    ||| ext == "png"@
    ||| ext == "bmp"@
    ||| ext == "tiff"@
    ||| ext == "gif"@
}

/// Extensions the engine treats as videos.
pub open spec fn spec_is_video(ext: Seq<char>) -> bool {
    ||| ext == "mpeg"@
    ||| ext == "mpg"@
    ||| ext == "mp4"@
    ||| ext == "avi"@
    ||| ext == "ogg"@
    ||| ext == "webm"@
    ||| ext == "flv"@
}

/// Whether a (lowercased) file extension names an image format.
pub fn is_image(extension: &str) -> (r: bool)
    ensures
        r == spec_is_image(extension@),
{
    crate::text::str_eq(extension, "jpeg") || crate::text::str_eq(extension, "jpg")
        || crate::text::str_eq(extension, "png") || crate::text::str_eq(extension, "bmp")
        || crate::text::str_eq(extension, "tiff") || crate::text::str_eq(extension, "gif")
}

/// Whether a (lowercased) file extension names a video format.
pub fn is_video(extension: &str) -> (r: bool)
    ensures
        r == spec_is_video(extension@),
{
    crate::text::str_eq(extension, "mpeg") || crate::text::str_eq(extension, "mpg")
        || crate::text::str_eq(extension, "mp4") || crate::text::str_eq(extension, "avi")
        || crate::text::str_eq(extension, "ogg") || crate::text::str_eq(extension, "webm")
        || crate::text::str_eq(extension, "flv")
}

/// Whether a (lowercased) file extension names a media format the scan
/// takes up.
pub fn is_media(extension: &str) -> (r: bool)
    ensures
        r == (spec_is_image(extension@) || spec_is_video(extension@)),
{
    is_image(extension) || is_video(extension)
}

/// Classification of a scanned file.
#[derive(Debug, Clone, Copy, PartialEq, Eq, Structural)]
pub enum MediaType {
    Image,
    Video,
}

/// Index of the last `.` in `s`, or -1 when there is none.
pub open spec fn last_dot(s: Seq<u8>) -> int
    decreases s.len(),
{
    if s.len() == 0 {
        -1
    } else if s.last() == 46 {
        s.len() - 1
    } else {
        last_dot(s.drop_last())
    }
}

/// The extension of a file name (the part after the last dot), or nothing
/// when the name has no dot or only a leading one.
pub open spec fn spec_ext_bytes(name: Seq<u8>) -> Option<Seq<u8>> {
    let d = last_dot(name);
    if d <= 0 {
        None
    } else {
        Some(name.subrange(d + 1, name.len() as int))
    }
}

/// ASCII lowercasing of one byte.
pub open spec fn lower_byte(b: u8) -> u8 {
    if 65 <= b && b <= 90 {
        (b + 32) as u8
    } else {
        b
    }
}

/// ASCII lowercasing of a byte sequence.
pub open spec fn lower_bytes(s: Seq<u8>) -> Seq<u8> {
    s.map_values(|b: u8| lower_byte(b))
}

/// Image extensions, over UTF-8 bytes.
pub open spec fn spec_is_image_ext(e: Seq<u8>) -> bool {
    ||| e == "jpeg".spec_bytes()
    ||| e == "jpg".spec_bytes()
    ||| e == "png".spec_bytes()
    ||| e == "bmp".spec_bytes()
    ||| e == "tiff".spec_bytes()
    ||| e == "gif".spec_bytes()
}

/// How a file name classifies: an image extension (compared lowercased)
/// makes it an image, anything else — a missing extension included — is
/// handed to the video path.
pub open spec fn spec_media_type(name: Seq<u8>) -> MediaType {
    match spec_ext_bytes(name) {
        Some(e) => if spec_is_image_ext(lower_bytes(e)) {
            MediaType::Image
        } else {
            MediaType::Video
        },
        None => MediaType::Video,
    }
}

proof fn lemma_last_dot_at(s: Seq<u8>, d: int)
    requires
        0 <= d < s.len(),
        s[d] == 46,
        forall|k: int| d < k < s.len() ==> s[k] != 46,
    ensures
        last_dot(s) == d,
    decreases s.len(),
{
    if s.len() - 1 > d {
        assert(s.last() != 46);
        lemma_last_dot_at(s.drop_last(), d);
    }
}

proof fn lemma_last_dot_none(s: Seq<u8>)
    requires
        forall|k: int| 0 <= k < s.len() ==> s[k] != 46,
    ensures
        last_dot(s) == -1,
    decreases s.len(),
{
    if s.len() > 0 {
        lemma_last_dot_none(s.drop_last());
    }
}

/// Whether a byte sequence spells one of the image extensions.
fn is_image_ext_bytes(e: &[u8]) -> (r: bool)
    ensures
        r == spec_is_image_ext(e@),
{
    crate::text::bytes_eq(e, "jpeg".as_bytes()) || crate::text::bytes_eq(e, "jpg".as_bytes())
        || crate::text::bytes_eq(e, "png".as_bytes()) || crate::text::bytes_eq(
        e,
        "bmp".as_bytes(),
    ) || crate::text::bytes_eq(e, "tiff".as_bytes()) || crate::text::bytes_eq(
        e,
        "gif".as_bytes(),
    )
}

/// Classifies a file by the extension of its name.
pub fn media_type_of(name: &str) -> (t: MediaType)
    ensures
        t == spec_media_type(name.spec_bytes()),
{
    let bytes = name.as_bytes();
    let mut dot: usize = 0;
    let mut found: bool = false;
    let mut i: usize = 0;
    while i < bytes.len()
        invariant
            i <= bytes@.len(),
            found ==> dot < i && bytes@[dot as int] == 46 && forall|k: int|
                dot < k < i ==> bytes@[k] != 46,
            !found ==> forall|k: int| 0 <= k < i ==> bytes@[k] != 46,
        decreases bytes@.len() - i,
    {
        if bytes[i] == 46 {
            dot = i;
            found = true;
        }
        i = i + 1;
    }
    proof {
        if found {
            lemma_last_dot_at(bytes@, dot as int);
        } else {
            lemma_last_dot_none(bytes@);
        }
    }
    if !found || dot == 0 {
        return MediaType::Video;
    }
    let ext = vstd::slice::slice_subrange(bytes, dot + 1, bytes.len());
    let mut lowered: Vec<u8> = Vec::new();
    let mut j: usize = 0;
    while j < ext.len()
        invariant
            j <= ext@.len(),
            lowered@.len() == j,
            forall|k: int| 0 <= k < j ==> lowered@[k] == lower_byte(#[trigger] ext@[k]),
        decreases ext@.len() - j,
    {
        let b = ext[j];
        if 65 <= b && b <= 90 {
            lowered.push(b + 32);
        } else {
            lowered.push(b);
        }
        j = j + 1;
    }
    proof {
        assert(lowered@ =~= lower_bytes(ext@));
    }
    if is_image_ext_bytes(lowered.as_slice()) {
        MediaType::Image
    } else {
        MediaType::Video
    }
}

/// Number of whole kilobytes nearest to `bytes` (ties round up), as media
/// records report file sizes.
pub open spec fn spec_rounded_kb(bytes: u64) -> u64 {
    ((bytes + 512) / 1024) as u64
}

/// File size in rounded kilobytes.
pub fn rounded_kb(bytes: u64) -> (r: u64)
    ensures
        r == spec_rounded_kb(bytes),
{
    if bytes > u64::MAX - 512 {
        (bytes / 1024) + if bytes % 1024 >= 512 {
            1
        } else {
            0
        }
    } else {
        (bytes + 512) / 1024
    }
}

/// How a file matched the corpus: by exact content hash, by a stored
/// keyword occurring in its name, or by perceptual-hash similarity at the
/// recorded Hamming distance.
#[derive(Debug, Clone)]
pub enum MatchType {
    MD5,
    Keyword(String),
    PHash(u64, u32),
}

/// `c` is the candidate hash (first among equals, in candidate order) whose
/// distance `d` to the corpus is the least over every candidate/corpus
/// pair, and `d` lies within the allowed maximum.
pub open spec fn is_best_candidate(
    ps: Seq<u64>,
    cands: Seq<u64>,
    maxd: u32,
    c: u64,
    d: u32,
) -> bool {
    &&& d <= maxd
    &&& exists|i: int|
        0 <= i < cands.len() && #[trigger] cands[i] == c && (exists|p: int|
            0 <= p < ps.len() && spec_distance(#[trigger] ps[p], c) == d) && (forall|j: int, p: int|
            0 <= j < i && 0 <= p < ps.len() ==> spec_distance(#[trigger] ps[p], #[trigger] cands[j])
                > d)
    &&& forall|j: int, p: int|
        0 <= j < cands.len() && 0 <= p < ps.len() ==> spec_distance(
            #[trigger] ps[p],
            #[trigger] cands[j],
        ) >= d
}

/// Some candidate lies within `maxd` of some corpus entry.
pub open spec fn spec_any_phash_hit(ps: Seq<u64>, cands: Seq<u64>, maxd: u32) -> bool {
    exists|j: int| 0 <= j < cands.len() && spec_phash_hit(ps, #[trigger] cands[j], maxd)
}

/// A scanned file's record: identity, fingerprints and how it matched the
/// corpus.
#[derive(Debug, Clone)]
pub struct Media {
    /// File name, as enumerated.
    pub name: String,
    /// Full path of the file.
    pub path: String,
    /// Image or video, decided by the name's extension.
    pub media_type: MediaType,
    /// Size in rounded kilobytes.
    pub size: u64,
    /// Last-modified time, in seconds since the epoch.
    pub last_modified: i64,
    /// Content hash of the file's bytes (lowercase hexadecimal).
    pub hash: String,
    /// Representative perceptual hash: the matched candidate, the first
    /// candidate when the match came another way, or zero without a match.
    pub phash: u64,
    /// How the file matched the corpus, if it did.
    pub match_type: Option<MatchType>,
    /// Hamming distance of the perceptual match; meaningful only for a
    /// perceptual-hash match.
    pub hamming: u32,
    /// Encoded preview image, when one could be produced.
    pub img_buf: Option<Vec<u8>>,
}

impl Media {
    /// Thumbnail edge length used for previews and perceptual hashing.
    pub const THUMBNAIL_SIZE: u32 = 240;

    /// Largest Hamming distance that still counts as a perceptual match.
    pub const MAX_DISTANCE_HAMMING: u32 = 20;

    /// Builds the record for one scanned file from its plain attributes
    /// and fingerprints, matching it against the corpus. The `phash` field
    /// records the matched candidate for a perceptual match, the first
    /// candidate for a stronger match, and zero when nothing matched.
    pub fn new<R: Repository>(
        repo: &R,
        name: String,
        path: String,
        size_bytes: u64,
        last_modified: i64,
        hash: String,
        phash_vec: &[u64],
        img_buf: Option<Vec<u8>>,
    ) -> (media: Media)
        requires
            repo.inv(),
        ensures
            media.name == name,
            media.path == path,
            media.media_type == spec_media_type(encode_utf8(name@)),
            media.size == spec_rounded_kb(size_bytes),
            media.last_modified == last_modified,
            media.hash == hash,
            media.img_buf == img_buf,
            spec_contains_hash(repo.hashes(), hash@) ==> (media.match_type matches Some(m)
                && m is MD5),
            !spec_contains_hash(repo.hashes(), hash@) && spec_keyword_hit(repo.keywords(), name@)
                ==> (media.match_type matches Some(m) && (m matches MatchType::Keyword(kw)
                && first_keyword_hit(repo.keywords(), name@, kw@))),
            !spec_contains_hash(repo.hashes(), hash@) && !spec_keyword_hit(repo.keywords(), name@)
                ==> ((media.match_type is Some) <==> spec_any_phash_hit(
                repo.phashes(),
                phash_vec@,
                MAX_DISTANCE_HAMMING,
            )),
            (!spec_contains_hash(repo.hashes(), hash@) && !spec_keyword_hit(repo.keywords(), name@)
                && media.match_type is Some) ==> (media.match_type matches Some(m) && (m matches
            MatchType::PHash(c, d) && is_best_candidate(
                repo.phashes(),
                phash_vec@,
                MAX_DISTANCE_HAMMING,
                c,
                d,
            ))),
            media.match_type matches Some(m) ==> (m matches MatchType::PHash(c, d) ==> (
            media.phash == c && media.hamming == d)),
            media.match_type matches Some(m) ==> (!(m is PHash) ==> (media.phash == (
            if phash_vec@.len() > 0 {
                phash_vec@[0]
            } else {
                0u64
            }) && media.hamming == 0)),
            media.match_type is None ==> media.phash == 0 && media.hamming == 0,
    {
        let media_type = media_type_of(name.as_str());
        let size = rounded_kb(size_bytes);
        let match_type = Media::find_csam(repo, name.as_str(), hash.as_str(), phash_vec);
        let phash: u64;
        let hamming: u32;
        match &match_type {
            Some(MatchType::PHash(c, d)) => {
                phash = *c;
                hamming = *d;
            },
            Some(_) => {
                phash = if phash_vec.len() > 0 {
                    phash_vec[0]
                } else {
                    0
                };
                hamming = 0;
            },
            None => {
                phash = 0;
                hamming = 0;
            },
        }
        Media { name, path, media_type, size, last_modified, hash, phash, match_type, hamming, img_buf }
    }

    /// Decides how a file matches the corpus, strictly prioritised: exact
    /// content hash first, then a keyword in the file name, then the
    /// closest perceptual-hash candidate within the allowed distance.
    pub fn find_csam<R: Repository>(
        repo: &R,
        name: &str,
        hash: &str,
        phash_vec: &[u64],
    ) -> (r: Option<MatchType>)
        requires
            repo.inv(),
        ensures
            spec_contains_hash(repo.hashes(), hash@) ==> (r matches Some(m) && m is MD5),
            !spec_contains_hash(repo.hashes(), hash@) && spec_keyword_hit(repo.keywords(), name@)
                ==> (r matches Some(m) && (m matches MatchType::Keyword(kw) && first_keyword_hit(
                repo.keywords(),
                name@,
                kw@,
            ))),
            !spec_contains_hash(repo.hashes(), hash@) && !spec_keyword_hit(repo.keywords(), name@)
                ==> ((r is Some) <==> spec_any_phash_hit(
                repo.phashes(),
                phash_vec@,
                MAX_DISTANCE_HAMMING,
            )),
            (!spec_contains_hash(repo.hashes(), hash@) && !spec_keyword_hit(repo.keywords(), name@)
                && r is Some) ==> (r matches Some(m) && (m matches MatchType::PHash(c, d)
                && is_best_candidate(repo.phashes(), phash_vec@, MAX_DISTANCE_HAMMING, c, d))),
    {
        if repo.contains_hash(hash) {
            return Some(MatchType::MD5);
        }
        if let Some(kw) = repo.contains_keyword(name) {
            return Some(MatchType::Keyword(kw));
        }
        let ghost ps = repo.phashes();
        let mut best: Option<(u64, u32)> = None;
        let mut ci: usize = 0;
        while ci < phash_vec.len()
            invariant
                repo.inv(),
                ps == repo.phashes(),
                ci <= phash_vec@.len(),
                best is None ==> forall|j: int|
                    0 <= j < ci ==> !spec_phash_hit(ps, #[trigger] phash_vec@[j],
                    MAX_DISTANCE_HAMMING),
                best matches Some((c, d)) ==> d <= MAX_DISTANCE_HAMMING && (exists|i: int|
                    0 <= i < ci && #[trigger] phash_vec@[i] == c && (exists|p: int|
                        0 <= p < ps.len() && spec_distance(#[trigger] ps[p], c) == d) && (forall|
                        j: int,
                        p: int,
                    |
                        0 <= j < i && 0 <= p < ps.len() ==> spec_distance(
                            #[trigger] ps[p],
                            #[trigger] phash_vec@[j],
                        ) > d)) && (forall|j: int, p: int|
                    0 <= j < ci && 0 <= p < ps.len() ==> spec_distance(
                        #[trigger] ps[p],
                        #[trigger] phash_vec@[j],
                    ) >= d),
            decreases phash_vec@.len() - ci,
        {
            let cand = phash_vec[ci];
            let hit = repo.match_phash(cand, MAX_DISTANCE_HAMMING);
            match (best, hit) {
                (None, Some(d2)) => {
                    best = Some((cand, d2));
                },
                (Some((_, d)), Some(d2)) => {
                    if d2 < d {
                        best = Some((cand, d2));
                    }
                },
                _ => {},
            }
            ci = ci + 1;
        }
        match best {
            Some((c, d)) => Some(MatchType::PHash(c, d)),
            None => None,
        }
    }
}

} // verus!

//! The service facade: owns the corpus repository and the advisory
//! cancellation flag shared by database builds and scans.
use vstd::prelude::*;

verus! {

use crate::repository::Repository;
use crate::repository::CsamRepository;
use crate::db::spec_load_hashes;
use crate::db::spec_load_keywords;
use crate::db::spec_load_phashes;
use crate::db::load_hash_lines;
use crate::db::load_keyword_lines;
use crate::db::load_phash_lines;

/// Owns one corpus repository and the cancellation flag that long-running
/// operations poll.
pub struct Service {
    repo: CsamRepository,
    cancel_flag: bool,
}

impl Service {
    /// Stored keywords of the owned repository.
    pub closed spec fn keywords(&self) -> Seq<Seq<char>> {
        self.repo.keywords()
    }

    /// Stored content hashes of the owned repository.
    pub closed spec fn hashes(&self) -> Seq<Seq<char>> {
        self.repo.hashes()
    }

    /// Stored perceptual hashes of the owned repository.
    pub closed spec fn phashes(&self) -> Seq<u64> {
        self.repo.phashes()
    }

    /// The owned repository is well formed.
    pub closed spec fn inv(&self) -> bool {
        self.repo.inv()
    }

    /// The advisory cancellation flag.
    pub closed spec fn cancelled(&self) -> bool {
        self.cancel_flag
    }

    /// The owned repository, for matching during a scan.
    pub closed spec fn repo_view(&self) -> CsamRepository {
        self.repo
    }

    /// Takes ownership of a repository; the flag starts lowered.
    pub fn new(repo: CsamRepository) -> (r: Self)
        requires
            repo.inv(),
        ensures
            r.inv(),
            !r.cancelled(),
            r.keywords() == repo.keywords(),
            r.hashes() == repo.hashes(),
            r.phashes() == repo.phashes(),
    {
        Service { repo, cancel_flag: false }
    }

    /// Read access to the owned repository.
    pub fn repository(&self) -> (r: &CsamRepository)
        ensures
            *r == self.repo_view(),
            r.inv() == self.inv(),
            r.keywords() == self.keywords(),
            r.hashes() == self.hashes(),
            r.phashes() == self.phashes(),
    {
        &self.repo
    }

    /// Number of stored keywords.
    pub fn count_keyword(&self) -> (r: usize)
        requires
            self.inv(),
        ensures
            r == self.keywords().len(),
    {
        self.repo.count_keyword()
    }

    /// Number of stored content hashes.
    pub fn count_hash(&self) -> (r: usize)
        requires
            self.inv(),
        ensures
            r == self.hashes().len(),
    {
        self.repo.count_hash()
    }

    /// Number of stored perceptual hashes.
    pub fn count_phash(&self) -> (r: usize)
        requires
            self.inv(),
        ensures
            r == self.phashes().len(),
    {
        self.repo.count_phash()
    }

    /// A copy of the stored keywords, in insertion order.
    pub fn load_keywords(&self) -> (r: Vec<String>)
        requires
            self.inv(),
        ensures
            r@.map_values(|s: String| s@) == self.keywords(),
    {
        self.repo.load_keywords()
    }

    /// Raises the cancellation flag for a running database build.
    pub fn cancel_task(&mut self)
        ensures
            final(self).cancelled(),
            final(self).inv() == old(self).inv(),
            final(self).keywords() == old(self).keywords(),
            final(self).hashes() == old(self).hashes(),
            final(self).phashes() == old(self).phashes(),
    {
        self.cancel_flag = true;
    }

    /// Raises the cancellation flag for a running scan; work in flight
    /// runs to completion.
    pub fn stop_search_media(&mut self)
        ensures
            final(self).cancelled(),
            final(self).inv() == old(self).inv(),
            final(self).keywords() == old(self).keywords(),
            final(self).hashes() == old(self).hashes(),
            final(self).phashes() == old(self).phashes(),
    {
        self.cancel_flag = true;
    }

    /// Lowers the cancellation flag, as starting a scan or a build does.
    pub fn reset_cancel(&mut self)
        ensures
            !final(self).cancelled(),
            final(self).inv() == old(self).inv(),
            final(self).keywords() == old(self).keywords(),
            final(self).hashes() == old(self).hashes(),
            final(self).phashes() == old(self).phashes(),
    {
        self.cancel_flag = false;
    }

    /// Whether cancellation was requested.
    pub fn is_cancelled(&self) -> (r: bool)
        ensures
            r == self.cancelled(),
    {
        self.cancel_flag
    }

    /// Replaces the hash store with the given file lines.
    pub fn load_hash_database(&mut self, lines: &Vec<String>)
        requires
            old(self).inv(),
        ensures
            final(self).inv(),
            final(self).hashes() == spec_load_hashes(lines@.map_values(|s: String| s@)),
            (forall|k: int|
                0 <= k < lines@.len() ==> vstd::utf8::is_ascii_chars((#[trigger] lines@[k])@))
                ==> final(self).hashes() == crate::db::spec_load_hashes_ascii(
                lines@.map_values(|s: String| s@),
            ),
            final(self).keywords() == old(self).keywords(),
            final(self).phashes() == old(self).phashes(),
            final(self).cancelled() == old(self).cancelled(),
    {
        load_hash_lines(&mut self.repo, lines);
    }

    /// Replaces the keyword store with the given file lines.
    pub fn load_keyword_database(&mut self, lines: &Vec<String>)
        requires
            old(self).inv(),
        ensures
            final(self).inv(),
            final(self).keywords() == spec_load_keywords(lines@.map_values(|s: String| s@)),
            final(self).hashes() == old(self).hashes(),
            final(self).phashes() == old(self).phashes(),
            final(self).cancelled() == old(self).cancelled(),
    {
        load_keyword_lines(&mut self.repo, lines);
    }

    /// Replaces the perceptual-hash store with the given file lines.
    pub fn load_phash_database(&mut self, lines: &Vec<String>)
        requires
            old(self).inv(),
        ensures
            final(self).inv(),
            final(self).phashes() == spec_load_phashes(lines@.map_values(|s: String| s@)),
            final(self).keywords() == old(self).keywords(),
            final(self).hashes() == old(self).hashes(),
            final(self).cancelled() == old(self).cancelled(),
    {
        load_phash_lines(&mut self.repo, lines);
    }
}

} // verus!

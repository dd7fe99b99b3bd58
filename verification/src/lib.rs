//! Forensic media-triage engine: fingerprints scanned files with content
//! hashes and perceptual hashes, matches them against a known corpus of
//! hashes, keywords and perceptual signatures, and keeps a large scan
//! responsive and cancellable.
//!
//! Everything that decides — classification, fingerprint arithmetic,
//! corpus lookups, match priority, persistence parsing, session
//! accounting — lives here with a contract. Walking directories, reading
//! files, decoding media and moving work between threads stay with the
//! caller, which hands plain values in and takes plain values back.
use vstd::prelude::*;

pub mod db;
pub mod digest;
pub mod frames;
pub mod media;
pub mod phash;
pub mod preference;
pub mod repository;
pub mod search;
pub mod service;
pub mod text;

verus! {

use crate::repository::CsamRepository;
use crate::repository::Repository;
use crate::service::Service;

/// Builds and hands out the one service instance an application uses;
/// constructed explicitly and passed where it is needed.
pub struct ServiceProvider {
    csam_service: Service,
}

impl ServiceProvider {
    /// A provider holding a service over a fresh, empty corpus.
    pub fn new() -> (r: Self)
        ensures
            r.service_view().inv(),
            !r.service_view().cancelled(),
            r.service_view().keywords().len() == 0,
            r.service_view().hashes().len() == 0,
            r.service_view().phashes().len() == 0,
    {
        let repo = CsamRepository::new();
        ServiceProvider { csam_service: Service::new(repo) }
    }

    /// The held service.
    pub closed spec fn service_view(&self) -> Service {
        self.csam_service
    }

    /// Read access to the held service.
    pub fn csam_service(&self) -> (r: &Service)
        ensures
            *r == self.service_view(),
    {
        &self.csam_service
    }

    /// Exclusive access to the held service, for loads and cancellation.
    pub fn service_mut(&mut self) -> (r: &mut Service)
        ensures
            *r == old(self).service_view(),
            final(self).service_view() == *final(r),
    {
        &mut self.csam_service
    }
}

} // verus!

use chasam_core::repository::CsamRepository;
use chasam_core::repository::InMemoryRepository;
use chasam_core::repository::Repository;

#[test]
fn in_memory_repository_test_contains_keyword_should_return_true() {
    let mut repo = InMemoryRepository::new();
    let filename = "File name 13 year old test xpto.";
    let keyword = "13 year old";
    repo.add_keyword(keyword);
    let result = repo.contains_keyword(filename);
    assert_eq!(result, Some(keyword.to_owned()));
}

#[test]
fn in_memory_repository_test_contains_hash_should_return_true() {
    let mut repo = InMemoryRepository::new();
    let hash = "50cd5ed4af91a2723d14f8b9f4254b7d";
    repo.add_hash(hash);
    let result = repo.contains_hash(hash);
    assert_eq!(result, true);
}

#[test]
fn in_memory_repository_test_match_phash_should_return_distance_equals_1() {
    let mut repo = InMemoryRepository::new();
    let phash_1: u64 = 15634510955120228568;
    repo.add_phash(phash_1);
    let phash_2: u64 = 15634510955120226520;
    let result = repo.match_phash(phash_2, 10);
    assert_ne!(result, None);

    if let Some(distance) = result {
        assert_eq!(distance, 1);
    }
}

#[test]
fn csam_repository_test_contains_keyword_should_return_true() {
    let mut repo = CsamRepository::new();
    let filename = "File name 13 year old test xpto.";
    let keyword = "13 year old";
    repo.add_keyword(keyword);
    let result = repo.contains_keyword(filename);
    assert_eq!(result, Some(keyword.to_owned()));
}

#[test]
fn csam_repository_test_contains_hash_should_return_true() {
    let mut repo = CsamRepository::new();
    let hash = "cd63c80d3ad93dde00213e9b7a621513519c0d90";
    repo.add_hash(hash);
    let result = repo.contains_hash(hash);
    assert_eq!(result, true);
}

#[test]
fn csam_repository_test_match_phash_should_return_distance_equals_1() {
    let mut repo = CsamRepository::new();
    let phash_1: u64 = 15634510955120228568;
    repo.add_phash(phash_1);
    let phash_2: u64 = 15634510955120226520;
    let result = repo.match_phash(phash_2, 10);
    assert_ne!(result, None);

    if let Some(distance) = result {
        assert_eq!(distance, 1);
    }
}

#[test]
fn contains_hash_matches_any_case_variant() {
    let mut repo = InMemoryRepository::new();
    repo.add_hash("ABCdef0123");
    assert!(repo.contains_hash("abcdef0123"));
    assert!(repo.contains_hash("ABCDEF0123"));
    assert!(repo.contains_hash("aBcDeF0123"));
    assert!(!repo.contains_hash("abcdef0124"));
}

#[test]
fn contains_keyword_matches_any_case_variant_of_filename() {
    let mut repo = InMemoryRepository::new();
    repo.add_keyword("KeyWord");
    assert_eq!(
        repo.contains_keyword("holiday KEYWORD picture.jpg"),
        Some("keyword".to_owned())
    );
    assert_eq!(repo.contains_keyword("nothing of note.jpg"), None);
}

#[test]
fn contains_keyword_prefers_first_inserted_match() {
    let mut repo = InMemoryRepository::new();
    repo.add_keyword("second to none");
    repo.add_keyword("second");
    assert_eq!(
        repo.contains_keyword("a second to none file"),
        Some("second to none".to_owned())
    );
}

#[test]
fn match_phash_returns_minimum_within_bound() {
    let mut repo = InMemoryRepository::new();
    repo.add_phash(0b1111);
    repo.add_phash(0b0111);
    repo.add_phash(0b0011);
    // distances from 0: 4, 3, 2
    assert_eq!(repo.match_phash(0, 10), Some(2));
    assert_eq!(repo.match_phash(0, 2), Some(2));
    assert_eq!(repo.match_phash(0, 1), None);
    // the same hash is at distance zero from itself
    assert_eq!(repo.match_phash(0b1111, 10), Some(0));
}

#[test]
fn match_phash_empty_store_matches_nothing() {
    let repo = InMemoryRepository::new();
    assert_eq!(repo.match_phash(42, u32::MAX), None);
}

#[test]
fn clear_is_idempotent() {
    let mut repo = InMemoryRepository::new();
    repo.add_keyword("kw");
    repo.add_hash("aa");
    repo.add_phash(7);
    repo.clear();
    assert_eq!(repo.count_keyword(), 0);
    assert_eq!(repo.count_hash(), 0);
    assert_eq!(repo.count_phash(), 0);
    repo.clear();
    assert_eq!(repo.count_keyword(), 0);
    assert_eq!(repo.count_hash(), 0);
    assert_eq!(repo.count_phash(), 0);
}

#[test]
fn duplicate_inserts_are_kept_once_for_hashes_and_keywords() {
    let mut repo = InMemoryRepository::new();
    repo.add_hash("aabb");
    repo.add_hash("AABB");
    repo.add_hash("aabb");
    assert_eq!(repo.count_hash(), 1);
    repo.add_keyword("dog");
    repo.add_keyword("DOG");
    assert_eq!(repo.count_keyword(), 1);
    // the perceptual-hash store keeps duplicates
    repo.add_phash(9);
    repo.add_phash(9);
    assert_eq!(repo.count_phash(), 2);
}

#[test]
fn load_keywords_returns_stored_keywords_lowercased() {
    let mut repo = InMemoryRepository::new();
    repo.add_keyword("Alpha");
    repo.add_keyword("beta");
    let kws = repo.load_keywords();
    assert_eq!(kws, vec!["alpha".to_owned(), "beta".to_owned()]);
}

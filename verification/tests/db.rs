use chasam_core::digest::md5_hex;
use chasam_core::db::load_hash_lines;
use chasam_core::db::load_keyword_lines;
use chasam_core::db::load_phash_lines;
use chasam_core::repository::InMemoryRepository;
use chasam_core::repository::Repository;

#[test]
fn load_hash_lines_keeps_every_distinct_line() {
    let mut repo = InMemoryRepository::new();
    let lines = vec!["aa11".to_owned(), "bb22".to_owned(), "cc33".to_owned()];
    load_hash_lines(&mut repo, &lines);
    assert_eq!(repo.count_hash(), 3);
    assert!(repo.contains_hash("aa11"));
    assert!(repo.contains_hash("BB22"));
    assert!(!repo.contains_hash("dd44"));
}

#[test]
fn load_hash_lines_replaces_the_previous_store() {
    let mut repo = InMemoryRepository::new();
    repo.add_hash("old");
    let lines = vec!["new1".to_owned(), "new2".to_owned()];
    load_hash_lines(&mut repo, &lines);
    assert_eq!(repo.count_hash(), 2);
    assert!(!repo.contains_hash("old"));
}

#[test]
fn repeated_load_with_the_same_lines_yields_the_same_count() {
    let mut repo = InMemoryRepository::new();
    let lines = vec!["x1".to_owned(), "x2".to_owned(), "x1".to_owned()];
    load_hash_lines(&mut repo, &lines);
    let first = repo.count_hash();
    load_hash_lines(&mut repo, &lines);
    assert_eq!(repo.count_hash(), first);
    assert_eq!(first, 2);

    let kw_lines = vec!["a".to_owned(), "".to_owned(), "b".to_owned()];
    load_keyword_lines(&mut repo, &kw_lines);
    let first_kw = repo.count_keyword();
    load_keyword_lines(&mut repo, &kw_lines);
    assert_eq!(repo.count_keyword(), first_kw);
    assert_eq!(first_kw, 2);
}

#[test]
fn load_keyword_lines_skips_blank_lines() {
    let mut repo = InMemoryRepository::new();
    let lines = vec![
        "first".to_owned(),
        "".to_owned(),
        "   ".to_owned(),
        "\t".to_owned(),
        "Second".to_owned(),
    ];
    load_keyword_lines(&mut repo, &lines);
    assert_eq!(repo.count_keyword(), 2);
    assert_eq!(
        repo.contains_keyword("my second file"),
        Some("second".to_owned())
    );
}

#[test]
fn load_phash_lines_skips_malformed_lines_silently() {
    let mut repo = InMemoryRepository::new();
    let lines = vec![
        "123".to_owned(),
        "not a number".to_owned(),
        "".to_owned(),
        "18446744073709551615".to_owned(),
        "18446744073709551616".to_owned(),  // one past the 64-bit range
        "-5".to_owned(),
        "456".to_owned(),
    ];
    load_phash_lines(&mut repo, &lines);
    assert_eq!(repo.count_phash(), 3);
    assert_eq!(repo.match_phash(123, 0), Some(0));
    assert_eq!(repo.match_phash(u64::MAX, 0), Some(0));
    assert_eq!(repo.match_phash(456, 0), Some(0));
}

#[test]
fn hash_database_round_trip_is_lossless() {
    // building a database writes one content-hash line per source file;
    // loading those lines back yields exactly one entry per distinct file
    let sources: Vec<&[u8]> = vec![b"first file", b"second file", b"third file"];
    let lines: Vec<String> = sources.iter().map(|data| md5_hex(data)).collect();
    let mut repo = InMemoryRepository::new();
    load_hash_lines(&mut repo, &lines);
    assert_eq!(repo.count_hash(), sources.len());
    for line in &lines {
        assert!(repo.contains_hash(line));
    }
}

#[test]
fn loads_touch_only_their_own_store() {
    let mut repo = InMemoryRepository::new();
    repo.add_keyword("kw");
    repo.add_phash(5);
    let lines = vec!["h1".to_owned()];
    load_hash_lines(&mut repo, &lines);
    assert_eq!(repo.count_keyword(), 1);
    assert_eq!(repo.count_phash(), 1);
    assert_eq!(repo.count_hash(), 1);
}

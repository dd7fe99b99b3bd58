use chasam_core::media::is_image;
use chasam_core::media::is_media;
use chasam_core::media::is_video;
use chasam_core::media::media_type_of;
use chasam_core::media::rounded_kb;
use chasam_core::media::MatchType;
use chasam_core::media::Media;
use chasam_core::media::MediaType;
use chasam_core::repository::InMemoryRepository;
use chasam_core::repository::Repository;

#[test]
fn media_test_is_image() {
    assert_eq!(is_image("jpeg"), true);
}

#[test]
fn media_test_is_video() {
    assert_eq!(is_video("mp4"), true);
}

#[test]
fn media_test_is_media() {
    assert_eq!(is_media("bmp"), true);
}

#[test]
fn mod_test_is_image() {
    assert_eq!(is_image("jpeg"), true);
}

#[test]
fn mod_test_is_video() {
    assert_eq!(is_video("mp4"), true);
}

#[test]
fn mod_test_is_media() {
    assert_eq!(is_media("bmp"), true);
}

#[test]
fn extension_checks_reject_unknown_formats() {
    assert!(!is_image("mp4"));
    assert!(!is_video("jpeg"));
    assert!(!is_media("txt"));
    assert!(is_media("webm"));
}

#[test]
fn media_type_follows_the_name_extension() {
    assert_eq!(media_type_of("holiday.JPG"), MediaType::Image);
    assert_eq!(media_type_of("holiday.jpeg"), MediaType::Image);
    assert_eq!(media_type_of("clip.mp4"), MediaType::Video);
    assert_eq!(media_type_of("archive.tar.gif"), MediaType::Image);
    assert_eq!(media_type_of("no_extension"), MediaType::Video);
    assert_eq!(media_type_of(".hidden"), MediaType::Video);
}

#[test]
fn rounded_kb_rounds_to_the_nearest_kilobyte() {
    assert_eq!(rounded_kb(0), 0);
    assert_eq!(rounded_kb(511), 0);
    assert_eq!(rounded_kb(512), 1);
    assert_eq!(rounded_kb(1023), 1);
    assert_eq!(rounded_kb(1536), 2);
    assert_eq!(rounded_kb(u64::MAX), u64::MAX / 1024 + 1);
}

#[test]
fn exact_hash_match_shadows_keyword_match() {
    let mut repo = InMemoryRepository::new();
    repo.add_hash("d41d8cd98f00b204e9800998ecf8427e");
    repo.add_keyword("holiday");
    let result = Media::find_csam(
        &repo,
        "my holiday picture.jpg",
        "d41d8cd98f00b204e9800998ecf8427e",
        &[],
    );
    assert!(matches!(result, Some(MatchType::MD5)));
}

#[test]
fn keyword_match_shadows_perceptual_match() {
    let mut repo = InMemoryRepository::new();
    repo.add_keyword("holiday");
    repo.add_phash(1024);
    let result = Media::find_csam(&repo, "my holiday picture.jpg", "feed", &[1024]);
    match result {
        Some(MatchType::Keyword(kw)) => assert_eq!(kw, "holiday"),
        other => panic!("expected a keyword match, got {:?}", other),
    }
}

#[test]
fn perceptual_match_keeps_smallest_distance_over_candidates() {
    let mut repo = InMemoryRepository::new();
    repo.add_phash(0b1);
    let result = Media::find_csam(&repo, "plain.jpg", "feed", &[0b1111, 0b11]);
    match result {
        Some(MatchType::PHash(candidate, dist)) => {
            assert_eq!(candidate, 0b11);
            assert_eq!(dist, 1);
        }
        other => panic!("expected a perceptual match, got {:?}", other),
    }
}

#[test]
fn no_signal_yields_no_match() {
    let mut repo = InMemoryRepository::new();
    repo.add_hash("aa");
    repo.add_keyword("zz");
    repo.add_phash(0);
    let far = u64::MAX;  // 64 bits away from the stored hash
    let result = Media::find_csam(&repo, "clean.jpg", "bb", &[far]);
    assert!(result.is_none());
}

#[test]
fn media_record_carries_attributes_and_match() {
    let mut repo = InMemoryRepository::new();
    repo.add_hash("d41d8cd98f00b204e9800998ecf8427e");
    let media = Media::new(
        &repo,
        "photo.jpg".to_owned(),
        "/data/photo.jpg".to_owned(),
        2048,
        1700000000,
        "d41d8cd98f00b204e9800998ecf8427e".to_owned(),
        &[77],
        None,
    );
    assert_eq!(media.name, "photo.jpg");
    assert_eq!(media.path, "/data/photo.jpg");
    assert_eq!(media.media_type, MediaType::Image);
    assert_eq!(media.size, 2);
    assert_eq!(media.last_modified, 1700000000);
    assert_eq!(media.hash, "d41d8cd98f00b204e9800998ecf8427e");
    assert!(matches!(media.match_type, Some(MatchType::MD5)));
    assert_eq!(media.phash, 77);
    assert_eq!(media.hamming, 0);
    assert!(media.img_buf.is_none());
}

#[test]
fn media_record_without_match_zeroes_fingerprint_fields() {
    let repo = InMemoryRepository::new();
    let media = Media::new(
        &repo,
        "movie.mp4".to_owned(),
        "/data/movie.mp4".to_owned(),
        100,
        0,
        "feed".to_owned(),
        &[],
        None,
    );
    assert_eq!(media.media_type, MediaType::Video);
    assert!(media.match_type.is_none());
    assert_eq!(media.phash, 0);
    assert_eq!(media.hamming, 0);
}

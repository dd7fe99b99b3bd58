use chasam_core::repository::CsamRepository;
use chasam_core::repository::Repository;
use chasam_core::service::Service;
use chasam_core::ServiceProvider;

#[test]
fn service_counts_follow_its_repository() {
    let mut repo = CsamRepository::new();
    repo.add_hash("aa");
    repo.add_keyword("kw");
    repo.add_phash(1);
    repo.add_phash(2);
    let service = Service::new(repo);
    assert_eq!(service.count_hash(), 1);
    assert_eq!(service.count_keyword(), 1);
    assert_eq!(service.count_phash(), 2);
    assert_eq!(service.load_keywords(), vec!["kw".to_owned()]);
}

#[test]
fn cancellation_flag_raises_and_resets() {
    let service = Service::new(CsamRepository::new());
    let mut service = service;
    assert!(!service.is_cancelled());
    service.cancel_task();
    assert!(service.is_cancelled());
    service.reset_cancel();
    assert!(!service.is_cancelled());
    service.stop_search_media();
    assert!(service.is_cancelled());
}

#[test]
fn service_loads_database_lines() {
    let mut service = Service::new(CsamRepository::new());
    service.load_hash_database(&vec!["h1".to_owned(), "h2".to_owned()]);
    service.load_keyword_database(&vec!["kw".to_owned(), "".to_owned()]);
    service.load_phash_database(&vec!["7".to_owned(), "bad".to_owned()]);
    assert_eq!(service.count_hash(), 2);
    assert_eq!(service.count_keyword(), 1);
    assert_eq!(service.count_phash(), 1);
    assert!(service.repository().contains_hash("H1"));
}

#[test]
fn provider_hands_out_one_service() {
    let mut provider = ServiceProvider::new();
    assert_eq!(provider.csam_service().count_hash(), 0);
    provider
        .service_mut()
        .load_hash_database(&vec!["aa".to_owned()]);
    assert_eq!(provider.csam_service().count_hash(), 1);
}

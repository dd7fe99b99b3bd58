use chasam_core::media::Media;
use chasam_core::media::MediaType;
use chasam_core::repository::InMemoryRepository;
use chasam_core::search::Batcher;
use chasam_core::search::SearchMedia;
use chasam_core::search::StateMedia;
use chasam_core::search::BATCH_SIZE;

fn sample_media(name: &str) -> Media {
    let repo = InMemoryRepository::new();
    Media::new(
        &repo,
        name.to_owned(),
        format!("/tmp/{}", name),
        1024,
        0,
        "feed".to_owned(),
        &[],
        None,
    )
}

#[test]
fn cancelled_scan_still_completes_exactly_once() {
    // a scan over many files, stopped immediately: in-flight work drains,
    // the discovery count still goes out, exactly one terminal event
    // follows, and the records delivered never outnumber the discoveries
    let mut session = SearchMedia::new();
    session.start();

    let total_files: usize = 1500;
    let mut enumerated: usize = 0;
    let mut in_flight: usize = 0;
    let mut delivered: usize = 0;
    let mut events: Vec<StateMedia> = Vec::new();

    for i in 0..total_files {
        if !session.should_continue() {
            break;
        }
        session.on_file_found();
        enumerated += 1;
        in_flight += 1;
        if i == 0 {
            // the consumer asks for cancellation right away
            session.stop();
        }
    }
    assert!(enumerated < total_files);

    events.push(session.emit_found());

    // workers observe the flag; whatever was already scheduled drains
    while in_flight > 0 {
        let runs = session.should_continue();
        session.on_worker_done(runs);
        if runs {
            delivered += 1;
        }
        in_flight -= 1;
    }

    events.push(session.emit_completed());

    let mut found_events = 0;
    let mut completed_events = 0;
    let mut found_count = 0;
    for ev in &events {
        match ev {
            StateMedia::Found(n) => {
                found_events += 1;
                found_count = *n;
            }
            StateMedia::Completed => completed_events += 1,
            _ => {}
        }
    }
    assert_eq!(found_events, 1);
    assert_eq!(completed_events, 1);
    assert!(matches!(events.last(), Some(StateMedia::Completed)));
    assert_eq!(found_count, enumerated);
    assert!(delivered <= found_count);
}

#[test]
fn uncancelled_scan_delivers_every_record() {
    let mut session = SearchMedia::new();
    session.start();
    for _ in 0..250 {
        assert!(session.should_continue());
        session.on_file_found();
    }
    let found_ev = session.emit_found();
    assert!(matches!(found_ev, StateMedia::Found(250)));
    for _ in 0..250 {
        session.on_worker_done(true);
    }
    let done = session.emit_completed();
    assert!(matches!(done, StateMedia::Completed));
}

#[test]
fn stop_blocks_new_scheduling() {
    let mut session = SearchMedia::new();
    session.start();
    assert!(session.should_continue());
    session.stop();
    assert!(!session.should_continue());
    // a new start resets the flag
    session.start();
    assert!(session.should_continue());
}

#[test]
fn batcher_flushes_full_batches_in_order() {
    let mut batcher = Batcher::new();
    let mut batches: Vec<Vec<Media>> = Vec::new();
    let total = BATCH_SIZE + 30;
    for i in 0..total {
        if let Some(batch) = batcher.push(sample_media(&format!("file{}.jpg", i))) {
            batches.push(batch);
        }
    }
    assert_eq!(batches.len(), 1);
    assert_eq!(batches[0].len(), BATCH_SIZE);
    assert_eq!(batches[0][0].name, "file0.jpg");
    assert_eq!(batches[0][BATCH_SIZE - 1].name, format!("file{}.jpg", BATCH_SIZE - 1));

    let rest = batcher.flush().expect("a partial batch remains");
    assert_eq!(rest.len(), 30);
    assert_eq!(rest[0].name, format!("file{}.jpg", BATCH_SIZE));
    assert!(batcher.flush().is_none());
}

#[test]
fn sample_media_classifies_by_extension() {
    let media = sample_media("clip.webm");
    assert_eq!(media.media_type, MediaType::Video);
}

use book_router::config::AppConfig;
use book_router::db::requests::{is_pending_search_state, next_state_after_search};
use book_router::domain::requests::{MediaType, RequestRecord};
use book_router::domain::settings::{
    DownloadClientSettingsUpdate, PersistedRuntimeSettings, QbittorrentSettingsUpdate,
    RuntimeSettingsUpdate,
};
use book_router::http::handlers::settings::preview_settings;
use book_router::json::{JsonNumber, JsonValue};
use book_router::library_scanner::{scan_outcome, scanned_item, ScanCounts, ScanOutcome};
use book_router::search::prowlarr::candidates_from_payload;
use book_router::workers::backfill::{backfill_delay_secs, backfill_event_payload};
use book_router::workers::search_worker::{
    indexer_label, label_direct_results, no_candidates_completion, review_queue_size,
    search_completion, SearchCompletion, SearchWorker,
};
use book_router::workers::sync_worker::check_sync_precondition;

fn text_value(v: &str) -> JsonValue {
    JsonValue::Str(v.to_string())
}

fn release_object(entries: Vec<(&str, JsonValue)>) -> JsonValue {
    JsonValue::Object(entries.into_iter().map(|(k, v)| (k.to_string(), v)).collect())
}

fn release(guid: &str, title: &str, url: &str) -> JsonValue {
    release_object(vec![
        ("guid", text_value(guid)),
        ("title", text_value(title)),
        ("size", JsonValue::Number(JsonNumber { repr: "1234".to_string(), int: Some(1234) })),
        ("protocol", text_value("torrent")),
        ("indexer", text_value("Books")),
        ("downloadUrl", text_value(url)),
    ])
}

fn hobbit_request() -> RequestRecord {
    let mut r = RequestRecord::for_tests("The Hobbit", "J.R.R. Tolkien", MediaType::Ebook);
    r.preferred_language = Some("en".to_string());
    r
}

fn runtime_with_qbittorrent(qbittorrent: bool) -> PersistedRuntimeSettings {
    let seeded = PersistedRuntimeSettings::from_config(&AppConfig::for_tests());
    if !qbittorrent {
        return seeded;
    }
    let update = RuntimeSettingsUpdate {
        download_clients: Some(DownloadClientSettingsUpdate {
            qbittorrent: Some(QbittorrentSettingsUpdate {
                enabled: Some(true),
                base_url: Some("http://127.0.0.1:8080".to_string()),
                username: Some("admin".to_string()),
                password: Some("adminadmin".to_string()),
                ..Default::default()
            }),
        }),
        ..Default::default()
    };
    preview_settings(seeded, update).unwrap()
}

#[test]
fn search_worker_auto_acquires_high_confidence_candidates() {
    let payload = JsonValue::Array(vec![release(
        "candidate-1",
        "The Hobbit J.R.R. Tolkien EPUB",
        "magnet:?xt=urn:btih:0123456789abcdef0123456789abcdef01234567&dn=The+Hobbit",
    )]);
    let candidates = candidates_from_payload(&payload).unwrap();
    let decision = SearchWorker::decide(&hobbit_request(), &runtime_with_qbittorrent(true), candidates, &vec![]);
    assert_eq!(decision.candidates_seen, 1);
    assert_eq!(decision.qualified.len(), 1);
    assert!(decision.try_auto_acquire);
    match search_completion(&decision, true) {
        SearchCompletion::Completed { outcome, candidates_seen, qualified_candidates, .. } => {
            assert_eq!(outcome, "auto_acquire");
            assert_eq!(candidates_seen, 1);
            assert_eq!(qualified_candidates, 1);
            assert_eq!(next_state_after_search(outcome), "queued");
        }
        other => panic!("unexpected {:?}", other),
    }
}

#[test]
fn search_worker_queues_review_candidates_below_auto_threshold() {
    let payload = JsonValue::Array(vec![release(
        "candidate-review",
        "The Hobbit J.R.R. Tolkien narrated by Andy Serkis [ENG]",
        "magnet:?xt=urn:btih:bbbbbbbbbbbbbbbbbbbbbbbbbbbbbbbbbbbbbbbb&dn=The+Hobbit",
    )]);
    let candidates = candidates_from_payload(&payload).unwrap();
    let decision = SearchWorker::decide(&hobbit_request(), &runtime_with_qbittorrent(false), candidates, &vec![]);
    assert!(!decision.try_auto_acquire);
    assert_eq!(decision.qualified.len(), 1);
    let best = &decision.qualified[0].0;
    assert_eq!(
        best.download_url.as_deref(),
        Some("magnet:?xt=urn:btih:bbbbbbbbbbbbbbbbbbbbbbbbbbbbbbbbbbbbbbbb&dn=The+Hobbit")
    );
    assert_eq!(best.narrator.as_deref(), Some("Andy Serkis"));
    assert_eq!(best.detected_language.as_deref(), Some("en"));
    match search_completion(&decision, false) {
        SearchCompletion::ReviewQueued { queued, .. } => assert_eq!(queued, 1),
        other => panic!("unexpected {:?}", other),
    }
}

#[test]
fn rejected_candidates_are_not_reconsidered() {
    let payload = JsonValue::Array(vec![release("candidate-1", "The Hobbit J.R.R. Tolkien EPUB", "magnet:?a")]);
    let candidates = candidates_from_payload(&payload).unwrap();
    let decision = SearchWorker::decide(
        &hobbit_request(),
        &runtime_with_qbittorrent(true),
        candidates,
        &vec!["candidate-1".to_string()],
    );
    assert_eq!(decision.candidates_seen, 1);
    assert!(decision.qualified.is_empty());
    assert!(!decision.try_auto_acquire);
    match search_completion(&decision, false) {
        SearchCompletion::Completed { outcome, qualified_candidates, top_score, .. } => {
            assert_eq!(outcome, "no_match");
            assert_eq!(qualified_candidates, 0);
            assert_eq!(top_score, None);
        }
        other => panic!("unexpected {:?}", other),
    }
}

#[test]
fn search_bookkeeping_helpers() {
    assert_eq!(review_queue_size(3), 3);
    assert_eq!(review_queue_size(25), 10);
    assert!(matches!(
        no_candidates_completion(),
        SearchCompletion::Completed { outcome: "no_match", candidates_seen: 0, qualified_candidates: 0, top_score: None }
    ));
    assert_eq!(indexer_label(7), "indexer-7");
    let payload = JsonValue::Array(vec![release("a", "Some Title", "magnet:?a"), release("b", "Other", "magnet:?b")]);
    let labelled = label_direct_results(candidates_from_payload(&payload).unwrap(), 3);
    assert_eq!(labelled.len(), 2);
    assert!(labelled.iter().all(|c| c.indexer == "indexer-3"));
    assert_eq!(labelled[1].external_id, "b");
    assert_eq!(next_state_after_search("no_match"), "no_match");
    assert!(is_pending_search_state("requested"));
    assert!(!is_pending_search_state("imported"));
}

#[test]
fn scanner_discovers_ebook_and_audiobook() {
    let mut counts = ScanCounts::default();
    let ebook = scan_outcome(MediaType::Ebook, &["Foundation.epub".to_string()], false);
    counts.record(MediaType::Ebook, ebook);
    let audio = scan_outcome(MediaType::Audiobook, &["part1.m4b".to_string()], false);
    counts.record(MediaType::Audiobook, audio);
    assert_eq!(counts.ebooks_found, 1);
    assert_eq!(counts.audiobooks_found, 1);
    assert_eq!(counts.duplicates_skipped, 0);
    let item = scanned_item(Some("Isaac Asimov"), Some("Foundation"), MediaType::Ebook, "/ebooks/Isaac Asimov/Foundation");
    assert_eq!(item.author, "Isaac Asimov");
    assert_eq!(item.title, "Foundation");
    let unnamed = scanned_item(None, None, MediaType::Audiobook, "/a");
    assert_eq!(unnamed.author, "Unknown Author");
    assert_eq!(unnamed.title, "Unknown Title");
}

#[test]
fn scanner_skips_duplicates_by_path_and_title_author() {
    let files = ["book.epub".to_string()];
    let mut first = ScanCounts::default();
    first.record(MediaType::Ebook, scan_outcome(MediaType::Ebook, &files, false));
    assert_eq!(first.ebooks_found, 1);
    let mut second = ScanCounts::default();
    second.record(MediaType::Ebook, scan_outcome(MediaType::Ebook, &files, true));
    assert_eq!(second.ebooks_found, 0);
    assert_eq!(second.duplicates_skipped, 1);
    // a directory of another kind is not counted at all
    assert_eq!(scan_outcome(MediaType::Ebook, &["part1.m4b".to_string()], false), ScanOutcome::Skipped);
    assert_eq!(scan_outcome(MediaType::Ebook, &[], false), ScanOutcome::Skipped);
}

#[test]
fn backfill_waits_and_rewrites_the_creation_event() {
    assert_eq!(backfill_delay_secs(Some(2)), 60);
    assert_eq!(backfill_delay_secs(Some(0)), 3600);
    assert_eq!(backfill_delay_secs(None), 300);
    let payload = release_object(vec![("request_id", text_value("r1")), ("title", text_value("old"))]);
    let p = backfill_event_payload(payload, "OL1W", "The Hobbit", "Tolkien");
    assert_eq!(p.member_str("request_id"), Some("r1"));
    assert_eq!(p.member_str("external_work_id"), Some("OL1W"));
    assert_eq!(p.member_str("title"), Some("The Hobbit"));
    assert_eq!(p.member_str("author"), Some("Tolkien"));
    assert_eq!(p.get("work").and_then(|w| w.member_str("external_id")), Some("OL1W"));
}

#[test]
fn sync_needs_an_imported_request() {
    assert_eq!(check_sync_precondition("r1", "imported"), Ok(()));
    assert_eq!(
        check_sync_precondition("r1", "queued"),
        Err("request r1 must be imported before sync".to_string())
    );
}

#[test]
fn review_queue_keeps_the_best_ten_unrejected_candidates() {
    let mut releases = Vec::new();
    for i in 0..12 {
        let title = if i % 2 == 0 {
            format!("The Hobbit J.R.R. Tolkien EPUB {}", i)
        } else {
            format!("The Hobbit {}", i)
        };
        releases.push(release(&format!("c{}", i), &title, &format!("magnet:?{}", i)));
    }
    let candidates = candidates_from_payload(&JsonValue::Array(releases)).unwrap();
    let rejected = vec!["c0".to_string()];
    let decision = SearchWorker::decide(&hobbit_request(), &runtime_with_qbittorrent(false), candidates, &rejected);
    assert_eq!(decision.candidates_seen, 12);
    assert!(!decision.try_auto_acquire);
    let queued = match search_completion(&decision, false) {
        SearchCompletion::ReviewQueued { queued, top_score } => {
            assert_eq!(top_score, Some(decision.qualified[0].1.score));
            queued
        }
        other => panic!("unexpected {:?}", other),
    };
    assert!(queued <= 10);
    assert_eq!(queued, decision.qualified.len().min(10));
    let queue: Vec<_> = decision.qualified.iter().take(queued).collect();
    assert!(!queue.is_empty());
    for pair in queue.windows(2) {
        assert!(pair[0].1.score >= pair[1].1.score);
    }
    assert!(queue.iter().all(|(c, _)| c.external_id != "c0"));
    assert_eq!(next_state_after_search("review"), "review");
}

use book_router::domain::auth::UserRole;
use book_router::domain::events::RequestEventKind;
use book_router::domain::requests::{ManifestationPreference, MediaType, RequestRecord};
use book_router::domain::search::ReleaseCandidate;
use book_router::domain::submissions::{SubmissionIntakeMode, SubmissionStatus};
use book_router::matcher::score_candidate;
use book_router::workers::download_worker::finish_payload_files;
use book_router::workers::search_worker::dedupe_candidates;

#[test]
fn stored_names_read_back() {
    for m in [MediaType::Ebook, MediaType::Audiobook] {
        assert_eq!(MediaType::from_str(m.as_str()), Some(m));
    }
    assert_eq!(MediaType::from_str("comic"), None);
    for r in [UserRole::Admin, UserRole::Trusted, UserRole::Requester] {
        assert_eq!(UserRole::from_db(r.as_db()), Some(r));
    }
    for k in [
        RequestEventKind::Created,
        RequestEventKind::SearchCompleted,
        RequestEventKind::ReviewQueued,
        RequestEventKind::ReviewApproved,
        RequestEventKind::ReviewRejected,
        RequestEventKind::DownloadQueued,
        RequestEventKind::DownloadCompleted,
        RequestEventKind::ImportSucceeded,
        RequestEventKind::SyncSucceeded,
        RequestEventKind::LibraryDiscovered,
    ] {
        assert_eq!(RequestEventKind::from_db(k.as_str().to_string()), Ok(k));
    }
    assert!(RequestEventKind::from_db("unknown".to_string()).is_err());
    for s in [
        SubmissionStatus::Submitted,
        SubmissionStatus::PendingResolution,
        SubmissionStatus::Resolved,
        SubmissionStatus::Approved,
        SubmissionStatus::Rejected,
    ] {
        assert_eq!(SubmissionStatus::from_db(s.as_db()), Some(s));
    }
    for m in [SubmissionIntakeMode::Metadata, SubmissionIntakeMode::Manual] {
        assert_eq!(SubmissionIntakeMode::from_db(m.as_db()), Some(m));
    }
}

#[test]
fn payload_files_come_sorted_and_an_empty_payload_fails() {
    let files = vec!["/d/b.mp3".to_string(), "/d/a.mp3".to_string(), "/d/B.mp3".to_string()];
    assert_eq!(
        finish_payload_files(files, "h1", "/d"),
        Ok(vec!["/d/B.mp3".to_string(), "/d/a.mp3".to_string(), "/d/b.mp3".to_string()])
    );
    assert_eq!(
        finish_payload_files(vec![], "h1", "/d"),
        Err("qBittorrent payload directory was empty for torrent h1: /d".to_string())
    );
}

#[test]
fn repeated_releases_are_kept_once() {
    let mut a = ReleaseCandidate::for_tests("One");
    a.external_id = "x".to_string();
    let mut b = ReleaseCandidate::for_tests("Two");
    b.external_id = "x".to_string();
    let mut c = ReleaseCandidate::for_tests("Three");
    c.external_id = "y".to_string();
    let mut d = ReleaseCandidate::for_tests("Four");
    d.external_id = "x".to_string();
    d.source = "torznab".to_string();
    let unique = dedupe_candidates(vec![a, b, c, d]);
    let titles: Vec<&str> = unique.iter().map(|c| c.title.as_str()).collect();
    assert_eq!(titles, vec!["One", "Three", "Four"]);
}

#[test]
fn scores_stay_within_their_bounds() {
    let request = RequestRecord::for_tests("The Hobbit", "Tolkien", MediaType::Ebook);
    let full = score_candidate(&request, &ReleaseCandidate::for_tests("The Hobbit Tolkien EPUB"));
    assert_eq!(full.score, 9500);
    assert!(full.auto_acquire);
    let graphic = RequestRecord::for_tests("The Hobbit", "Tolkien", MediaType::Audiobook)
        .with_preferences(ManifestationPreference::new(None, None, None, true));
    let penalised = score_candidate(&graphic, &ReleaseCandidate::for_tests("Unrelated"));
    assert_eq!(penalised.score, -3000);
    assert!(!penalised.auto_acquire);
}

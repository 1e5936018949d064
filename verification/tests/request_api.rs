use book_router::config::AppConfig;
use book_router::domain::catalog::WorkRecord;
use book_router::domain::requests::{CreateRequestSelection, ManifestationPreference, MediaType};
use book_router::domain::settings::{AudiobookshelfIntegrationUpdate, PersistedRuntimeSettings};
use book_router::http::error::AppError;
use book_router::http::handlers::covers::{cover_failure_status, CoverFailure};
use book_router::http::handlers::library::scan_job_completion;
use book_router::http::handlers::requests::{
    after_rejection, check_approval_possible, has_searched, parse_media_types,
    requests_for_selection, selected_work_id, AfterRejection, RequestSearchQuery,
};
use book_router::http::handlers::settings::{
    apply_settings_update, audiobookshelf_test_shortcut, audiobookshelf_update,
};
use book_router::http::handlers::submissions::selected_work_or_error;
use book_router::library_scanner::ScanCounts;
use book_router::metadata::openlibrary::{
    cover_url, search_works_from_docs, work_from_response, CoverSize, SearchDoc, WorkResponse,
};
use book_router::sync::audiobookshelf::AudiobookshelfClient;

fn selection(work_id: Option<&str>, media_types: Vec<MediaType>) -> CreateRequestSelection {
    CreateRequestSelection {
        selected_work_id: work_id.map(|s| s.to_string()),
        media_types,
        preferred_language: Some(" en ".to_string()),
        manifestation: ManifestationPreference::default(),
    }
}

fn work(external_id: &str, title: &str, author: &str) -> WorkRecord {
    WorkRecord {
        external_id: external_id.to_string(),
        title: title.to_string(),
        primary_author: author.to_string(),
        first_publish_year: None,
        description: None,
        cover_id: None,
        subjects: vec![],
        edition_count: None,
    }
}

#[test]
fn get_requests_search_accepts_title_only_queries_and_normalizes_keys() {
    let query = RequestSearchQuery { title: Some("Dune".to_string()), author: None };
    assert!(has_searched(&query));
    let docs = vec![SearchDoc {
        key: "/works/OL123W".to_string(),
        title: "Dune".to_string(),
        author_name: vec!["Frank Herbert".to_string()],
    }];
    let works = search_works_from_docs(&docs);
    assert_eq!(works.works[0].external_id, "OL123W");
    assert_eq!(works.works[0].primary_author, "Frank Herbert");
    assert!(!has_searched(&RequestSearchQuery { title: Some("  ".to_string()), author: None }));
}

#[test]
fn get_requests_search_returns_empty_works_when_there_is_no_match() {
    assert!(search_works_from_docs(&vec![]).works.is_empty());
}

#[test]
fn post_requests_handles_missing_author_metadata_in_json_flow() {
    let response = WorkResponse {
        key: "/works/OL999W".to_string(),
        title: "Mystery Book".to_string(),
        authors: vec![],
    };
    let resolved = work_from_response(&response, None);
    assert_eq!(resolved.work.external_id, "OL999W");
    assert_eq!(resolved.work.primary_author, "Unknown author");
    let created = requests_for_selection(&selection(Some("OL999W"), vec![MediaType::Ebook]), &resolved.work);
    assert_eq!(created.len(), 1);
    assert_eq!(created[0].author, "Unknown author");
    assert_eq!(created[0].preferred_language.as_deref(), Some("en"));
}

#[test]
fn post_requests_rejects_invalid_json_payloads() {
    assert_eq!(
        selected_work_id(&selection(None, vec![MediaType::Audiobook])),
        Err(AppError::BadRequest("missing selected_work_id".to_string()))
    );
    assert_eq!(
        parse_media_types(vec![]),
        Err(AppError::BadRequest("no media types selected".to_string()))
    );
    assert_eq!(selected_work_id(&selection(Some(" OL27448W "), vec![])), Ok("OL27448W".to_string()));
}

#[test]
fn post_requests_rejects_forged_selected_work_not_backed_by_metadata() {
    let refused = selected_work_or_error(None).unwrap_err();
    assert_eq!(refused.status_and_message(), (400, "selected work id not found".to_string()));
    let found = work("OL27448W", "The Hobbit", "J.R.R. Tolkien");
    assert_eq!(selected_work_or_error(Some(found.clone())), Ok(found));
}

#[test]
fn post_requests_creates_requests_and_detail_includes_event_history() {
    let hobbit = work("OL27448W", "The Hobbit", "J.R.R. Tolkien");
    let created = requests_for_selection(
        &selection(Some("OL27448W"), vec![MediaType::Ebook, MediaType::Audiobook]),
        &hobbit,
    );
    assert_eq!(created.len(), 2);
    assert_eq!(created[0].media_type, MediaType::Ebook);
    assert_eq!(created[1].media_type, MediaType::Audiobook);
    assert!(created.iter().all(|r| r.external_work_id == "OL27448W" && r.title == "The Hobbit"));
}

#[test]
fn get_requests_search_returns_json_error_on_metadata_timeout() {
    assert_eq!(
        AppError::MetadataTimeout.status_and_message(),
        (504, "Metadata service timed out".to_string())
    );
}

#[test]
fn get_openlibrary_cover_proxy_passthroughs_image_and_content_type() {
    assert_eq!(
        cover_url("http://covers.test/", 2468, CoverSize::from_query_value(None)),
        "http://covers.test/b/id/2468-M.jpg"
    );
    assert_eq!(
        cover_url("http://covers.test", 1, CoverSize::from_query_value(Some("l"))),
        "http://covers.test/b/id/1-L.jpg"
    );
}

#[test]
fn get_openlibrary_cover_proxy_uses_default_size_and_passes_through_404() {
    assert_eq!(CoverSize::from_query_value(Some("X")), CoverSize::Medium);
    assert_eq!(cover_failure_status(CoverFailure::Missing), 404);
    assert_eq!(cover_failure_status(CoverFailure::Upstream), 502);
    assert_eq!(cover_failure_status(CoverFailure::Settings), 500);
}

#[test]
fn request_detail_includes_review_queue_and_reject_moves_to_no_match() {
    assert_eq!(after_rejection(0), AfterRejection::SearchAgain);
    assert_eq!(after_rejection(2), AfterRejection::StayInReview);
}

#[test]
fn approving_review_candidate_dispatches_to_qbittorrent_and_clears_queue() {
    assert_eq!(
        check_approval_possible(false),
        Err(AppError::BadRequest("qBittorrent must be enabled before approving candidates".to_string()))
    );
    assert_eq!(check_approval_possible(true), Ok(()));
}

#[test]
fn audiobookshelf_settings_can_be_saved_and_tested() {
    let seeded = PersistedRuntimeSettings::from_config(&AppConfig::for_tests());
    let update = audiobookshelf_update(AudiobookshelfIntegrationUpdate {
        enabled: Some(true),
        base_url: Some("http://abs.test".to_string()),
        library_id: Some("library-1".to_string()),
        api_key: Some("abs-secret".to_string()),
        ..Default::default()
    });
    let (stored, record) = apply_settings_update(seeded, update).unwrap();
    assert!(record.integrations.audiobookshelf.enabled);
    assert!(record.integrations.audiobookshelf.has_api_key);
    assert!(audiobookshelf_test_shortcut(&stored.integrations.audiobookshelf).is_none());
    let client = AudiobookshelfClient::new("http://abs.test", "abs-secret");
    assert_eq!(client.scan_library_url("library-1"), "http://abs.test/api/libraries/library-1/scan");
}

#[test]
fn library_scan_triggers_and_returns_status() {
    let counts = ScanCounts { ebooks_found: 2, audiobooks_found: 1, duplicates_skipped: 3 };
    assert_eq!(scan_job_completion(Ok(counts)), (2, 1, 3, None));
    assert_eq!(
        scan_job_completion(Err("boom".to_string())),
        (0, 0, 0, Some("boom".to_string()))
    );
}

use book_router::domain::requests::{ManifestationPreference, MediaType, RequestRecord};
use book_router::domain::search::ReleaseCandidate;
use book_router::workers::search_worker::{build_query, language_matches};

#[test]
fn build_query_does_not_append_language() {
    let request = RequestRecord::for_tests("The Hobbit", "J.R.R. Tolkien", MediaType::Ebook)
        .with_preferences(ManifestationPreference::default());

    let query = build_query(&request);

    assert_eq!(query, "The Hobbit J.R.R. Tolkien");
}

#[test]
fn build_query_omits_audiobook_tokens_and_narrator() {
    let request = RequestRecord::for_tests("The Hobbit", "J.R.R. Tolkien", MediaType::Audiobook)
        .with_preferences(ManifestationPreference {
            edition_title: None,
            preferred_narrator: Some("Andy Serkis".to_string()),
            preferred_publisher: None,
            graphic_audio: false,
        });

    let query = build_query(&request);

    assert_eq!(query, "The Hobbit J.R.R. Tolkien");
}

#[test]
fn language_filter_keeps_untagged_and_matching_candidates() {
    let untagged = ReleaseCandidate::for_tests("The Hobbit EPUB");
    let matching = ReleaseCandidate::for_tests("The Hobbit [ENG] EPUB");
    let non_matching = ReleaseCandidate::for_tests("The Hobbit [SPA] EPUB");

    assert!(language_matches(&untagged, Some("en")));
    assert!(language_matches(&matching, Some("en")));
    assert!(!language_matches(&non_matching, Some("en")));
}

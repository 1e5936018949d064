use book_router::json::{JsonNumber, JsonValue};
use book_router::search::prowlarr::{
    candidates_from_payload, i64_field, looks_like_html, release_candidate_from_value, snippet,
    string_field, ProwlarrClient,
};

fn s(v: &str) -> JsonValue {
    JsonValue::Str(v.to_string())
}

fn n(v: i64) -> JsonValue {
    JsonValue::Number(JsonNumber { repr: v.to_string(), int: Some(v) })
}

fn obj(entries: Vec<(&str, JsonValue)>) -> JsonValue {
    JsonValue::Object(entries.into_iter().map(|(k, v)| (k.to_string(), v)).collect())
}

#[test]
fn normalizes_prowlarr_results_into_release_candidates() {
    let payload = JsonValue::Array(vec![obj(vec![
        ("guid", s("abc")),
        ("title", s("The Hobbit Andy Serkis M4B")),
        ("size", n(1234)),
        ("protocol", s("torrent")),
        ("indexer", s("Books")),
    ])]);

    let results = candidates_from_payload(&payload).unwrap();

    assert_eq!(results.len(), 1);
    assert_eq!(results[0].source, "prowlarr");
    assert_eq!(results[0].title, "The Hobbit Andy Serkis M4B");
    assert_eq!(results[0].narrator, None);
}

#[test]
fn tolerates_partial_or_loose_prowlarr_items() {
    let payload = JsonValue::Array(vec![
        obj(vec![
            ("guid", s("abc")),
            ("title", s("Red Rising by Pierce Brown [ENG / EPUB]")),
            ("size", s("1234")),
            ("protocol", s("torrent")),
            ("indexer", s("Books")),
            ("downloadUrl", JsonValue::Bool(false)),
        ]),
        obj(vec![
            ("infoUrl", s("https://example.invalid/fallback")),
            ("title", s("A Court of Thorns and Roses")),
            ("size", n(5678)),
            ("protocol", JsonValue::Null),
            ("indexer", JsonValue::Null),
        ]),
    ]);

    let results = candidates_from_payload(&payload).unwrap();

    assert_eq!(results.len(), 2);
    assert_eq!(results[0].external_id, "abc");
    assert_eq!(results[0].size_bytes, 1234);
    assert_eq!(results[0].download_url, None);
    assert_eq!(results[1].external_id, "https://example.invalid/fallback");
    assert_eq!(results[1].protocol, "torrent");
    assert_eq!(results[1].indexer, "Prowlarr");
}

#[test]
fn parses_candidate_metadata_from_release_titles() {
    let payload = JsonValue::Array(vec![obj(vec![
        ("guid", s("abc")),
        ("title", s("The Sandman narrated by Neil Gaiman [ENG] GraphicAudio")),
        ("size", n(1234)),
        ("protocol", s("torrent")),
        ("indexer", s("Books")),
    ])]);

    let results = candidates_from_payload(&payload).unwrap();

    assert_eq!(results[0].narrator.as_deref(), Some("Neil Gaiman"));
    assert!(results[0].graphic_audio);
    assert_eq!(results[0].detected_language.as_deref(), Some("en"));
}

#[test]
fn passes_selected_indexer_ids_to_prowlarr_search() {
    let params = book_router::search::prowlarr::search_query_params("The Hobbit", "book", &[12, 42]);

    assert_eq!(
        params,
        vec![
            ("query".to_string(), "The Hobbit".to_string()),
            ("type".to_string(), "book".to_string()),
            ("indexerIds".to_string(), "12".to_string()),
            ("indexerIds".to_string(), "42".to_string()),
        ]
    );
}

#[test]
fn prowlarr_items_without_id_or_title_are_skipped() {
    let payload = JsonValue::Array(vec![
        obj(vec![("title", s("No id"))]),
        obj(vec![("guid", s("x")), ("title", s("   "))]),
        s("not an object"),
        obj(vec![("guid", n(77)), ("title", s("  Numbered  "))]),
    ]);

    let results = candidates_from_payload(&payload).unwrap();

    assert_eq!(results.len(), 1);
    assert_eq!(results[0].external_id, "77");
    assert_eq!(results[0].title, "Numbered");
    assert_eq!(results[0].size_bytes, 0);
}

#[test]
fn prowlarr_answer_that_is_not_an_array_gives_nothing() {
    assert!(candidates_from_payload(&obj(vec![("error", s("bad"))])).is_none());
    assert!(release_candidate_from_value(&s("plain")).is_none());
}

#[test]
fn prowlarr_field_readers() {
    assert_eq!(string_field(Some(&s("  a  "))), Some("a".to_string()));
    assert_eq!(string_field(Some(&s("   "))), None);
    assert_eq!(string_field(Some(&n(5))), Some("5".to_string()));
    assert_eq!(string_field(Some(&JsonValue::Bool(true))), None);
    assert_eq!(string_field(None), None);
    assert_eq!(i64_field(Some(&s(" -42 "))), Some(-42));
    assert_eq!(i64_field(Some(&s("12x"))), None);
    assert_eq!(i64_field(Some(&n(9))), Some(9));
    let big = JsonValue::Number(JsonNumber { repr: "18446744073709551615".to_string(), int: None });
    assert_eq!(i64_field(Some(&big)), None);
}

#[test]
fn prowlarr_html_answers_are_recognised() {
    assert!(looks_like_html("  \n<html><body>login</body></html>"));
    assert!(!looks_like_html("[]"));
    assert!(!looks_like_html("   "));
}

#[test]
fn prowlarr_snippet_compacts_and_cuts() {
    assert_eq!(snippet("a   b\n\tc"), Some("a b c".to_string()));
    let long = "x".repeat(300);
    assert_eq!(snippet(&long), Some(format!("{}...", "x".repeat(240))));
    // 239 ASCII bytes then a two-byte character: byte 240 is inside it
    let split = format!("{}é{}", "x".repeat(239), "y".repeat(10));
    assert_eq!(snippet(&split), None);
}

#[test]
fn prowlarr_client_trims_base_url() {
    let client = ProwlarrClient::new("http://prowlarr.local:9696///", "key");
    assert_eq!(client.base_url, "http://prowlarr.local:9696");
    assert_eq!(client.search_url(), "http://prowlarr.local:9696/api/v1/search");
}

use book_router::search::torznab::{
    candidate_from_torznab_item, torznab_api_url, torznab_query_params, TorznabClient, TorznabItem,
};

#[test]
fn parses_torznab_rss_items_into_release_candidates() {
    let item = TorznabItem {
        guid: "torznab-1".to_string(),
        title: "The Hobbit EPUB".to_string(),
        size: 2048,
        link: None,
    };

    let candidate = candidate_from_torznab_item(item);

    assert_eq!(candidate.source, "torznab");
    assert_eq!(candidate.title, "The Hobbit EPUB");
    assert_eq!(candidate.external_id, "torznab-1");
    assert_eq!(candidate.size_bytes, 2048);
}

#[test]
fn torznab_api_url_joins_base_and_path() {
    assert_eq!(torznab_api_url("http://idx.local/12/", None), "http://idx.local/12/api");
    assert_eq!(torznab_api_url("http://idx.local", Some("custom")), "http://idx.local/custom");
    assert_eq!(torznab_api_url("http://idx.local//", Some("/x/api")), "http://idx.local/x/api");
    let client = TorznabClient::new_with_api_path("http://idx.local/", Some("k".into()), Some("api"));
    assert_eq!(client.api_url, "http://idx.local/api");
    assert_eq!(TorznabClient::new("http://idx.local", None).api_url, "http://idx.local/api");
}

#[test]
fn torznab_query_includes_key_when_set() {
    let with_key = torznab_query_params("dune", &Some("secret".to_string()));
    assert_eq!(with_key.len(), 3);
    assert_eq!(with_key[2], ("apikey".to_string(), "secret".to_string()));
    let without = torznab_query_params("dune", &None);
    assert_eq!(
        without,
        vec![("t".to_string(), "search".to_string()), ("q".to_string(), "dune".to_string())]
    );
}

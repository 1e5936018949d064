use book_router::metadata::openlibrary::{
    cover_url, normalize_author_name, normalize_text, normalize_work_key, resolve_work_from_docs,
    search_works_from_docs, work_from_response, CoverSize, OpenLibraryClient, SearchDoc,
    WorkResponse,
};

fn doc(key: &str, title: &str, authors: &[&str]) -> SearchDoc {
    SearchDoc {
        key: key.to_string(),
        title: title.to_string(),
        author_name: authors.iter().map(|a| a.to_string()).collect(),
    }
}

#[test]
fn resolves_work_from_open_library() {
    let docs = vec![doc("OL27448W", "The Hobbit", &["J.R.R. Tolkien"])];
    let result = resolve_work_from_docs(&docs, "The Hobbit", "J.R.R. Tolkien").unwrap();

    assert_eq!(result.work.external_id, "OL27448W");
    assert_eq!(result.work.title, "The Hobbit");
    assert_eq!(result.work.primary_author, "J.R.R. Tolkien");
}

#[test]
fn skips_a_mismatched_first_hit() {
    let docs = vec![
        doc("OL00000W", "Definitely Not The Hobbit", &["Someone Else"]),
        doc("OL27448W", "The Hobbit", &["J.R.R. Tolkien"]),
    ];
    let result = resolve_work_from_docs(&docs, "The Hobbit", "J.R.R. Tolkien").unwrap();

    assert_eq!(result.work.external_id, "OL27448W");
    assert_eq!(result.work.title, "The Hobbit");
    assert_eq!(result.work.primary_author, "J.R.R. Tolkien");
}

#[test]
fn accepts_a_match_anywhere_in_author_name_list() {
    let docs = vec![doc("OL27448W", "The Hobbit", &["Someone Else", "J.R.R. Tolkien"])];
    let result = resolve_work_from_docs(&docs, "The Hobbit", "J.R.R. Tolkien").unwrap();

    assert_eq!(result.work.external_id, "OL27448W");
    assert_eq!(result.work.title, "The Hobbit");
    assert_eq!(result.work.primary_author, "Someone Else");
}

#[test]
fn resolves_work_by_canonical_id() {
    let response = WorkResponse {
        key: "/works/OL27448W".to_string(),
        title: "The Hobbit".to_string(),
        authors: vec![Some("/authors/OL26320A".to_string())],
    };
    assert_eq!(response.first_author_key(), "/authors/OL26320A");
    let result = work_from_response(&response, Some("J.R.R. Tolkien"));

    assert_eq!(result.work.external_id, "OL27448W");
    assert_eq!(result.work.title, "The Hobbit");
    assert_eq!(result.work.primary_author, "J.R.R. Tolkien");
}

#[test]
fn work_without_author_key_has_unknown_author() {
    let response = WorkResponse {
        key: "/works/OL999W".to_string(),
        title: "Orphan".to_string(),
        authors: vec![None],
    };
    let result = work_from_response(&response, Some("ignored"));
    assert_eq!(result.work.primary_author, "Unknown author");
}

#[test]
fn open_library_resolution_without_match_fails() {
    let docs = vec![doc("OL1W", "Another Book", &["Somebody"])];
    assert_eq!(
        resolve_work_from_docs(&docs, "The Hobbit", "").unwrap_err(),
        "no work match"
    );
    // with no author wanted, the title alone decides
    let docs = vec![doc("OL2W", "The  Hob-bit!", &[])];
    let found = resolve_work_from_docs(&docs, "the hobbit", "").unwrap();
    assert_eq!(found.work.external_id, "OL2W");
    assert_eq!(found.work.primary_author, "Unknown author");
}

#[test]
fn open_library_normalisers() {
    assert_eq!(normalize_text("The Hob-bit! 2"), "thehobbit2");
    assert_eq!(normalize_work_key("/works//works/OL1W"), "OL1W");
    assert_eq!(normalize_work_key("/works/OL1W/works/"), "OL1W/works/");
    assert_eq!(normalize_work_key("/works/works/OL1W"), "works/OL1W");
    assert_eq!(normalize_author_name(Some("  Ann  ")), "Ann");
    assert_eq!(normalize_author_name(Some("   ")), "Unknown author");
    assert_eq!(normalize_author_name(None), "Unknown author");
    let works = search_works_from_docs(&vec![doc("/works/OL5W", "Dune", &[])]);
    assert_eq!(works.works[0].external_id, "OL5W");
}

#[test]
fn open_library_addresses() {
    let client = OpenLibraryClient::new("https://openlibrary.org/");
    assert_eq!(client.search_url(), "https://openlibrary.org/search.json");
    assert_eq!(client.work_url("OL1W"), "https://openlibrary.org/works/OL1W.json");
    assert_eq!(client.author_url("/authors/OL2A"), "https://openlibrary.org/authors/OL2A.json");
    assert_eq!(
        cover_url("https://covers.openlibrary.org", 2468, CoverSize::from_query_value(None)),
        "https://covers.openlibrary.org/b/id/2468-M.jpg"
    );
    assert_eq!(CoverSize::from_query_value(Some("l")).as_str(), "L");
    assert_eq!(CoverSize::from_query_value(Some("S")).as_str(), "S");
    assert_eq!(CoverSize::from_query_value(Some("huge")).as_str(), "M");
}

use book_router::downloads::qbittorrent::{
    add_magnet_form, check_login_response, completed_for_tag, find_completed, login_form,
    origin_from_url, referer_for, QbittorrentClient, QbittorrentTorrent,
};

fn torrent(hash: &str, name: &str, tags: &str, progress: i64, state: &str, path: &str) -> QbittorrentTorrent {
    QbittorrentTorrent {
        hash: hash.to_string(),
        name: name.to_string(),
        category: "athena-ebooks".to_string(),
        tags: tags.to_string(),
        progress,
        state: state.to_string(),
        content_path: path.to_string(),
        save_path: String::new(),
    }
}

fn listed() -> Vec<QbittorrentTorrent> {
    vec![
        torrent(
            "0123456789abcdef0123456789abcdef01234567",
            "The Hobbit",
            "request-123,ebook",
            10000,
            "uploading",
            "/downloads/The Hobbit.epub",
        ),
        torrent(
            "1111111111111111111111111111111111111111",
            "Other Book",
            "request-456",
            10000,
            "uploading",
            "/downloads/Other Book.epub",
        ),
        torrent(
            "2222222222222222222222222222222222222222",
            "The Hobbit Incomplete",
            "request-123",
            4500,
            "downloading",
            "/downloads/The Hobbit Incomplete.epub",
        ),
    ]
}

#[test]
fn filters_completed_torrents_by_category_and_request_tag() {
    let completed = completed_for_tag(listed(), "request-123");
    assert_eq!(completed.len(), 1);
    assert_eq!(completed[0].hash, "0123456789abcdef0123456789abcdef01234567");
    assert_eq!(find_completed(&listed(), "request-123"), Some(0));
    assert_eq!(find_completed(&listed(), "request-789"), None);
}

#[test]
fn torrent_tags_are_trimmed_and_matched_whole() {
    let t = torrent("h", "n", " ebook , request-7 ", 0, "downloading", "");
    assert!(t.has_tag("request-7"));
    assert!(t.has_tag("ebook"));
    assert!(!t.has_tag("request"));
    assert!(!t.has_tag("request-77"));
}

#[test]
fn torrent_completion_follows_state_and_progress() {
    assert!(torrent("h", "n", "", 0, "stalledUP", "").is_completed());
    assert!(torrent("h", "n", "", 10000, "moving", "").is_completed());
    assert!(!torrent("h", "n", "", 10000, "checkingUP", "").is_completed());
    assert!(!torrent("h", "n", "", 10000, "", "").is_completed());
    assert!(!torrent("h", "n", "", 9999, "downloading", "").is_completed());
}

#[test]
fn torrent_content_root_falls_back_to_save_path() {
    let mut t = torrent("abc", "n", "", 0, "", "/d/book.epub");
    assert_eq!(t.content_root(), Ok("/d/book.epub"));
    t.content_path = "  ".to_string();
    t.save_path = "/d".to_string();
    assert_eq!(t.content_root(), Ok("/d"));
    t.save_path = String::new();
    assert_eq!(
        t.content_root(),
        Err("qBittorrent torrent abc did not include a content path".to_string())
    );
}

#[test]
fn qbittorrent_client_keeps_origin_and_trimmed_base() {
    let client = QbittorrentClient::new("http://127.0.0.1:8080//", "admin", "adminadmin").unwrap();
    assert_eq!(client.base_url, "http://127.0.0.1:8080");
    assert_eq!(client.origin, "http://127.0.0.1:8080");
    assert_eq!(client.api_url("/api/v2/auth/login"), "http://127.0.0.1:8080/api/v2/auth/login");
    assert_eq!(referer_for(&client.origin), "http://127.0.0.1:8080/");
    assert_eq!(origin_from_url("https://qb.example.com/sub/path"), Some("https://qb.example.com".to_string()));
    assert_eq!(origin_from_url("not a url"), None);
    assert!(QbittorrentClient::new("not a url", "a", "b").is_none());
}

#[test]
fn qbittorrent_login_answers() {
    assert_eq!(check_login_response(" Ok. "), Ok(()));
    assert_eq!(check_login_response(""), Ok(()));
    assert_eq!(
        check_login_response("Fails.\n"),
        Err("qBittorrent login failed: Fails.".to_string())
    );
}

#[test]
fn authenticates_and_submits_magnet_with_request_tag_and_category() {
    let login = login_form("admin", "adminadmin");
    assert_eq!(
        login,
        vec![
            ("username".to_string(), "admin".to_string()),
            ("password".to_string(), "adminadmin".to_string())
        ]
    );
    let form = add_magnet_form("magnet:?xt=urn:btih:test", "request-123", "audiobooks");
    assert_eq!(
        form,
        vec![
            ("urls".to_string(), "magnet:?xt=urn:btih:test".to_string()),
            ("category".to_string(), "audiobooks".to_string()),
            ("tags".to_string(), "request-123".to_string())
        ]
    );
}

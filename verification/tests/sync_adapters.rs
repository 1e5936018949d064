use book_router::sync::{audiobookshelf::AudiobookshelfClient, calibre::CalibreHook};

#[test]
fn audiobookshelf_scan_request_uses_api_key_auth() {
    let client = AudiobookshelfClient::new("http://localhost:13378", "abs-key");

    assert_eq!(client.authorization(), "Bearer abs-key");
    assert_eq!(
        client.scan_library_url("library-1"),
        "http://localhost:13378/api/libraries/library-1/scan"
    );
}

#[test]
fn calibre_hook_builds_import_command() {
    let hook = CalibreHook::new("/usr/bin/calibredb");
    let args = hook.add_book_args("/ebooks/Tolkien/The Hobbit/The Hobbit.epub");

    assert_eq!(hook.binary_path(), "/usr/bin/calibredb");
    assert_eq!(
        args,
        vec!["add".to_string(), "/ebooks/Tolkien/The Hobbit/The Hobbit.epub".to_string()]
    );
}

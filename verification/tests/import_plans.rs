use book_router::importer::move_plan::normalize_path_segment;
use book_router::domain::requests::{MediaType, RequestRecord};
use book_router::domain::settings::{AudiobookLayoutPreset, EbookImportMode, PersistedImportSettings};
use book_router::workers::import_worker::{
    common_parent_dir, plan_audiobook_import, plan_ebook_import, request_not_found,
};

fn import_settings(mode: EbookImportMode, passthrough: Option<&str>, preset: AudiobookLayoutPreset) -> PersistedImportSettings {
    PersistedImportSettings {
        naming_template: "{author}/{title}/{title}".to_string(),
        calibre_command: String::new(),
        ebook_import_mode: mode,
        ebook_passthrough_root: passthrough.map(|s| s.to_string()),
        audiobook_layout_preset: preset,
    }
}

fn files(v: &[&str]) -> Vec<String> {
    v.iter().map(|s| s.to_string()).collect()
}

#[test]
fn managed_ebook_goes_under_the_naming_template() {
    let request = RequestRecord::for_tests("The Hobbit", "J.R.R. Tolkien", MediaType::Ebook);
    let plan = plan_ebook_import(
        "req-1",
        &request,
        &files(&["/downloads/cover.jpg", "/downloads/The.Hobbit.epub"]),
        "/ebooks",
        &import_settings(EbookImportMode::Managed, None, AudiobookLayoutPreset::AuthorTitle),
    )
    .unwrap();
    assert_eq!(plan.source, "/downloads/The.Hobbit.epub");
    assert_eq!(plan.destination, "/ebooks/J.R.R. Tolkien/The Hobbit/The Hobbit.epub");
}

#[test]
fn passthrough_ebook_keeps_its_file_name() {
    let request = RequestRecord::for_tests("The Hobbit", "J.R.R. Tolkien", MediaType::Ebook);
    let plan = plan_ebook_import(
        "req-1",
        &request,
        &files(&["/downloads/The Hobbit?.epub"]),
        "/ebooks",
        &import_settings(EbookImportMode::Passthrough, Some("/incoming"), AudiobookLayoutPreset::AuthorTitle),
    )
    .unwrap();
    assert_eq!(plan.destination, "/incoming/req-1/The Hobbit .epub");

    let missing_root = plan_ebook_import(
        "req-1",
        &request,
        &files(&["/downloads/book.epub"]),
        "/ebooks",
        &import_settings(EbookImportMode::Passthrough, None, AudiobookLayoutPreset::AuthorTitle),
    );
    assert_eq!(missing_root, Err("ebook passthrough root is not configured".to_string()));
}

#[test]
fn ebook_import_refusals() {
    let s = import_settings(EbookImportMode::Managed, None, AudiobookLayoutPreset::AuthorTitle);
    let audiobook = RequestRecord::for_tests("T", "A", MediaType::Audiobook);
    assert_eq!(
        plan_ebook_import("r9", &audiobook, &files(&["/d/x.epub"]), "/e", &s),
        Err("request r9 is not an ebook request".to_string())
    );
    let ebook = RequestRecord::for_tests("T", "A", MediaType::Ebook);
    assert_eq!(
        plan_ebook_import("r9", &ebook, &files(&["/d/x.m4b"]), "/e", &s),
        Err("download payload was not classified as ebook".to_string())
    );
}

#[test]
fn audiobook_files_keep_their_layout_under_the_title() {
    let request = RequestRecord::for_tests("The Hobbit", "J.R.R. Tolkien", MediaType::Audiobook);
    let plan = plan_audiobook_import(
        "req-2",
        &request,
        &files(&["/dl/Hobbit/cd1/01.mp3", "/dl/Hobbit/cd2/02.mp3", "/dl/Hobbit/cover.jpg"]),
        "/audiobooks",
        &import_settings(EbookImportMode::Managed, None, AudiobookLayoutPreset::AuthorTitle),
    )
    .unwrap();
    assert_eq!(plan.destination_dir, "/audiobooks/J.R.R. Tolkien/The Hobbit");
    assert_eq!(
        plan.moves,
        vec![
            ("/dl/Hobbit/cd1/01.mp3".to_string(), "/audiobooks/J.R.R. Tolkien/The Hobbit/cd1/01.mp3".to_string()),
            ("/dl/Hobbit/cd2/02.mp3".to_string(), "/audiobooks/J.R.R. Tolkien/The Hobbit/cd2/02.mp3".to_string()),
            ("/dl/Hobbit/cover.jpg".to_string(), "/audiobooks/J.R.R. Tolkien/The Hobbit/cover.jpg".to_string()),
        ]
    );
}

#[test]
fn single_audiobook_file_lands_in_the_title_root() {
    let request = RequestRecord::for_tests("Dune", "Frank Herbert", MediaType::Audiobook);
    let plan = plan_audiobook_import(
        "req-3",
        &request,
        &files(&["/dl/Dune.m4b"]),
        "/audiobooks",
        &import_settings(EbookImportMode::Managed, None, AudiobookLayoutPreset::Title),
    )
    .unwrap();
    assert_eq!(plan.destination_dir, "/audiobooks/Dune");
    assert_eq!(plan.moves, vec![("/dl/Dune.m4b".to_string(), "/audiobooks/Dune/Dune.m4b".to_string())]);

    let ebook = RequestRecord::for_tests("Dune", "Frank Herbert", MediaType::Ebook);
    assert_eq!(
        plan_audiobook_import("req-3", &ebook, &files(&["/dl/Dune.m4b"]), "/a", &import_settings(EbookImportMode::Managed, None, AudiobookLayoutPreset::Title)),
        Err("request req-3 is not an audiobook request".to_string())
    );
}

#[test]
fn common_parent_of_payload_paths() {
    let (abs, comps) = common_parent_dir(&files(&["/a/b/c.mp3", "/a/b/d/e.mp3"])).unwrap();
    assert!(abs);
    assert_eq!(comps, vec![vec!['a'], vec!['b']]);
    let (abs, comps) = common_parent_dir(&files(&["/a/x.mp3", "/b/y.mp3"])).unwrap();
    assert!(abs);
    assert!(comps.is_empty());
    assert_eq!(common_parent_dir(&files(&["x.mp3", "y.mp3"])), Some((false, vec![])));
    assert_eq!(common_parent_dir(&[]), None);
    assert_eq!(request_not_found("r1"), "request r1 not found");
}

#[test]
fn path_segment_is_cleaned_to_single_spaces() {
    let once = normalize_path_segment("  Dune:\u{7}  Part<1>\t/ \"Deluxe\"?  ");
    assert_eq!(once, "Dune Part 1 Deluxe");
    assert_eq!(normalize_path_segment(&once), once);
    assert_eq!(normalize_path_segment("a\u{3000}\u{3000}b"), "a b");
    assert_eq!(normalize_path_segment(" */:\\ "), "");
    assert_eq!(normalize_path_segment(""), "");
}

use std::path::{Path, PathBuf};

use book_router::config::{AppConfig, DatabaseTarget};

#[test]
fn from_env_with_uses_runtime_values() {
    let config = AppConfig::from_env_with(|key: &str| match key {
        "BIND_ADDR" => Some("127.0.0.1:7777".into()),
        "EBOOKS_ROOT" => Some("/var/lib/books".into()),
        "AUDIOBOOKS_ROOT" => Some("/var/lib/audiobooks".into()),
        "DATABASE_PATH" => Some("/var/lib/book-router/book-router.sqlite".into()),
        "METADATA_BASE_URL" => Some("https://metadata.example.test".into()),
        "COVER_BASE_URL" => Some("https://covers.example.test".into()),
        _ => None,
    })
    .unwrap();

    assert_eq!(config.bind_addr, "127.0.0.1:7777");
    assert_eq!(PathBuf::from(&config.ebooks_root), PathBuf::from("/var/lib/books"));
    assert_eq!(PathBuf::from(&config.audiobooks_root), PathBuf::from("/var/lib/audiobooks"));
    assert_eq!(config.metadata_base_url, "https://metadata.example.test");
    assert_eq!(config.cover_base_url, "https://covers.example.test");
    assert!(matches!(
        config.database,
        DatabaseTarget::File(ref path)
            if Path::new(path) == Path::new("/var/lib/book-router/book-router.sqlite")
    ));
}

#[test]
fn config_defaults_to_file_backed_database() {
    let config = AppConfig::from_env_with(|key: &str| match key {
        "BIND_ADDR" => Some("127.0.0.1:7777".into()),
        "EBOOKS_ROOT" => Some("/var/lib/books".into()),
        "AUDIOBOOKS_ROOT" => Some("/var/lib/audiobooks".into()),
        _ => None,
    })
    .unwrap();

    assert!(matches!(
        config.database,
        DatabaseTarget::File(ref path)
            if Path::new(path) == Path::new("/data/book-router/book-router.sqlite")
    ));
}

#[test]
fn config_rejects_relative_media_roots() {
    let config = AppConfig {
        ebooks_root: "ebooks".into(),
        audiobooks_root: "/audiobooks".into(),
        ..AppConfig::for_tests()
    };

    let error = config.validate().unwrap_err();
    assert!(error.to_string().contains("absolute path"));
}

#[test]
fn config_rejects_relative_database_path() {
    let config = AppConfig {
        database: DatabaseTarget::file("book-router.sqlite"),
        ..AppConfig::for_tests()
    };

    let error = config.validate().unwrap_err();
    assert!(error.to_string().contains("sqlite database path"));
}

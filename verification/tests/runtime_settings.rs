use book_router::config::AppConfig;
use book_router::domain::settings::{
    MetadataSettingsUpdate, PersistedRuntimeSettings, QbittorrentSettingsUpdate, RuntimeSettingsUpdate,
    StorageSettingsUpdate,
};
use book_router::http::error::AppError;
use book_router::http::handlers::settings::{
    apply_settings_update, preview_settings, prowlarr_status_url, prowlarr_test_message,
    qbittorrent_test_shortcut, qbittorrent_update, storage_update,
};
use book_router::json::{text, JsonValue};
use book_router::workers::download_worker::poll_plan;

fn seeded() -> PersistedRuntimeSettings {
    let config = AppConfig::for_tests()
        .with_metadata_base_url("https://metadata.seed.test")
        .with_cover_base_url("https://covers.seed.test");
    PersistedRuntimeSettings::from_config(&config)
}

fn qbittorrent_on() -> RuntimeSettingsUpdate {
    qbittorrent_update(QbittorrentSettingsUpdate {
        enabled: Some(true),
        base_url: Some("http://localhost:8080".to_string()),
        username: Some("admin".to_string()),
        password: Some("secret".to_string()),
        clear_password: false,
        category_ebook: Some("athena-ebooks".to_string()),
        category_audiobook: Some("athena-audiobooks".to_string()),
    })
}

#[test]
fn runtime_settings_are_seeded_from_bootstrap_config() {
    let record = seeded().to_record();
    assert_eq!(record.storage.ebooks_root, "/ebooks");
    assert_eq!(record.storage.audiobooks_root, "/audiobooks");
    assert_eq!(record.metadata.base_url, "https://metadata.seed.test");
    assert_eq!(record.metadata.cover_base_url, "https://covers.seed.test");
    assert!(!record.download_clients.qbittorrent.enabled);
    assert!(!record.download_clients.qbittorrent.has_password);
}

#[test]
fn qbittorrent_settings_mask_password_after_save() {
    let (stored, record) = apply_settings_update(seeded(), qbittorrent_on()).unwrap();
    assert!(record.download_clients.qbittorrent.enabled);
    assert!(record.download_clients.qbittorrent.has_password);
    assert_eq!(stored.download_clients.qbittorrent.password.as_deref(), Some("secret"));

    // clearing the password of an enabled client is refused
    let clear = qbittorrent_update(QbittorrentSettingsUpdate {
        clear_password: true,
        ..Default::default()
    });
    match preview_settings(stored, clear) {
        Err(AppError::BadRequest(m)) => {
            assert_eq!(m, "qBittorrent password must not be empty when enabled")
        }
        other => panic!("unexpected {:?}", other),
    }
}

#[test]
fn empty_update_keeps_settings_and_updates_are_idempotent() {
    let s = seeded();
    let same = preview_settings(s.clone(), RuntimeSettingsUpdate::default()).unwrap();
    assert_eq!(same, s);
    let once = preview_settings(s.clone(), qbittorrent_on()).unwrap();
    let twice = preview_settings(once.clone(), qbittorrent_on()).unwrap();
    assert_eq!(once, twice);
}

#[test]
fn relative_media_root_is_refused() {
    let update = storage_update(StorageSettingsUpdate {
        ebooks_root: Some("books".to_string()),
        audiobooks_root: None,
    });
    match preview_settings(seeded(), update) {
        Err(AppError::BadRequest(m)) => assert_eq!(m, "ebooks root must be an absolute path"),
        other => panic!("unexpected {:?}", other),
    }
}

#[test]
fn connection_test_helpers() {
    let s = seeded();
    let t = qbittorrent_test_shortcut(&s.download_clients.qbittorrent).unwrap();
    assert!(t.ok);
    assert_eq!(t.message, "qBittorrent is disabled");
    let on = preview_settings(s, qbittorrent_on()).unwrap();
    assert!(qbittorrent_test_shortcut(&on.download_clients.qbittorrent).is_none());
    assert_eq!(prowlarr_status_url("http://p:9696//"), "http://p:9696/api/v1/system/status");
    let status = JsonValue::Object(vec![("version".to_string(), text("1.2.3"))]);
    assert_eq!(prowlarr_test_message(&status), "Prowlarr connection succeeded (version 1.2.3)");
    assert_eq!(
        prowlarr_test_message(&JsonValue::Null),
        "Prowlarr connection succeeded (version unknown)"
    );
}

#[test]
fn polling_waits_for_an_enabled_client() {
    let s = seeded();
    assert!(poll_plan(&s).is_none());
    let on = preview_settings(s, qbittorrent_on()).unwrap();
    let plan = poll_plan(&on).unwrap();
    assert_eq!(plan.qbittorrent_base_url, "http://localhost:8080");
    assert_eq!(plan.qbittorrent_username, "admin");
    assert_eq!(plan.qbittorrent_password, "secret");
    assert_eq!(plan.ebooks_root, "/ebooks");
    assert!(plan.audiobookshelf.is_none());
}

#[test]
fn app_errors_map_to_statuses() {
    assert_eq!(AppError::MetadataTimeout.status_and_message(), (504, "Metadata service timed out".to_string()));
    assert_eq!(AppError::MetadataNoMatch.status_and_message().0, 404);
    assert_eq!(AppError::BadRequest("bad".to_string()).status_and_message(), (400, "bad".to_string()));
    assert_eq!(AppError::Forbidden("no".to_string()).status_and_message().0, 403);
    assert_eq!(AppError::Internal.status_and_message(), (500, "An internal error occurred".to_string()));
}

#[test]
fn metadata_urls_must_parse() {
    let update = RuntimeSettingsUpdate {
        metadata: Some(MetadataSettingsUpdate {
            base_url: Some("not a url".to_string()),
            cover_base_url: None,
        }),
        ..Default::default()
    };
    match preview_settings(seeded(), update) {
        Err(AppError::BadRequest(m)) => assert_eq!(m, "metadata base url must be a valid URL"),
        other => panic!("unexpected {:?}", other),
    }
    let fine = RuntimeSettingsUpdate {
        metadata: Some(MetadataSettingsUpdate {
            base_url: Some("https://openlibrary.org".to_string()),
            cover_base_url: None,
        }),
        ..Default::default()
    };
    assert!(preview_settings(seeded(), fine).is_ok());
}

//! The settings API: partial updates of one section, previews, and the
//! connection tests.
use vstd::prelude::*;

use crate::domain::settings::{
    is_update_of, settings_error, AcquisitionSettingsUpdate, AudiobookshelfIntegrationUpdate,
    ConnectionTestResult, DownloadClientSettingsUpdate, ImportSettingsUpdate,
    IntegrationSettingsUpdate, PersistedAudiobookshelfIntegrationSettings,
    PersistedProwlarrIntegrationSettings, PersistedQbittorrentSettings, PersistedRuntimeSettings,
    ProwlarrIntegrationUpdate, QbittorrentSettingsUpdate, RuntimeSettingsRecord,
    RuntimeSettingsUpdate, StorageSettingsUpdate, record_shows,
};
use crate::http::error::AppError;
use crate::json::{member_str, JsonValue};
use crate::text::{concat, copy_str, trim_end_matches, trim_end_matches_str};

verus! {

// ---------------------------------------------------------------------------
// One section at a time
// ---------------------------------------------------------------------------

/// An update of the storage section alone.
pub fn storage_update(u: StorageSettingsUpdate) -> (r: RuntimeSettingsUpdate)
    ensures
        r == (RuntimeSettingsUpdate {
            storage: Some(u),
            metadata: None,
            download_clients: None,
            integrations: None,
            import: None,
            acquisition: None,
        }),
{
    RuntimeSettingsUpdate {
        storage: Some(u),
        metadata: None,
        download_clients: None,
        integrations: None,
        import: None,
        acquisition: None,
    }
}

/// An update of the import section alone.
pub fn import_update(u: ImportSettingsUpdate) -> (r: RuntimeSettingsUpdate)
    ensures
        r == (RuntimeSettingsUpdate {
            storage: None,
            metadata: None,
            download_clients: None,
            integrations: None,
            import: Some(u),
            acquisition: None,
        }),
{
    RuntimeSettingsUpdate {
        storage: None,
        metadata: None,
        download_clients: None,
        integrations: None,
        import: Some(u),
        acquisition: None,
    }
}

/// An update of the acquisition section alone.
pub fn acquisition_update(u: AcquisitionSettingsUpdate) -> (r: RuntimeSettingsUpdate)
    ensures
        r == (RuntimeSettingsUpdate {
            storage: None,
            metadata: None,
            download_clients: None,
            integrations: None,
            import: None,
            acquisition: Some(u),
        }),
{
    RuntimeSettingsUpdate {
        storage: None,
        metadata: None,
        download_clients: None,
        integrations: None,
        import: None,
        acquisition: Some(u),
    }
}

/// An update of the qBittorrent settings alone.
pub fn qbittorrent_update(u: QbittorrentSettingsUpdate) -> (r: RuntimeSettingsUpdate)
    ensures
        r == (RuntimeSettingsUpdate {
            storage: None,
            metadata: None,
            download_clients: Some(DownloadClientSettingsUpdate { qbittorrent: Some(u) }),
            integrations: None,
            import: None,
            acquisition: None,
        }),
{
    RuntimeSettingsUpdate {
        storage: None,
        metadata: None,
        download_clients: Some(DownloadClientSettingsUpdate { qbittorrent: Some(u) }),
        integrations: None,
        import: None,
        acquisition: None,
    }
}

/// An update of the Prowlarr settings alone.
pub fn prowlarr_update(u: ProwlarrIntegrationUpdate) -> (r: RuntimeSettingsUpdate)
    ensures
        r == (RuntimeSettingsUpdate {
            storage: None,
            metadata: None,
            download_clients: None,
            integrations: Some(IntegrationSettingsUpdate { prowlarr: Some(u), audiobookshelf: None }),
            import: None,
            acquisition: None,
        }),
{
    RuntimeSettingsUpdate {
        storage: None,
        metadata: None,
        download_clients: None,
        integrations: Some(IntegrationSettingsUpdate { prowlarr: Some(u), audiobookshelf: None }),
        import: None,
        acquisition: None,
    }
}

/// An update of the Audiobookshelf settings alone.
pub fn audiobookshelf_update(u: AudiobookshelfIntegrationUpdate) -> (r: RuntimeSettingsUpdate)
    ensures
        r == (RuntimeSettingsUpdate {
            storage: None,
            metadata: None,
            download_clients: None,
            integrations: Some(IntegrationSettingsUpdate { prowlarr: None, audiobookshelf: Some(u) }),
            import: None,
            acquisition: None,
        }),
{
    RuntimeSettingsUpdate {
        storage: None,
        metadata: None,
        download_clients: None,
        integrations: Some(IntegrationSettingsUpdate { prowlarr: None, audiobookshelf: Some(u) }),
        import: None,
        acquisition: None,
    }
}

// ---------------------------------------------------------------------------
// Applying and previewing
// ---------------------------------------------------------------------------

/// The settings an update leads to, if they are valid; a refused update is
/// answered with the first problem.
pub fn preview_settings(settings: PersistedRuntimeSettings, update: RuntimeSettingsUpdate) -> (r:
    Result<PersistedRuntimeSettings, AppError>)
    ensures
        match r {
            Ok(s) => is_update_of(s, settings, update) && settings_error(s) is None,
            Err(e) => exists|s: PersistedRuntimeSettings|
                is_update_of(s, settings, update) && (settings_error(s) matches Some(m) && (
                e matches AppError::BadRequest(em) && em@ == m)),
        },
{
    let mut s = settings;
    s.apply_update(update);
    match s.validate() {
        Ok(()) => Ok(s),
        Err(m) => Err(AppError::BadRequest(m)),
    }
}

/// Stores an update: the new settings when they are valid, with what is
/// shown of them.
pub fn apply_settings_update(settings: PersistedRuntimeSettings, update: RuntimeSettingsUpdate) -> (r:
    Result<(PersistedRuntimeSettings, RuntimeSettingsRecord), AppError>)
    ensures
        match r {
            Ok((s, rec)) => is_update_of(s, settings, update) && settings_error(s) is None
                && record_shows(rec, s),
            Err(e) => exists|s: PersistedRuntimeSettings|
                is_update_of(s, settings, update) && (settings_error(s) matches Some(m) && (
                e matches AppError::BadRequest(em) && em@ == m)),
        },
{
    let s = preview_settings(settings, update)?;
    let rec = s.to_record();
    Ok((s, rec))
}

// ---------------------------------------------------------------------------
// Connection tests
// ---------------------------------------------------------------------------

/// A test result that needs no connection.
pub fn test_result(message: &str) -> (r: ConnectionTestResult)
    ensures
        r.ok,
        r.message@ == message@,
{
    ConnectionTestResult { ok: true, message: copy_str(message) }
}

/// The answer of a test when the integration is disabled, or nothing when a
/// connection must be tried.
pub fn qbittorrent_test_shortcut(qb: &PersistedQbittorrentSettings) -> (r: Option<
    ConnectionTestResult,
>)
    ensures
        match r {
            Some(t) => !qb.enabled && t.ok && t.message@ == "qBittorrent is disabled"@,
            None => qb.enabled,
        },
{
    if !qb.enabled {
        Some(test_result("qBittorrent is disabled"))
    } else {
        None
    }
}

pub fn prowlarr_test_shortcut(p: &PersistedProwlarrIntegrationSettings) -> (r: Option<
    ConnectionTestResult,
>)
    ensures
        match r {
            Some(t) => !p.enabled && !p.sync_enabled && t.ok && t.message@
                == "Prowlarr integration is disabled"@,
            None => p.enabled || p.sync_enabled,
        },
{
    if !p.enabled && !p.sync_enabled {
        Some(test_result("Prowlarr integration is disabled"))
    } else {
        None
    }
}

pub fn audiobookshelf_test_shortcut(a: &PersistedAudiobookshelfIntegrationSettings) -> (r: Option<
    ConnectionTestResult,
>)
    ensures
        match r {
            Some(t) => !a.enabled && t.ok && t.message@ == "Audiobookshelf integration is disabled"@,
            None => a.enabled,
        },
{
    if !a.enabled {
        Some(test_result("Audiobookshelf integration is disabled"))
    } else {
        None
    }
}

/// Prowlarr's status endpoint under its base URL.
pub fn prowlarr_status_url(base_url: &str) -> (r: String)
    ensures
        r@ == trim_end_matches(base_url@, '/') + "/api/v1/system/status"@,
{
    let b = trim_end_matches_str(base_url, '/');
    concat(b.as_str(), "/api/v1/system/status")
}

/// The success message of a Prowlarr test, with the version it reports
/// (`unknown` when its status has none).
pub fn prowlarr_test_message(status: &JsonValue) -> (r: String)
    ensures
        r@ == "Prowlarr connection succeeded (version "@ + match member_str(*status, "version"@) {
            Some(v) => v,
            None => "unknown"@,
        } + ")"@,
{
    let version = match status.member_str("version") {
        Some(v) => v,
        None => "unknown",
    };
    proof {
        reveal_strlit("unknown");
    }
    let a = concat("Prowlarr connection succeeded (version ", version);
    concat(a.as_str(), ")")
}

} // verus!

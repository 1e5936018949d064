//! Runtime settings: what is stored, what is shown, how updates apply and
//! when a set of settings is valid.
//!
//! Scores are fixed-point numbers in ten-thousandths: 10000 stands for 1.0.
use vstd::prelude::*;

use crate::config::{is_absolute_path, path_is_absolute, AppConfig};
use crate::urls::{url_is_valid, url_parses};
use crate::text::{
    chars_of, concat, copy_opt, copy_str, copy_strings, is_blank, opt_view, str_contains,
    string_from, trim, trim_chars, trim_str, views,
};

verus! {

#[derive(Clone, Debug, PartialEq, Eq)]
pub struct StorageSettingsRecord {
    pub ebooks_root: String,
    pub audiobooks_root: String,
}

#[derive(Clone, Debug, Default, PartialEq, Eq)]
pub struct StorageSettingsUpdate {
    pub ebooks_root: Option<String>,
    pub audiobooks_root: Option<String>,
}

#[derive(Clone, Debug, PartialEq, Eq)]
pub struct MetadataSettingsRecord {
    pub base_url: String,
    pub cover_base_url: String,
}

#[derive(Clone, Debug, Default, PartialEq, Eq)]
pub struct MetadataSettingsUpdate {
    pub base_url: Option<String>,
    pub cover_base_url: Option<String>,
}

#[derive(Clone, Debug, PartialEq, Eq)]
pub struct QbittorrentSettingsRecord {
    pub enabled: bool,
    pub base_url: String,
    pub username: String,
    pub category_ebook: String,
    pub category_audiobook: String,
    pub has_password: bool,
}

#[derive(Clone, Debug, Default, PartialEq, Eq)]
pub struct QbittorrentSettingsUpdate {
    pub enabled: Option<bool>,
    pub base_url: Option<String>,
    pub username: Option<String>,
    pub password: Option<String>,
    pub clear_password: bool,
    pub category_ebook: Option<String>,
    pub category_audiobook: Option<String>,
}

#[derive(Clone, Debug, PartialEq, Eq)]
pub struct ProwlarrIntegrationRecord {
    pub enabled: bool,
    pub sync_enabled: bool,
    pub base_url: String,
    pub has_api_key: bool,
}

#[derive(Clone, Debug, Default, PartialEq, Eq)]
pub struct ProwlarrIntegrationUpdate {
    pub enabled: Option<bool>,
    pub sync_enabled: Option<bool>,
    pub base_url: Option<String>,
    pub api_key: Option<String>,
    pub clear_api_key: bool,
}

#[derive(Clone, Debug, PartialEq, Eq)]
pub struct AudiobookshelfIntegrationRecord {
    pub enabled: bool,
    pub base_url: String,
    pub library_id: String,
    pub has_api_key: bool,
    pub mark_existing_during_search: bool,
}

#[derive(Clone, Debug, Default, PartialEq, Eq)]
pub struct AudiobookshelfIntegrationUpdate {
    pub enabled: Option<bool>,
    pub base_url: Option<String>,
    pub library_id: Option<String>,
    pub api_key: Option<String>,
    pub clear_api_key: bool,
    pub mark_existing_during_search: Option<bool>,
}

/// How imported ebooks are placed.
#[derive(Clone, Copy, Debug, PartialEq, Eq, Structural)]
pub enum EbookImportMode {
    /// Moved into the ebook library along the naming template.
    Managed,
    /// Moved untouched into a separate root, one directory per request.
    Passthrough,
}

/// Directory layout of an imported audiobook.
#[derive(Clone, Copy, Debug, PartialEq, Eq, Structural)]
pub enum AudiobookLayoutPreset {
    /// `<root>/<author>/<title>`.
    AuthorTitle,
    /// `<root>/<title>`.
    Title,
}

#[derive(Clone, Debug, PartialEq, Eq)]
pub struct ImportSettingsRecord {
    pub naming_template: String,
    pub calibre_command: String,
    pub ebook_import_mode: EbookImportMode,
    pub ebook_passthrough_root: Option<String>,
    pub audiobook_layout_preset: AudiobookLayoutPreset,
}

#[derive(Clone, Debug, Default, PartialEq, Eq)]
pub struct ImportSettingsUpdate {
    pub naming_template: Option<String>,
    pub calibre_command: Option<String>,
    pub ebook_import_mode: Option<EbookImportMode>,
    pub ebook_passthrough_root: Option<String>,
    pub audiobook_layout_preset: Option<AudiobookLayoutPreset>,
}

#[derive(Clone, Debug, PartialEq, Eq)]
pub struct AcquisitionSettingsRecord {
    pub minimum_score: i64,
    pub auto_acquire_score: i64,
    pub preferred_language: Option<String>,
    pub blocked_terms: Vec<String>,
}

#[derive(Clone, Debug, Default, PartialEq, Eq)]
pub struct AcquisitionSettingsUpdate {
    pub minimum_score: Option<i64>,
    pub auto_acquire_score: Option<i64>,
    pub preferred_language: Option<String>,
    pub blocked_terms: Option<Vec<String>>,
}

#[derive(Clone, Debug, PartialEq, Eq)]
pub struct DownloadClientSettingsRecord {
    pub qbittorrent: QbittorrentSettingsRecord,
}

#[derive(Clone, Debug, Default, PartialEq, Eq)]
pub struct DownloadClientSettingsUpdate {
    pub qbittorrent: Option<QbittorrentSettingsUpdate>,
}

#[derive(Clone, Debug, PartialEq, Eq)]
pub struct IntegrationSettingsRecord {
    pub prowlarr: ProwlarrIntegrationRecord,
    pub audiobookshelf: AudiobookshelfIntegrationRecord,
}

#[derive(Clone, Debug, Default, PartialEq, Eq)]
pub struct IntegrationSettingsUpdate {
    pub prowlarr: Option<ProwlarrIntegrationUpdate>,
    pub audiobookshelf: Option<AudiobookshelfIntegrationUpdate>,
}

/// The settings as shown to clients: secrets are replaced by presence flags.
#[derive(Clone, Debug, PartialEq, Eq)]
pub struct RuntimeSettingsRecord {
    pub storage: StorageSettingsRecord,
    pub metadata: MetadataSettingsRecord,
    pub download_clients: DownloadClientSettingsRecord,
    pub integrations: IntegrationSettingsRecord,
    pub import: ImportSettingsRecord,
    pub acquisition: AcquisitionSettingsRecord,
}

/// A partial change of the settings; absent parts are left as they are.
#[derive(Clone, Debug, Default, PartialEq, Eq)]
pub struct RuntimeSettingsUpdate {
    pub storage: Option<StorageSettingsUpdate>,
    pub metadata: Option<MetadataSettingsUpdate>,
    pub download_clients: Option<DownloadClientSettingsUpdate>,
    pub integrations: Option<IntegrationSettingsUpdate>,
    pub import: Option<ImportSettingsUpdate>,
    pub acquisition: Option<AcquisitionSettingsUpdate>,
}

#[derive(Clone, Debug, PartialEq, Eq)]
pub struct SyncedIndexerRecord {
    pub id: i64,
    pub prowlarr_indexer_id: Option<i64>,
    pub name: String,
    pub enabled: bool,
    pub implementation: String,
    pub protocol: Option<String>,
    pub base_url: Option<String>,
    pub categories: Vec<i64>,
    pub last_synced_at: String,
}

#[derive(Clone, Debug, PartialEq, Eq)]
pub struct ConnectionTestResult {
    pub ok: bool,
    pub message: String,
}

#[derive(Clone, Debug, PartialEq, Eq)]
pub struct PersistedQbittorrentSettings {
    pub enabled: bool,
    pub base_url: String,
    pub username: String,
    pub password: Option<String>,
    pub category_ebook: String,
    pub category_audiobook: String,
}

#[derive(Clone, Debug, PartialEq, Eq)]
pub struct PersistedProwlarrIntegrationSettings {
    pub enabled: bool,
    pub sync_enabled: bool,
    pub base_url: String,
    pub api_key: Option<String>,
    pub selected_indexer_ids: Vec<i32>,
}

#[derive(Clone, Debug, PartialEq, Eq)]
pub struct PersistedAudiobookshelfIntegrationSettings {
    pub enabled: bool,
    pub base_url: String,
    pub api_key: Option<String>,
    pub library_id: String,
    pub mark_existing_during_search: bool,
}

#[derive(Clone, Debug, PartialEq, Eq)]
pub struct PersistedImportSettings {
    pub naming_template: String,
    pub calibre_command: String,
    pub ebook_import_mode: EbookImportMode,
    pub ebook_passthrough_root: Option<String>,
    pub audiobook_layout_preset: AudiobookLayoutPreset,
}

#[derive(Clone, Debug, PartialEq, Eq)]
pub struct PersistedAcquisitionSettings {
    pub minimum_score: i64,
    pub auto_acquire_score: i64,
    pub preferred_language: Option<String>,
    pub blocked_terms: Vec<String>,
}

#[derive(Clone, Debug, PartialEq, Eq)]
pub struct PersistedDownloadClientSettings {
    pub qbittorrent: PersistedQbittorrentSettings,
}

#[derive(Clone, Debug, PartialEq, Eq)]
pub struct PersistedIntegrationSettings {
    pub prowlarr: PersistedProwlarrIntegrationSettings,
    pub audiobookshelf: PersistedAudiobookshelfIntegrationSettings,
}

/// The settings as stored, secrets included.
#[derive(Clone, Debug, PartialEq, Eq)]
pub struct PersistedRuntimeSettings {
    pub storage: StorageSettingsRecord,
    pub metadata: MetadataSettingsRecord,
    pub download_clients: PersistedDownloadClientSettings,
    pub integrations: PersistedIntegrationSettings,
    pub import: PersistedImportSettings,
    pub acquisition: PersistedAcquisitionSettings,
}

// ---------------------------------------------------------------------------
// Meaning of an update
// ---------------------------------------------------------------------------

/// The new value when one is given, else the old one.
pub open spec fn pick<T>(old: T, new: Option<T>) -> T {
    match new {
        Some(v) => v,
        None => old,
    }
}

/// A stored secret after an update: cleared on request, replaced by a
/// non-empty new value, otherwise kept.
pub open spec fn secret_after(old: Option<String>, new: Option<String>, clear: bool) -> Option<
    String,
> {
    if clear {
        None
    } else {
        match new {
            Some(v) => if v@.len() == 0 {
                old
            } else {
                Some(v)
            },
            None => old,
        }
    }
}

/// `normalize_optional_text`: trimmed text, or nothing when it is blank.
pub open spec fn normalized_text(v: Seq<char>) -> Option<Seq<char>> {
    if trim(v).len() == 0 {
        None
    } else {
        Some(trim(v))
    }
}

pub open spec fn storage_after(old: StorageSettingsRecord, u: Option<StorageSettingsUpdate>) -> StorageSettingsRecord {
    match u {
        None => old,
        Some(u) => StorageSettingsRecord {
            ebooks_root: pick(old.ebooks_root, u.ebooks_root),
            audiobooks_root: pick(old.audiobooks_root, u.audiobooks_root),
        },
    }
}

pub open spec fn metadata_after(old: MetadataSettingsRecord, u: Option<MetadataSettingsUpdate>) -> MetadataSettingsRecord {
    match u {
        None => old,
        Some(u) => MetadataSettingsRecord {
            base_url: pick(old.base_url, u.base_url),
            cover_base_url: pick(old.cover_base_url, u.cover_base_url),
        },
    }
}

pub open spec fn qbittorrent_after(
    old: PersistedQbittorrentSettings,
    u: Option<DownloadClientSettingsUpdate>,
) -> PersistedQbittorrentSettings {
    match u {
        Some(d) => match d.qbittorrent {
            Some(q) => PersistedQbittorrentSettings {
                enabled: pick(old.enabled, q.enabled),
                base_url: pick(old.base_url, q.base_url),
                username: pick(old.username, q.username),
                password: secret_after(old.password, q.password, q.clear_password),
                category_ebook: pick(old.category_ebook, q.category_ebook),
                category_audiobook: pick(old.category_audiobook, q.category_audiobook),
            },
            None => old,
        },
        None => old,
    }
}

pub open spec fn prowlarr_after(
    old: PersistedProwlarrIntegrationSettings,
    u: Option<IntegrationSettingsUpdate>,
) -> PersistedProwlarrIntegrationSettings {
    match u {
        Some(i) => match i.prowlarr {
            Some(p) => PersistedProwlarrIntegrationSettings {
                enabled: pick(old.enabled, p.enabled),
                sync_enabled: pick(old.sync_enabled, p.sync_enabled),
                base_url: pick(old.base_url, p.base_url),
                api_key: secret_after(old.api_key, p.api_key, p.clear_api_key),
                selected_indexer_ids: old.selected_indexer_ids,
            },
            None => old,
        },
        None => old,
    }
}

pub open spec fn audiobookshelf_after(
    old: PersistedAudiobookshelfIntegrationSettings,
    u: Option<IntegrationSettingsUpdate>,
) -> PersistedAudiobookshelfIntegrationSettings {
    match u {
        Some(i) => match i.audiobookshelf {
            Some(a) => PersistedAudiobookshelfIntegrationSettings {
                enabled: pick(old.enabled, a.enabled),
                base_url: pick(old.base_url, a.base_url),
                api_key: secret_after(old.api_key, a.api_key, a.clear_api_key),
                library_id: pick(old.library_id, a.library_id),
                mark_existing_during_search: pick(
                    old.mark_existing_during_search,
                    a.mark_existing_during_search,
                ),
            },
            None => old,
        },
        None => old,
    }
}

pub open spec fn import_after(old: PersistedImportSettings, u: Option<ImportSettingsUpdate>) -> PersistedImportSettings {
    match u {
        None => old,
        Some(u) => PersistedImportSettings {
            naming_template: pick(old.naming_template, u.naming_template),
            calibre_command: pick(old.calibre_command, u.calibre_command),
            ebook_import_mode: pick(old.ebook_import_mode, u.ebook_import_mode),
            ebook_passthrough_root: match u.ebook_passthrough_root {
                Some(v) => Some(v),
                None => old.ebook_passthrough_root,
            },
            audiobook_layout_preset: pick(old.audiobook_layout_preset, u.audiobook_layout_preset),
        },
    }
}

/// The acquisition settings after an update, apart from the preferred
/// language (see `preferred_language_after`).
pub open spec fn acquisition_scores_after(
    old: PersistedAcquisitionSettings,
    u: Option<AcquisitionSettingsUpdate>,
) -> (i64, i64, Vec<String>) {
    match u {
        None => (old.minimum_score, old.auto_acquire_score, old.blocked_terms),
        Some(a) => (
            pick(old.minimum_score, a.minimum_score),
            pick(old.auto_acquire_score, a.auto_acquire_score),
            pick(old.blocked_terms, a.blocked_terms),
        ),
    }
}

pub open spec fn preferred_language_after(
    old: PersistedAcquisitionSettings,
    u: Option<AcquisitionSettingsUpdate>,
) -> Option<Seq<char>> {
    match u {
        Some(a) => match a.preferred_language {
            Some(v) => normalized_text(v@),
            None => opt_view(old.preferred_language),
        },
        None => opt_view(old.preferred_language),
    }
}

/// `s` is what applying `u` to `old` gives.
pub open spec fn is_update_of(
    s: PersistedRuntimeSettings,
    old: PersistedRuntimeSettings,
    u: RuntimeSettingsUpdate,
) -> bool {
    &&& s.storage == storage_after(old.storage, u.storage)
    &&& s.metadata == metadata_after(old.metadata, u.metadata)
    &&& s.download_clients.qbittorrent == qbittorrent_after(
        old.download_clients.qbittorrent,
        u.download_clients,
    )
    &&& s.integrations.prowlarr == prowlarr_after(old.integrations.prowlarr, u.integrations)
    &&& s.integrations.audiobookshelf == audiobookshelf_after(
        old.integrations.audiobookshelf,
        u.integrations,
    )
    &&& s.import == import_after(old.import, u.import)
    &&& (s.acquisition.minimum_score, s.acquisition.auto_acquire_score, s.acquisition.blocked_terms)
        == acquisition_scores_after(old.acquisition, u.acquisition)
    &&& opt_view(s.acquisition.preferred_language) == preferred_language_after(
        old.acquisition,
        u.acquisition,
    )
}

// ---------------------------------------------------------------------------
// Meaning of validation
// ---------------------------------------------------------------------------

/// Problem with a URL setting: empty after trimming, or not parseable.
pub open spec fn url_error(value: Seq<char>, label: Seq<char>) -> Option<Seq<char>> {
    if trim(value).len() == 0 {
        Some(label + " must not be empty"@)
    } else if !url_parses(trim(value)) {
        Some(label + " must be a valid URL"@)
    } else {
        None
    }
}

pub open spec fn non_empty_error(value: Seq<char>, label: Seq<char>) -> Option<Seq<char>> {
    if trim(value).len() == 0 {
        Some(label + " must not be empty"@)
    } else {
        None
    }
}

pub open spec fn absolute_path_error(value: Seq<char>, label: Seq<char>) -> Option<Seq<char>> {
    if !is_absolute_path(value) {
        Some(label + " must be an absolute path"@)
    } else {
        None
    }
}

pub open spec fn naming_template_error(value: Seq<char>) -> Option<Seq<char>> {
    if trim(value).len() == 0 {
        Some("import naming template"@ + " must not be empty"@)
    } else if !crate::text::contains(value, "{author}"@) || !crate::text::contains(
        value,
        "{title}"@,
    ) {
        Some("import naming template must include both {author} and {title}"@)
    } else {
        None
    }
}

/// The first problem, if `a` is none then `b`.
pub open spec fn or_else(a: Option<Seq<char>>, b: Option<Seq<char>>) -> Option<Seq<char>> {
    if a is Some {
        a
    } else {
        b
    }
}

pub open spec fn secret_blank(s: Option<String>) -> bool {
    match s {
        Some(v) => trim(v@).len() == 0,
        None => true,
    }
}

/// The first problem with a set of settings, if any.
pub open spec fn settings_error(s: PersistedRuntimeSettings) -> Option<Seq<char>> {
    let qb = s.download_clients.qbittorrent;
    or_else(
        absolute_path_error(s.storage.ebooks_root@, "ebooks root"@),
        or_else(
            absolute_path_error(s.storage.audiobooks_root@, "audiobooks root"@),
            or_else(
                url_error(s.metadata.base_url@, "metadata base url"@),
                or_else(
                    url_error(s.metadata.cover_base_url@, "cover base url"@),
                    or_else(qbittorrent_error(qb), prowlarr_and_rest_error(s)),
                ),
            ),
        ),
    )
}

/// Problems with the qBittorrent settings.
pub open spec fn qbittorrent_error(qb: PersistedQbittorrentSettings) -> Option<Seq<char>> {
    or_else(
        if qb.enabled {
            or_else(
                url_error(qb.base_url@, "qBittorrent base url"@),
                or_else(
                    non_empty_error(qb.username@, "qBittorrent username"@),
                    if secret_blank(qb.password) {
                        Some("qBittorrent password must not be empty when enabled"@)
                    } else {
                        None
                    },
                ),
            )
        } else {
            None
        },
        or_else(
            non_empty_error(qb.category_ebook@, "qBittorrent ebook category"@),
            non_empty_error(qb.category_audiobook@, "qBittorrent audiobook category"@),
        ),
    )
}

/// Problems with Prowlarr, the naming template and the scores.
pub open spec fn prowlarr_and_rest_error(s: PersistedRuntimeSettings) -> Option<Seq<char>> {
    let pr = s.integrations.prowlarr;
    or_else(
        if pr.enabled || pr.sync_enabled {
            or_else(
                url_error(pr.base_url@, "Prowlarr base url"@),
                if secret_blank(pr.api_key) {
                    Some("Prowlarr api key must not be empty when enabled"@)
                } else {
                    None
                },
            )
        } else {
            None
        },
        or_else(naming_template_error(s.import.naming_template@), score_error(s.acquisition)),
    )
}

/// Problems with the acquisition scores.
pub open spec fn score_error(acq: PersistedAcquisitionSettings) -> Option<Seq<char>> {
    if !(0 <= acq.minimum_score <= 10000) {
        Some("minimum score must be between 0.0 and 1.0"@)
    } else if !(0 <= acq.auto_acquire_score <= 10000) {
        Some("auto acquire score must be between 0.0 and 1.0"@)
    } else if acq.auto_acquire_score < acq.minimum_score {
        Some("auto acquire score must be greater than or equal to minimum score"@)
    } else {
        None
    }
}

// ---------------------------------------------------------------------------
// Operations
// ---------------------------------------------------------------------------

impl PersistedRuntimeSettings {
    /// The initial settings seeded from the bootstrap configuration.
    pub fn from_config(config: &AppConfig) -> (r: Self)
        ensures
            r.storage.ebooks_root@ == config.ebooks_root@,
            r.storage.audiobooks_root@ == config.audiobooks_root@,
            r.metadata.base_url@ == config.metadata_base_url@,
            r.metadata.cover_base_url@ == config.cover_base_url@,
            r.download_clients.qbittorrent.enabled == config.qbittorrent is Some,
            match config.qbittorrent {
                Some(q) => {
                    &&& r.download_clients.qbittorrent.base_url@ == q.base_url@
                    &&& r.download_clients.qbittorrent.username@ == q.username@
                    &&& opt_view(r.download_clients.qbittorrent.password) == Some(q.password@)
                },
                None => {
                    &&& r.download_clients.qbittorrent.base_url@ == Seq::<char>::empty()
                    &&& r.download_clients.qbittorrent.username@ == Seq::<char>::empty()
                    &&& r.download_clients.qbittorrent.password is None
                },
            },
            r.download_clients.qbittorrent.category_ebook@ == "athena-ebooks"@,
            r.download_clients.qbittorrent.category_audiobook@ == "athena-audiobooks"@,
            !r.integrations.prowlarr.enabled,
            !r.integrations.prowlarr.sync_enabled,
            r.integrations.prowlarr.base_url@ == Seq::<char>::empty(),
            r.integrations.prowlarr.api_key is None,
            r.integrations.prowlarr.selected_indexer_ids@.len() == 0,
            !r.integrations.audiobookshelf.enabled,
            r.integrations.audiobookshelf.base_url@ == Seq::<char>::empty(),
            r.integrations.audiobookshelf.api_key is None,
            r.integrations.audiobookshelf.library_id@ == Seq::<char>::empty(),
            !r.integrations.audiobookshelf.mark_existing_during_search,
            r.import.naming_template@ == "{author}/{title}/{title}"@,
            r.import.calibre_command@ == "calibredb"@,
            r.import.ebook_import_mode == EbookImportMode::Managed,
            r.import.ebook_passthrough_root is None,
            r.import.audiobook_layout_preset == AudiobookLayoutPreset::AuthorTitle,
            r.acquisition.minimum_score == 7000,
            r.acquisition.auto_acquire_score == 9300,
            r.acquisition.preferred_language is None,
            r.acquisition.blocked_terms@.len() == 0,
    {
        let qb = match &config.qbittorrent {
            Some(q) => PersistedQbittorrentSettings {
                enabled: true,
                base_url: copy_str(q.base_url.as_str()),
                username: copy_str(q.username.as_str()),
                password: Some(copy_str(q.password.as_str())),
                category_ebook: copy_str("athena-ebooks"),
                category_audiobook: copy_str("athena-audiobooks"),
            },
            None => PersistedQbittorrentSettings {
                enabled: false,
                base_url: String::new(),
                username: String::new(),
                password: None,
                category_ebook: copy_str("athena-ebooks"),
                category_audiobook: copy_str("athena-audiobooks"),
            },
        };
        PersistedRuntimeSettings {
            storage: StorageSettingsRecord {
                ebooks_root: copy_str(config.ebooks_root.as_str()),
                audiobooks_root: copy_str(config.audiobooks_root.as_str()),
            },
            metadata: MetadataSettingsRecord {
                base_url: copy_str(config.metadata_base_url.as_str()),
                cover_base_url: copy_str(config.cover_base_url.as_str()),
            },
            download_clients: PersistedDownloadClientSettings { qbittorrent: qb },
            integrations: PersistedIntegrationSettings {
                prowlarr: PersistedProwlarrIntegrationSettings {
                    enabled: false,
                    sync_enabled: false,
                    base_url: String::new(),
                    api_key: None,
                    selected_indexer_ids: Vec::new(),
                },
                audiobookshelf: PersistedAudiobookshelfIntegrationSettings {
                    enabled: false,
                    base_url: String::new(),
                    api_key: None,
                    library_id: String::new(),
                    mark_existing_during_search: false,
                },
            },
            import: PersistedImportSettings {
                naming_template: copy_str("{author}/{title}/{title}"),
                calibre_command: copy_str("calibredb"),
                ebook_import_mode: EbookImportMode::Managed,
                ebook_passthrough_root: None,
                audiobook_layout_preset: AudiobookLayoutPreset::AuthorTitle,
            },
            acquisition: PersistedAcquisitionSettings {
                minimum_score: 7000,
                auto_acquire_score: 9300,
                preferred_language: None,
                blocked_terms: Vec::new(),
            },
        }
    }

    /// The settings as shown to clients: every stored value except secrets,
    /// which appear only as whether they are set.
    pub fn to_record(&self) -> (r: RuntimeSettingsRecord)
        ensures
            record_shows(r, *self),
    {
        let qb = &self.download_clients.qbittorrent;
        let pr = &self.integrations.prowlarr;
        let abs = &self.integrations.audiobookshelf;
        RuntimeSettingsRecord {
            storage: StorageSettingsRecord {
                ebooks_root: copy_str(self.storage.ebooks_root.as_str()),
                audiobooks_root: copy_str(self.storage.audiobooks_root.as_str()),
            },
            metadata: MetadataSettingsRecord {
                base_url: copy_str(self.metadata.base_url.as_str()),
                cover_base_url: copy_str(self.metadata.cover_base_url.as_str()),
            },
            download_clients: DownloadClientSettingsRecord {
                qbittorrent: QbittorrentSettingsRecord {
                    enabled: qb.enabled,
                    base_url: copy_str(qb.base_url.as_str()),
                    username: copy_str(qb.username.as_str()),
                    category_ebook: copy_str(qb.category_ebook.as_str()),
                    category_audiobook: copy_str(qb.category_audiobook.as_str()),
                    has_password: qb.password.is_some(),
                },
            },
            integrations: IntegrationSettingsRecord {
                prowlarr: ProwlarrIntegrationRecord {
                    enabled: pr.enabled,
                    sync_enabled: pr.sync_enabled,
                    base_url: copy_str(pr.base_url.as_str()),
                    has_api_key: pr.api_key.is_some(),
                },
                audiobookshelf: AudiobookshelfIntegrationRecord {
                    enabled: abs.enabled,
                    base_url: copy_str(abs.base_url.as_str()),
                    library_id: copy_str(abs.library_id.as_str()),
                    has_api_key: abs.api_key.is_some(),
                    mark_existing_during_search: abs.mark_existing_during_search,
                },
            },
            import: ImportSettingsRecord {
                naming_template: copy_str(self.import.naming_template.as_str()),
                calibre_command: copy_str(self.import.calibre_command.as_str()),
                ebook_import_mode: self.import.ebook_import_mode,
                ebook_passthrough_root: copy_opt(&self.import.ebook_passthrough_root),
                audiobook_layout_preset: self.import.audiobook_layout_preset,
            },
            acquisition: AcquisitionSettingsRecord {
                minimum_score: self.acquisition.minimum_score,
                auto_acquire_score: self.acquisition.auto_acquire_score,
                preferred_language: copy_opt(&self.acquisition.preferred_language),
                blocked_terms: copy_strings(&self.acquisition.blocked_terms),
            },
        }
    }

    /// Applies a partial update: given values replace stored ones; a secret is
    /// cleared on request, kept when the new value is empty, else replaced;
    /// the preferred language is trimmed and dropped when blank.
    pub fn apply_update(&mut self, update: RuntimeSettingsUpdate)
        ensures
            is_update_of(*final(self), *old(self), update),
    {
        apply_storage(&mut self.storage, update.storage);
        apply_metadata(&mut self.metadata, update.metadata);
        apply_download_clients(&mut self.download_clients.qbittorrent, update.download_clients);
        match update.integrations {
            Some(integrations) => {
                apply_prowlarr(&mut self.integrations.prowlarr, integrations.prowlarr);
                apply_audiobookshelf(
                    &mut self.integrations.audiobookshelf,
                    integrations.audiobookshelf,
                );
            },
            None => {},
        }
        apply_import(&mut self.import, update.import);
        apply_acquisition(&mut self.acquisition, update.acquisition);
    }

    /// Checks the settings; the error names the first problem found.
    pub fn validate(&self) -> (r: Result<(), String>)
        ensures
            r is Ok <==> settings_error(*self) is None,
            r matches Err(msg) ==> settings_error(*self) == Some(msg@),
    {
        validate_absolute_path(self.storage.ebooks_root.as_str(), "ebooks root")?;
        validate_absolute_path(self.storage.audiobooks_root.as_str(), "audiobooks root")?;
        validate_url(self.metadata.base_url.as_str(), "metadata base url")?;
        validate_url(self.metadata.cover_base_url.as_str(), "cover base url")?;
        let qb = &self.download_clients.qbittorrent;
        if qb.enabled {
            validate_url(qb.base_url.as_str(), "qBittorrent base url")?;
            require_non_empty(qb.username.as_str(), "qBittorrent username")?;
            let blank = match &qb.password {
                Some(p) => is_blank(p.as_str()),
                None => true,
            };
            if blank {
                return Err(copy_str("qBittorrent password must not be empty when enabled"));
            }
        }
        require_non_empty(qb.category_ebook.as_str(), "qBittorrent ebook category")?;
        require_non_empty(qb.category_audiobook.as_str(), "qBittorrent audiobook category")?;
        let prowlarr = &self.integrations.prowlarr;
        if prowlarr.enabled || prowlarr.sync_enabled {
            validate_url(prowlarr.base_url.as_str(), "Prowlarr base url")?;
            let blank = match &prowlarr.api_key {
                Some(k) => is_blank(k.as_str()),
                None => true,
            };
            if blank {
                return Err(copy_str("Prowlarr api key must not be empty when enabled"));
            }
        }
        validate_naming_template(self.import.naming_template.as_str())?;
        let acq = &self.acquisition;
        if !(0 <= acq.minimum_score && acq.minimum_score <= 10000) {
            return Err(copy_str("minimum score must be between 0.0 and 1.0"));
        }
        if !(0 <= acq.auto_acquire_score && acq.auto_acquire_score <= 10000) {
            return Err(copy_str("auto acquire score must be between 0.0 and 1.0"));
        }
        if acq.auto_acquire_score < acq.minimum_score {
            return Err(
                copy_str("auto acquire score must be greater than or equal to minimum score"),
            );
        }
        Ok(())
    }
}

/// `r` shows exactly the stored settings `s`, with secrets reduced to flags.
pub open spec fn record_shows(r: RuntimeSettingsRecord, s: PersistedRuntimeSettings) -> bool {
    let qb = s.download_clients.qbittorrent;
    let rq = r.download_clients.qbittorrent;
    let pr = s.integrations.prowlarr;
    let rp = r.integrations.prowlarr;
    let ab = s.integrations.audiobookshelf;
    let ra = r.integrations.audiobookshelf;
    &&& r.storage.ebooks_root@ == s.storage.ebooks_root@
    &&& r.storage.audiobooks_root@ == s.storage.audiobooks_root@
    &&& r.metadata.base_url@ == s.metadata.base_url@
    &&& r.metadata.cover_base_url@ == s.metadata.cover_base_url@
    &&& rq.enabled == qb.enabled
    &&& rq.base_url@ == qb.base_url@
    &&& rq.username@ == qb.username@
    &&& rq.category_ebook@ == qb.category_ebook@
    &&& rq.category_audiobook@ == qb.category_audiobook@
    &&& rq.has_password == qb.password is Some
    &&& rp.enabled == pr.enabled
    &&& rp.sync_enabled == pr.sync_enabled
    &&& rp.base_url@ == pr.base_url@
    &&& rp.has_api_key == pr.api_key is Some
    &&& ra.enabled == ab.enabled
    &&& ra.base_url@ == ab.base_url@
    &&& ra.library_id@ == ab.library_id@
    &&& ra.has_api_key == ab.api_key is Some
    &&& ra.mark_existing_during_search == ab.mark_existing_during_search
    &&& r.import.naming_template@ == s.import.naming_template@
    &&& r.import.calibre_command@ == s.import.calibre_command@
    &&& r.import.ebook_import_mode == s.import.ebook_import_mode
    &&& opt_view(r.import.ebook_passthrough_root) == opt_view(s.import.ebook_passthrough_root)
    &&& r.import.audiobook_layout_preset == s.import.audiobook_layout_preset
    &&& r.acquisition.minimum_score == s.acquisition.minimum_score
    &&& r.acquisition.auto_acquire_score == s.acquisition.auto_acquire_score
    &&& opt_view(r.acquisition.preferred_language) == opt_view(s.acquisition.preferred_language)
    &&& views(r.acquisition.blocked_terms@) == views(s.acquisition.blocked_terms@)
}


fn apply_storage(s: &mut StorageSettingsRecord, u: Option<StorageSettingsUpdate>)
    ensures
        *final(s) == storage_after(*old(s), u),
{
    if let Some(storage) = u {
        if let Some(value) = storage.ebooks_root {
            s.ebooks_root = value;
        }
        if let Some(value) = storage.audiobooks_root {
            s.audiobooks_root = value;
        }
    }
}

fn apply_metadata(s: &mut MetadataSettingsRecord, u: Option<MetadataSettingsUpdate>)
    ensures
        *final(s) == metadata_after(*old(s), u),
{
    if let Some(metadata) = u {
        if let Some(value) = metadata.base_url {
            s.base_url = value;
        }
        if let Some(value) = metadata.cover_base_url {
            s.cover_base_url = value;
        }
    }
}

/// A secret after an update (see `secret_after`).
fn updated_secret(old: Option<String>, new: Option<String>, clear: bool) -> (r: Option<String>)
    ensures
        r == secret_after(old, new, clear),
{
    if clear {
        None
    } else {
        match new {
            Some(value) => if value.as_str().is_empty() {
                old
            } else {
                Some(value)
            },
            None => old,
        }
    }
}

fn apply_download_clients(
    s: &mut PersistedQbittorrentSettings,
    u: Option<DownloadClientSettingsUpdate>,
)
    ensures
        *final(s) == qbittorrent_after(*old(s), u),
{
    if let Some(download_clients) = u {
        if let Some(qb) = download_clients.qbittorrent {
            if let Some(value) = qb.enabled {
                s.enabled = value;
            }
            if let Some(value) = qb.base_url {
                s.base_url = value;
            }
            if let Some(value) = qb.username {
                s.username = value;
            }
            if let Some(value) = qb.category_ebook {
                s.category_ebook = value;
            }
            if let Some(value) = qb.category_audiobook {
                s.category_audiobook = value;
            }
            let old_password = s.password.take();
            s.password = updated_secret(old_password, qb.password, qb.clear_password);
        }
    }
}

fn apply_prowlarr(
    s: &mut PersistedProwlarrIntegrationSettings,
    u: Option<ProwlarrIntegrationUpdate>,
)
    ensures
        *final(s) == prowlarr_after(
            *old(s),
            Some(IntegrationSettingsUpdate { prowlarr: u, audiobookshelf: None }),
        ),
{
    if let Some(prowlarr) = u {
        if let Some(value) = prowlarr.enabled {
            s.enabled = value;
        }
        if let Some(value) = prowlarr.sync_enabled {
            s.sync_enabled = value;
        }
        if let Some(value) = prowlarr.base_url {
            s.base_url = value;
        }
        let old_key = s.api_key.take();
        s.api_key = updated_secret(old_key, prowlarr.api_key, prowlarr.clear_api_key);
    }
}

fn apply_audiobookshelf(
    s: &mut PersistedAudiobookshelfIntegrationSettings,
    u: Option<AudiobookshelfIntegrationUpdate>,
)
    ensures
        *final(s) == audiobookshelf_after(
            *old(s),
            Some(IntegrationSettingsUpdate { prowlarr: None, audiobookshelf: u }),
        ),
{
    if let Some(abs) = u {
        if let Some(value) = abs.enabled {
            s.enabled = value;
        }
        if let Some(value) = abs.base_url {
            s.base_url = value;
        }
        if let Some(value) = abs.library_id {
            s.library_id = value;
        }
        if let Some(value) = abs.mark_existing_during_search {
            s.mark_existing_during_search = value;
        }
        let old_key = s.api_key.take();
        s.api_key = updated_secret(old_key, abs.api_key, abs.clear_api_key);
    }
}

fn apply_import(s: &mut PersistedImportSettings, u: Option<ImportSettingsUpdate>)
    ensures
        *final(s) == import_after(*old(s), u),
{
    if let Some(import_settings) = u {
        if let Some(value) = import_settings.naming_template {
            s.naming_template = value;
        }
        if let Some(value) = import_settings.calibre_command {
            s.calibre_command = value;
        }
        if let Some(value) = import_settings.ebook_import_mode {
            s.ebook_import_mode = value;
        }
        if let Some(value) = import_settings.ebook_passthrough_root {
            s.ebook_passthrough_root = Some(value);
        }
        if let Some(value) = import_settings.audiobook_layout_preset {
            s.audiobook_layout_preset = value;
        }
    }
}

fn apply_acquisition(s: &mut PersistedAcquisitionSettings, u: Option<AcquisitionSettingsUpdate>)
    ensures
        (final(s).minimum_score, final(s).auto_acquire_score, final(s).blocked_terms)
            == acquisition_scores_after(*old(s), u),
        opt_view(final(s).preferred_language) == preferred_language_after(*old(s), u),
{
    if let Some(acquisition) = u {
        if let Some(value) = acquisition.minimum_score {
            s.minimum_score = value;
        }
        if let Some(value) = acquisition.auto_acquire_score {
            s.auto_acquire_score = value;
        }
        if let Some(value) = acquisition.preferred_language {
            s.preferred_language = normalize_optional_text(Some(value));
        }
        if let Some(value) = acquisition.blocked_terms {
            s.blocked_terms = value;
        }
    }
}

fn validate_absolute_path(value: &str, label: &str) -> (r: Result<(), String>)
    ensures
        match absolute_path_error(value@, label@) {
            Some(msg) => r matches Err(e) && e@ == msg,
            None => r is Ok,
        },
{
    if !path_is_absolute(value) {
        return Err(concat(label, " must be an absolute path"));
    }
    Ok(())
}

fn validate_url(value: &str, label: &str) -> (r: Result<(), String>)
    ensures
        match url_error(value@, label@) {
            Some(msg) => r matches Err(e) && e@ == msg,
            None => r is Ok,
        },
{
    let trimmed = trim_str(value);
    if trimmed.as_str().is_empty() {
        return Err(concat(label, " must not be empty"));
    }
    if !url_is_valid(trimmed.as_str()) {
        return Err(concat(label, " must be a valid URL"));
    }
    Ok(())
}

fn require_non_empty(value: &str, label: &str) -> (r: Result<(), String>)
    ensures
        match non_empty_error(value@, label@) {
            Some(msg) => r matches Err(e) && e@ == msg,
            None => r is Ok,
        },
{
    if is_blank(value) {
        return Err(concat(label, " must not be empty"));
    }
    Ok(())
}

fn validate_naming_template(value: &str) -> (r: Result<(), String>)
    ensures
        match naming_template_error(value@) {
            Some(msg) => r matches Err(e) && e@ == msg,
            None => r is Ok,
        },
{
    require_non_empty(value, "import naming template")?;
    if !str_contains(value, "{author}") || !str_contains(value, "{title}") {
        return Err(copy_str("import naming template must include both {author} and {title}"));
    }
    Ok(())
}

/// The trimmed text, or nothing when it is absent or blank.
pub fn normalize_optional_text(value: Option<String>) -> (r: Option<String>)
    ensures
        opt_view(r) == match value {
            Some(v) => normalized_text(v@),
            None => None,
        },
{
    match value {
        Some(v) => {
            let t = trim_str(v.as_str());
            if t.as_str().is_empty() {
                None
            } else {
                Some(t)
            }
        },
        None => None,
    }
}

// ---------------------------------------------------------------------------
// Laws
// ---------------------------------------------------------------------------

/// The update that changes nothing.
pub open spec fn empty_update() -> RuntimeSettingsUpdate {
    RuntimeSettingsUpdate {
        storage: None,
        metadata: None,
        download_clients: None,
        integrations: None,
        import: None,
        acquisition: None,
    }
}

/// Two stored settings hold the same values (texts compared by content).
pub open spec fn same_settings(a: PersistedRuntimeSettings, b: PersistedRuntimeSettings) -> bool {
    &&& a.storage == b.storage
    &&& a.metadata == b.metadata
    &&& a.download_clients == b.download_clients
    &&& a.integrations == b.integrations
    &&& a.import == b.import
    &&& a.acquisition.minimum_score == b.acquisition.minimum_score
    &&& a.acquisition.auto_acquire_score == b.acquisition.auto_acquire_score
    &&& a.acquisition.blocked_terms == b.acquisition.blocked_terms
    &&& opt_view(a.acquisition.preferred_language) == opt_view(b.acquisition.preferred_language)
}

/// An update with no sections leaves the settings as they were.
pub proof fn lemma_empty_update_keeps_settings(old: PersistedRuntimeSettings, s: PersistedRuntimeSettings)
    requires
        is_update_of(s, old, empty_update()),
    ensures
        same_settings(s, old),
{
}

proof fn lemma_secret_after_idempotent(old: Option<String>, new: Option<String>, clear: bool)
    ensures
        secret_after(secret_after(old, new, clear), new, clear) == secret_after(old, new, clear),
{
}

/// Applying the same update twice gives what applying it once gives.
pub proof fn lemma_update_idempotent(
    old: PersistedRuntimeSettings,
    u: RuntimeSettingsUpdate,
    once: PersistedRuntimeSettings,
    twice: PersistedRuntimeSettings,
)
    requires
        is_update_of(once, old, u),
        is_update_of(twice, once, u),
    ensures
        same_settings(twice, once),
{
    match u.download_clients {
        Some(d) => match d.qbittorrent {
            Some(q) => lemma_secret_after_idempotent(
                old.download_clients.qbittorrent.password,
                q.password,
                q.clear_password,
            ),
            None => {},
        },
        None => {},
    }
    match u.integrations {
        Some(i) => {
            match i.prowlarr {
                Some(p) => lemma_secret_after_idempotent(
                    old.integrations.prowlarr.api_key,
                    p.api_key,
                    p.clear_api_key,
                ),
                None => {},
            }
            match i.audiobookshelf {
                Some(a) => lemma_secret_after_idempotent(
                    old.integrations.audiobookshelf.api_key,
                    a.api_key,
                    a.clear_api_key,
                ),
                None => {},
            }
        },
        None => {},
    }
    assert(once.download_clients == twice.download_clients);
    assert(once.integrations == twice.integrations);
}

/// Valid settings have absolute media roots, scores between 0.0 and 1.0
/// with the automatic threshold at least the minimum, and an enabled
/// qBittorrent has a password, an enabled Prowlarr has an api key, and the
/// naming template names both `{author}` and `{title}`.
pub proof fn lemma_valid_settings(s: PersistedRuntimeSettings)
    requires
        settings_error(s) is None,
    ensures
        is_absolute_path(s.storage.ebooks_root@),
        is_absolute_path(s.storage.audiobooks_root@),
        0 <= s.acquisition.minimum_score <= s.acquisition.auto_acquire_score <= 10000,
        s.download_clients.qbittorrent.enabled ==> !secret_blank(
            s.download_clients.qbittorrent.password,
        ),
        s.integrations.prowlarr.enabled ==> !secret_blank(s.integrations.prowlarr.api_key),
        crate::text::contains(s.import.naming_template@, "{author}"@),
        crate::text::contains(s.import.naming_template@, "{title}"@),
{
}

} // verus!

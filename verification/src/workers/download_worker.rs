//! Sending approved releases to qBittorrent and importing what it finished.
use vstd::prelude::*;

use crate::domain::requests::MediaType;
use crate::domain::search::ReleaseCandidate;
use crate::domain::settings::PersistedRuntimeSettings;
use crate::json::{jview, jview_entries, push_entry, text, JsonValue, JsonView};
use crate::sorting::{sort_texts, texts_sorted};
use crate::text::{concat, copy_str, opt_view};

verus! {

/// The download worker: it polls qBittorrent for finished downloads.
pub struct DownloadWorker;

/// The qBittorrent category of a media type.
pub open spec fn category_spec(media_type: MediaType) -> Seq<char> {
    match media_type {
        MediaType::Ebook => "athena-ebooks"@,
        MediaType::Audiobook => "athena-audiobooks"@,
    }
}

pub fn category_for(media_type: &MediaType) -> (r: &'static str)
    ensures
        r@ == category_spec(*media_type),
{
    match media_type {
        MediaType::Ebook => "athena-ebooks",
        MediaType::Audiobook => "athena-audiobooks",
    }
}

/// The link handed to qBittorrent for an approved candidate.
pub fn dispatch_url(candidate: &ReleaseCandidate) -> (r: Result<&str, String>)
    ensures
        match r {
            Ok(u) => candidate.download_url matches Some(d) && u@ == d@,
            Err(e) => candidate.download_url is None
                && e@ == "approved candidate did not include a qBittorrent dispatch URL"@,
        },
{
    match &candidate.download_url {
        Some(u) => Ok(u.as_str()),
        None => Err(copy_str("approved candidate did not include a qBittorrent dispatch URL")),
    }
}

/// Audiobooks are synced to Audiobookshelf after import: that needs a client
/// and a library id.
pub fn audiobook_sync_target<'a>(client_configured: bool, library_id: Option<&'a str>) -> (r:
    Result<&'a str, String>)
    ensures
        match r {
            Ok(id) => client_configured && library_id == Some(id),
            Err(e) => if !client_configured {
                e@ == "Audiobookshelf client is not configured for audiobook sync"@
            } else {
                library_id is None && e@ == "Audiobookshelf library id is not configured"@
            },
        },
{
    if !client_configured {
        return Err(copy_str("Audiobookshelf client is not configured for audiobook sync"));
    }
    match library_id {
        Some(id) => Ok(id),
        None => Err(copy_str("Audiobookshelf library id is not configured")),
    }
}

/// The text of the notification sent after an import.
pub open spec fn import_body_spec(media_type: MediaType, request_id: Seq<char>) -> Seq<char> {
    match media_type {
        MediaType::Ebook => "Ebook import completed for "@ + request_id,
        MediaType::Audiobook => "Audiobook import completed for "@ + request_id,
    }
}

pub fn import_notification_body(media_type: &MediaType, request_id: &str) -> (r: String)
    ensures
        r@ == import_body_spec(*media_type, request_id@),
{
    match media_type {
        MediaType::Ebook => concat("Ebook import completed for ", request_id),
        MediaType::Audiobook => concat("Audiobook import completed for ", request_id),
    }
}

/// The data of the notification sent after an import.
pub fn import_notification_data(request_id: &str, media_type: &MediaType, path: &str) -> (r:
    JsonValue)
    ensures
        jview(r) == JsonView::Object(
            seq![
                ("request_id"@, JsonView::Str(request_id@)),
                ("media_type"@, JsonView::Str(crate::domain::requests::media_type_text(*media_type))),
                ("path"@, JsonView::Str(path@)),
            ],
        ),
{
    let mut es: Vec<(String, JsonValue)> = Vec::new();
    push_entry(&mut es, "request_id", text(request_id));
    push_entry(&mut es, "media_type", text(media_type.as_str()));
    push_entry(&mut es, "path", text(path));
    assert(jview_entries(es@) =~= seq![
        ("request_id"@, JsonView::Str(request_id@)),
        ("media_type"@, JsonView::Str(crate::domain::requests::media_type_text(*media_type))),
        ("path"@, JsonView::Str(path@)),
    ]);
    JsonValue::Object(es)
}

/// The files of a finished download, sorted; an empty directory is an error.
pub fn finish_payload_files(files: Vec<String>, hash: &str, root: &str) -> (r: Result<
    Vec<String>,
    String,
>)
    ensures
        match r {
            Ok(sorted) => files@.len() > 0 && sorted@.to_multiset() == files@.to_multiset()
                && texts_sorted(sorted@),
            Err(e) => files@.len() == 0 && e@ == "qBittorrent payload directory was empty for torrent "@
                + hash@ + ": "@ + root@,
        },
{
    if files.len() == 0 {
        let a = concat("qBittorrent payload directory was empty for torrent ", hash);
        let b = concat(a.as_str(), ": ");
        return Err(concat(b.as_str(), root));
    }
    let sorted = sort_texts(files);
    Ok(sorted)
}

/// What one poll works with, read from the settings.
#[derive(Clone, Debug, PartialEq, Eq)]
pub struct PollPlan {
    pub qbittorrent_base_url: String,
    pub qbittorrent_username: String,
    pub qbittorrent_password: String,
    pub calibre_command: String,
    /// Base URL and API key of Audiobookshelf, when it is enabled.
    pub audiobookshelf: Option<(String, String)>,
    pub audiobookshelf_library_id: String,
    pub ebooks_root: String,
    pub audiobooks_root: String,
}

fn text_or_empty(v: &Option<String>) -> (r: String)
    ensures
        r@ == match v {
            Some(s) => s@,
            None => Seq::<char>::empty(),
        },
{
    match v {
        Some(s) => copy_str(s.as_str()),
        None => String::new(),
    }
}

/// Nothing is polled while qBittorrent is disabled; otherwise the client is
/// built from its settings (a missing password is empty) and Audiobookshelf
/// is used only when enabled.
pub fn poll_plan(settings: &PersistedRuntimeSettings) -> (r: Option<PollPlan>)
    ensures
        match r {
            None => !settings.download_clients.qbittorrent.enabled,
            Some(p) => {
                let qb = settings.download_clients.qbittorrent;
                let abs = settings.integrations.audiobookshelf;
                &&& qb.enabled
                &&& p.qbittorrent_base_url@ == qb.base_url@
                &&& p.qbittorrent_username@ == qb.username@
                &&& p.qbittorrent_password@ == match qb.password {
                    Some(s) => s@,
                    None => Seq::<char>::empty(),
                }
                &&& p.calibre_command@ == settings.import.calibre_command@
                &&& match p.audiobookshelf {
                    Some((base, key)) => abs.enabled && base@ == abs.base_url@ && key@ == match abs.api_key {
                        Some(s) => s@,
                        None => Seq::<char>::empty(),
                    },
                    None => !abs.enabled,
                }
                &&& p.audiobookshelf_library_id@ == abs.library_id@
                &&& p.ebooks_root@ == settings.storage.ebooks_root@
                &&& p.audiobooks_root@ == settings.storage.audiobooks_root@
            },
        },
{
    let qb = &settings.download_clients.qbittorrent;
    if !qb.enabled {
        return None;
    }
    let abs = &settings.integrations.audiobookshelf;
    let audiobookshelf = if abs.enabled {
        Some((copy_str(abs.base_url.as_str()), text_or_empty(&abs.api_key)))
    } else {
        None
    };
    Some(
        PollPlan {
            qbittorrent_base_url: copy_str(qb.base_url.as_str()),
            qbittorrent_username: copy_str(qb.username.as_str()),
            qbittorrent_password: text_or_empty(&qb.password),
            calibre_command: copy_str(settings.import.calibre_command.as_str()),
            audiobookshelf,
            audiobookshelf_library_id: copy_str(abs.library_id.as_str()),
            ebooks_root: copy_str(settings.storage.ebooks_root.as_str()),
            audiobooks_root: copy_str(settings.storage.audiobooks_root.as_str()),
        },
    )
}

} // verus!

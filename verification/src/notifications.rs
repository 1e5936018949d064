//! Notifications about submissions and imports, sent to a webhook or an
//! ntfy topic.
use vstd::prelude::*;

use crate::json::{jview, jview_entries, push_entry, serde_json_text, text, to_json_text, JsonValue, JsonView};
use crate::text::{ascii_lower, chars_of, concat, copy_str, is_blank, opt_view, trim, seq_eq};

verus! {

/// Where notifications go.
#[derive(Clone, Copy, Debug, PartialEq, Eq, Structural)]
pub enum NotificationTargetKind {
    /// A JSON document is posted.
    Webhook,
    /// The text is posted to an ntfy topic.
    Ntfy,
}

/// The notification settings as stored, the token included.
#[derive(Clone, Debug, PartialEq, Eq)]
pub struct PersistedNotificationSettings {
    pub enabled: bool,
    pub target_kind: NotificationTargetKind,
    pub target_url: String,
    pub auth_header: Option<String>,
    pub auth_token: Option<String>,
}

/// The notification settings as shown: the token only as whether it is set.
#[derive(Clone, Debug, PartialEq, Eq)]
pub struct NotificationSettingsRecord {
    pub enabled: bool,
    pub target_kind: NotificationTargetKind,
    pub target_url: String,
    pub auth_header: Option<String>,
    pub has_auth_token: bool,
}

/// A change of the notification settings; absent values are kept.
#[derive(Clone, Debug, Default, PartialEq, Eq)]
pub struct NotificationSettingsUpdate {
    pub enabled: Option<bool>,
    pub target_kind: Option<NotificationTargetKind>,
    pub target_url: Option<String>,
    pub auth_header: Option<String>,
    pub auth_token: Option<String>,
    pub clear_auth_token: bool,
}

impl PersistedNotificationSettings {
    pub fn to_record(&self) -> (r: NotificationSettingsRecord)
        ensures
            r.enabled == self.enabled,
            r.target_kind == self.target_kind,
            r.target_url@ == self.target_url@,
            opt_view(r.auth_header) == opt_view(self.auth_header),
            r.has_auth_token == self.auth_token is Some,
    {
        NotificationSettingsRecord {
            enabled: self.enabled,
            target_kind: self.target_kind,
            target_url: copy_str(self.target_url.as_str()),
            auth_header: crate::text::copy_opt(&self.auth_header),
            has_auth_token: self.auth_token.is_some(),
        }
    }

    /// Applies a change: given values replace stored ones; the token is
    /// cleared on request, kept when the new one is empty, else replaced.
    pub fn apply_update(&mut self, update: NotificationSettingsUpdate)
        ensures
            final(self).enabled == crate::domain::settings::pick(old(self).enabled, update.enabled),
            final(self).target_kind == crate::domain::settings::pick(
                old(self).target_kind,
                update.target_kind,
            ),
            final(self).target_url == crate::domain::settings::pick(
                old(self).target_url,
                update.target_url,
            ),
            final(self).auth_header == match update.auth_header {
                Some(h) => Some(h),
                None => old(self).auth_header,
            },
            final(self).auth_token == crate::domain::settings::secret_after(
                old(self).auth_token,
                update.auth_token,
                update.clear_auth_token,
            ),
    {
        if let Some(e) = update.enabled {
            self.enabled = e;
        }
        if let Some(k) = update.target_kind {
            self.target_kind = k;
        }
        if let Some(u) = update.target_url {
            self.target_url = u;
        }
        if let Some(h) = update.auth_header {
            self.auth_header = Some(h);
        }
        if update.clear_auth_token {
            self.auth_token = None;
        } else {
            match update.auth_token {
                Some(t) => {
                    if chars_of(t.as_str()).len() > 0 {
                        self.auth_token = Some(t);
                    }
                },
                None => {},
            }
        }
    }
}

/// ASCII case-insensitive equality (`str::eq_ignore_ascii_case`).
pub fn eq_ignore_ascii_case(a: &str, b: &str) -> (r: bool)
    ensures
        r == (ascii_lower(a@) == ascii_lower(b@)),
{
    let x = crate::text::ascii_lowercase(&chars_of(a));
    let y = crate::text::ascii_lowercase(&chars_of(b));
    seq_eq(&x, &y)
}

/// What is sent.
#[derive(Debug)]
pub enum NotificationBody {
    Json(JsonValue),
    Text(String),
}

/// A notification ready to be posted.
#[derive(Debug)]
pub struct NotificationRequest {
    pub url: String,
    pub headers: Vec<(String, String)>,
    pub body: NotificationBody,
}

/// The authentication header, when a token is set: by default
/// `Authorization: Bearer <token>`; a header of another name carries the bare
/// token.
pub open spec fn auth_header_spec(s: PersistedNotificationSettings) -> Option<(Seq<char>, Seq<char>)> {
    match s.auth_token {
        None => None,
        Some(token) => {
            let name = match s.auth_header {
                Some(h) => h@,
                None => "Authorization"@,
            };
            Some(
                (
                    name,
                    if ascii_lower(name) == ascii_lower("authorization"@) {
                        "Bearer "@ + token@
                    } else {
                        token@
                    },
                ),
            )
        },
    }
}

/// The headers of a notification: authentication first, then for ntfy the
/// title and the `books` tag.
pub open spec fn headers_spec(s: PersistedNotificationSettings, title: Seq<char>) -> Seq<
    (Seq<char>, Seq<char>),
> {
    let auth = match auth_header_spec(s) {
        Some(h) => seq![h],
        None => Seq::empty(),
    };
    match s.target_kind {
        NotificationTargetKind::Webhook => auth,
        NotificationTargetKind::Ntfy => auth + seq![("Title"@, title), ("Tags"@, "books"@)],
    }
}

/// Nothing is sent while notifications are disabled or have no target.
pub open spec fn notification_sent(s: PersistedNotificationSettings) -> bool {
    s.enabled && trim(s.target_url@).len() > 0
}

/// Builds the notification to post, or nothing when none is sent. A webhook
/// gets a JSON document of the event, title, body and data; ntfy gets the
/// body, a blank line and the data as JSON text.
pub fn notification_request(
    settings: &PersistedNotificationSettings,
    event: &str,
    title: &str,
    body: &str,
    data: JsonValue,
) -> (r: Option<NotificationRequest>)
    ensures
        match r {
            None => !notification_sent(*settings),
            Some(n) => {
                &&& notification_sent(*settings)
                &&& n.url@ == settings.target_url@
                &&& n.headers@.map_values(|h: (String, String)| (h.0@, h.1@)) == headers_spec(
                    *settings,
                    title@,
                )
                &&& match settings.target_kind {
                    NotificationTargetKind::Webhook => n.body matches NotificationBody::Json(doc)
                        && jview(doc) == JsonView::Object(
                        seq![
                            ("event"@, JsonView::Str(event@)),
                            ("title"@, JsonView::Str(title@)),
                            ("body"@, JsonView::Str(body@)),
                            ("data"@, jview(data)),
                        ],
                    ),
                    NotificationTargetKind::Ntfy => n.body matches NotificationBody::Text(t) && t@
                        == body@ + "\n\n"@ + serde_json_text(jview(data)),
                }
            },
        },
{
    if !settings.enabled || is_blank(settings.target_url.as_str()) {
        return None;
    }
    let mut headers: Vec<(String, String)> = Vec::new();
    match &settings.auth_token {
        Some(token) => {
            let name = match &settings.auth_header {
                Some(h) => copy_str(h.as_str()),
                None => copy_str("Authorization"),
            };
            let value = if eq_ignore_ascii_case(name.as_str(), "authorization") {
                concat("Bearer ", token.as_str())
            } else {
                copy_str(token.as_str())
            };
            headers.push((name, value));
        },
        None => {},
    }
    let ghost auth = headers@.map_values(|h: (String, String)| (h.0@, h.1@));
    assert(auth =~= match auth_header_spec(*settings) {
        Some(h) => seq![h],
        None => Seq::empty(),
    });
    let body_out = match settings.target_kind {
        NotificationTargetKind::Webhook => {
            let mut es: Vec<(String, JsonValue)> = Vec::new();
            push_entry(&mut es, "event", text(event));
            push_entry(&mut es, "title", text(title));
            push_entry(&mut es, "body", text(body));
            push_entry(&mut es, "data", data);
            assert(jview_entries(es@) =~= seq![
                ("event"@, JsonView::Str(event@)),
                ("title"@, JsonView::Str(title@)),
                ("body"@, JsonView::Str(body@)),
                ("data"@, jview(data)),
            ]);
            NotificationBody::Json(JsonValue::Object(es))
        },
        NotificationTargetKind::Ntfy => {
            let ghost before = headers@;
            headers.push((copy_str("Title"), copy_str(title)));
            headers.push((copy_str("Tags"), copy_str("books")));
            assert(headers@.map_values(|h: (String, String)| (h.0@, h.1@)) =~= auth + seq![
                ("Title"@, title@),
                ("Tags"@, "books"@),
            ]);
            let a = concat(body, "\n\n");
            let d = to_json_text(&data);
            NotificationBody::Text(concat(a.as_str(), d.as_str()))
        },
    };
    Some(
        NotificationRequest {
            url: copy_str(settings.target_url.as_str()),
            headers,
            body: body_out,
        },
    )
}

} // verus!

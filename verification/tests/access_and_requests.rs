use book_router::db::requests::{
    created_event_payload, manifestation_from_payload, validate_batch,
};
use book_router::domain::auth::{AuthUserRecord, UserRole};
use book_router::domain::requests::{CreateRequest, ManifestationPreference, MediaType};
use book_router::domain::submissions::{
    CreateSubmissionRequest, DuplicateHint, DuplicateSource, SubmissionIntakeMode,
};
use book_router::http::auth::{
    clear_session_cookie_value, require_admin, require_user, session_cookie_value,
    session_id_from_cookie_header,
};
use book_router::http::error::AppError;
use book_router::http::handlers::submissions::{
    check_submission_access, enforce_duplicates, start_submission, SubmissionStart,
};
use book_router::json::JsonValue;
use book_router::notifications::{
    notification_request, NotificationBody, NotificationTargetKind, PersistedNotificationSettings,
};

fn hobbit(external_work_id: &str, media_type: MediaType) -> CreateRequest {
    CreateRequest {
        external_work_id: external_work_id.to_string(),
        title: "The Hobbit".to_string(),
        author: "J.R.R. Tolkien".to_string(),
        media_type,
        preferred_language: Some("en".to_string()),
        manifestation: ManifestationPreference::default(),
    }
}

#[test]
fn create_batch_rolls_back_all_requests_if_any_request_is_invalid() {
    let batch = vec![hobbit("OL27448W", MediaType::Ebook), hobbit("", MediaType::Audiobook)];
    let error = validate_batch(&batch).unwrap_err();
    assert!(error.contains("external work id"));
    assert_eq!(validate_batch(&vec![hobbit("OL27448W", MediaType::Ebook)]), Ok(()));
    assert_eq!(validate_batch(&vec![hobbit("  ", MediaType::Ebook)]).is_err(), true);
}

#[test]
fn create_request_persists_canonical_work_identity_and_initial_event() {
    let mut request = hobbit("OL27448W", MediaType::Audiobook);
    request.manifestation = ManifestationPreference::new(
        Some("Anniversary".to_string()),
        Some("Andy Serkis".to_string()),
        None,
        true,
    );
    let payload = created_event_payload("req-1", &request);
    assert_eq!(payload.member_str("request_id"), Some("req-1"));
    assert_eq!(payload.member_str("external_work_id"), Some("OL27448W"));
    assert_eq!(payload.get("work").and_then(|w| w.member_str("title")), Some("The Hobbit"));
    assert_eq!(payload.member_str("media_type"), Some("audiobook"));
    let read = manifestation_from_payload(&payload);
    assert_eq!(read, request.manifestation);
    assert_eq!(manifestation_from_payload(&JsonValue::Null), ManifestationPreference::default());
}

#[test]
fn session_cookie_round_trip() {
    let set = session_cookie_value("abc123");
    assert_eq!(set, "athena_session=abc123; Path=/; HttpOnly; SameSite=Lax; Max-Age=2592000");
    let pair = set.split(';').next().unwrap();
    assert_eq!(session_id_from_cookie_header(pair), Some("abc123".to_string()));
    assert_eq!(
        session_id_from_cookie_header("theme=dark; athena_session=x=y ; other=1"),
        Some("x=y".to_string())
    );
    assert_eq!(session_id_from_cookie_header("theme=dark"), None);
    assert_eq!(clear_session_cookie_value(), "athena_session=; Path=/; HttpOnly; SameSite=Lax; Max-Age=0");
}

#[test]
fn admins_and_users_are_required() {
    let member = AuthUserRecord { id: "u1".to_string(), username: "ann".to_string(), role: UserRole::Requester };
    let admin = AuthUserRecord { id: "u2".to_string(), username: "root".to_string(), role: UserRole::Admin };
    assert_eq!(require_user(None), Err(AppError::Unauthorized("login required".to_string())));
    assert_eq!(require_user(Some(member.clone())), Ok(member.clone()));
    let bootstrap = require_admin(true, None).unwrap();
    assert_eq!(bootstrap.id, "bootstrap-admin");
    assert_eq!(bootstrap.role, UserRole::Admin);
    assert_eq!(require_admin(false, Some(admin.clone())), Ok(admin));
    assert!(matches!(require_admin(false, Some(member)), Err(AppError::Forbidden(_))));
    assert!(matches!(require_admin(false, None), Err(AppError::Unauthorized(_))));
}

#[test]
fn submissions_start_or_are_refused() {
    let metadata = CreateSubmissionRequest {
        selected_work_id: Some("  OL1W ".to_string()),
        media_types: vec![MediaType::Ebook],
        ..Default::default()
    };
    assert_eq!(
        start_submission(&metadata),
        Ok(SubmissionStart::Metadata { selected_work_id: "OL1W".to_string() })
    );
    let none = CreateSubmissionRequest { media_types: vec![], ..metadata.clone() };
    assert_eq!(start_submission(&none), Err(AppError::BadRequest("no media types selected".to_string())));
    let manual = CreateSubmissionRequest {
        intake_mode: Some(SubmissionIntakeMode::Manual),
        title: Some("Dune".to_string()),
        author: Some("   ".to_string()),
        media_types: vec![MediaType::Audiobook],
        ..Default::default()
    };
    assert_eq!(
        start_submission(&manual),
        Err(AppError::BadRequest("manual submissions require an author".to_string()))
    );
}

#[test]
fn imported_audiobook_duplicates_are_refused_unless_an_admin_overrides() {
    let imported = vec![DuplicateHint {
        source: DuplicateSource::AthenaImported,
        label: "Already imported".to_string(),
        detail: None,
    }];
    let audio = vec![MediaType::Audiobook];
    assert!(enforce_duplicates(&audio, &imported, false, UserRole::Admin).is_err());
    assert!(enforce_duplicates(&audio, &imported, true, UserRole::Trusted).is_err());
    assert_eq!(enforce_duplicates(&audio, &imported, true, UserRole::Admin), Ok(()));
    assert_eq!(enforce_duplicates(&vec![MediaType::Ebook], &imported, false, UserRole::Requester), Ok(()));
    let requested = vec![DuplicateHint {
        source: DuplicateSource::AthenaRequested,
        label: "Requested".to_string(),
        detail: None,
    }];
    assert_eq!(enforce_duplicates(&audio, &requested, false, UserRole::Requester), Ok(()));
    assert_eq!(check_submission_access(UserRole::Requester, "u1", "u1"), Ok(()));
    assert_eq!(
        check_submission_access(UserRole::Requester, "u1", "u2"),
        Err(AppError::Forbidden("submission access denied".to_string()))
    );
}

fn notify_settings(kind: NotificationTargetKind, header: Option<&str>, token: Option<&str>) -> PersistedNotificationSettings {
    PersistedNotificationSettings {
        enabled: true,
        target_kind: kind,
        target_url: "https://ntfy.example/books".to_string(),
        auth_header: header.map(|s| s.to_string()),
        auth_token: token.map(|s| s.to_string()),
    }
}

#[test]
fn notifications_are_built_for_their_target() {
    let data = JsonValue::Object(vec![("request_id".to_string(), JsonValue::Str("r1".to_string()))]);
    let mut off = notify_settings(NotificationTargetKind::Webhook, None, None);
    off.enabled = false;
    assert!(notification_request(&off, "e", "t", "b", JsonValue::Null).is_none());

    let hook = notification_request(
        &notify_settings(NotificationTargetKind::Webhook, Some("AUTHORIZATION"), Some("tok")),
        "import.completed",
        "Imported",
        "done",
        JsonValue::Null,
    )
    .unwrap();
    assert_eq!(hook.headers, vec![("AUTHORIZATION".to_string(), "Bearer tok".to_string())]);
    match hook.body {
        NotificationBody::Json(doc) => {
            assert_eq!(doc.member_str("event"), Some("import.completed"));
            assert_eq!(doc.member_str("title"), Some("Imported"));
            assert_eq!(doc.member_str("body"), Some("done"));
            assert!(matches!(doc.get("data"), Some(JsonValue::Null)));
        }
        other => panic!("unexpected {:?}", other),
    }

    let ntfy = notification_request(
        &notify_settings(NotificationTargetKind::Ntfy, Some("X-Token"), Some("tok")),
        "e",
        "Title",
        "Body",
        data,
    )
    .unwrap();
    assert_eq!(
        ntfy.headers,
        vec![
            ("X-Token".to_string(), "tok".to_string()),
            ("Title".to_string(), "Title".to_string()),
            ("Tags".to_string(), "books".to_string())
        ]
    );
    match ntfy.body {
        NotificationBody::Text(t) => assert_eq!(t, "Body\n\n{\"request_id\":\"r1\"}"),
        other => panic!("unexpected {:?}", other),
    }
}

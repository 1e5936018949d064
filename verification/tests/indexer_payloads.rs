use book_router::db::indexers::{
    field_as_i64_vec, field_as_string, field_value, indexer_resource,
    mask_indexer_secret_fields, parse_prowlarr_indexer_id_from_base_url, ParsedIndexerPayload,
};
use book_router::http::error::AppError;
use book_router::http::handlers::prowlarr::{
    indexer_not_found, indexer_schemas, system_status, validate_indexer_payload,
};
use book_router::json::{
    boolean, decimal_number, integer, object_insert, opt_text, text, JsonValue,
};
use book_router::numbers::{i64_to_string, parse_i64};

fn indexer_object(entries: Vec<(&str, JsonValue)>) -> JsonValue {
    JsonValue::Object(entries.into_iter().map(|(k, v)| (k.to_string(), v)).collect())
}

fn field(name: &str, value: JsonValue) -> JsonValue {
    indexer_object(vec![("name", text(name)), ("value", value), ("type", text("textbox"))])
}

fn fields() -> Vec<JsonValue> {
    vec![
        field("baseUrl", text("http://prowlarr.local:9696/12/")),
        field("apiPath", text("/api")),
        field("apiKey", text("super-secret")),
        field("categories", JsonValue::Array(vec![integer(3030), integer(7000)])),
        field("minimumSeeders", integer(1)),
    ]
}

fn payload(name: &str, enable_rss: bool, priority: i64) -> JsonValue {
    indexer_object(vec![
        ("id", integer(0)),
        ("name", text(name)),
        ("enableRss", boolean(enable_rss)),
        ("enableAutomaticSearch", boolean(true)),
        ("enableInteractiveSearch", boolean(true)),
        ("priority", integer(priority)),
        ("implementationName", text("Torznab")),
        ("implementation", text("Torznab")),
        ("configContract", text("TorznabSettings")),
        ("fields", JsonValue::Array(fields())),
    ])
}

fn api_key_of(v: &JsonValue) -> Option<String> {
    let fields = v.member_array("fields")?;
    match field_value(fields, "apiKey")? {
        JsonValue::Str(s) => Some(s.clone()),
        JsonValue::Null => None,
        _ => None,
    }
}

#[test]
fn readarr_compatible_indexer_routes_store_mask_and_delete_synced_indexers() {
    let p = payload("Books (Prowlarr)", true, 25);
    assert_eq!(validate_indexer_payload(&p), Ok(()));
    let parsed = ParsedIndexerPayload::parse(p).unwrap();
    assert_eq!(parsed.prowlarr_indexer_id, Some(12));
    assert_eq!(parsed.name, "Books (Prowlarr)");
    assert!(parsed.enabled);
    assert_eq!(parsed.priority, 25);
    assert_eq!(parsed.base_url.as_deref(), Some("http://prowlarr.local:9696/12/"));
    assert_eq!(parsed.api_path.as_deref(), Some("/api"));
    assert_eq!(parsed.api_key.as_deref(), Some("super-secret"));
    assert_eq!(parsed.categories, vec![3030, 7000]);
    assert_eq!(parsed.config_contract, "TorznabSettings");

    let shown = indexer_resource(parsed.raw_payload, 1, parsed.api_key.as_deref());
    assert_eq!(shown.member_i64("id"), Some(1));
    assert_eq!(api_key_of(&shown).as_deref(), Some("********"));

    let updated = ParsedIndexerPayload::parse(payload("Books Updated (Prowlarr)", false, 10)).unwrap();
    assert_eq!(updated.name, "Books Updated (Prowlarr)");
    assert_eq!(updated.priority, 10);
    assert!(updated.enabled);
}

#[test]
fn indexer_defaults_and_refusals() {
    let bare = indexer_object(vec![("fields", JsonValue::Array(vec![]))]);
    let parsed = ParsedIndexerPayload::parse(bare).unwrap();
    assert_eq!(parsed.name, "Unnamed Indexer");
    assert_eq!(parsed.implementation, "Torznab");
    assert_eq!(parsed.implementation_name, "Torznab");
    assert_eq!(parsed.config_contract, "TorznabSettings");
    assert_eq!(parsed.priority, 25);
    assert!(!parsed.enabled);
    assert_eq!(parsed.prowlarr_indexer_id, None);
    assert!(parsed.categories.is_empty());

    let newznab = indexer_object(vec![("implementation", text("Newznab")), ("fields", JsonValue::Array(vec![]))]);
    assert_eq!(ParsedIndexerPayload::parse(newznab).unwrap().config_contract, "NewznabSettings");

    assert_eq!(
        ParsedIndexerPayload::parse(JsonValue::Array(vec![])).err(),
        Some("indexer payload must be a JSON object".to_string())
    );
    assert_eq!(
        ParsedIndexerPayload::parse(indexer_object(vec![("name", text("x"))])).err(),
        Some("indexer payload must include fields".to_string())
    );
    assert_eq!(
        validate_indexer_payload(&indexer_object(vec![
            ("implementation", text("Rss")),
            ("fields", JsonValue::Array(vec![]))
        ])),
        Err("only Torznab and Newznab indexers are supported".to_string())
    );
    assert_eq!(
        validate_indexer_payload(&indexer_object(vec![("fields", JsonValue::Array(vec![]))])),
        Err("indexer payload must include a baseUrl field".to_string())
    );
}

#[test]
fn indexer_field_readers() {
    let fs = fields();
    assert_eq!(field_as_string(&fs, "minimumSeeders").as_deref(), Some("1"));
    assert_eq!(field_as_string(&fs, "apiPath").as_deref(), Some("/api"));
    assert_eq!(field_as_string(&fs, "missing"), None);
    assert_eq!(field_as_i64_vec(&fs, "categories"), vec![3030, 7000]);
    assert_eq!(field_as_i64_vec(&fs, "apiPath"), Vec::<i64>::new());
    let null_field = vec![field("apiKey", JsonValue::Null)];
    assert_eq!(field_as_string(&null_field, "apiKey"), None);
}

#[test]
fn prowlarr_indexer_id_is_the_first_numeric_segment() {
    assert_eq!(parse_prowlarr_indexer_id_from_base_url("http://prowlarr.local:9696/12/"), Some(12));
    assert_eq!(parse_prowlarr_indexer_id_from_base_url("http://p/api/v1/7/x"), Some(7));
    assert_eq!(parse_prowlarr_indexer_id_from_base_url("http://p/abc/"), None);
    assert_eq!(parse_prowlarr_indexer_id_from_base_url("not a url"), None);
}

#[test]
fn api_key_is_masked_or_cleared() {
    let mut p = payload("x", true, 1);
    mask_indexer_secret_fields(&mut p, None);
    assert_eq!(api_key_of(&p), None);
    let mut p = payload("x", true, 1);
    mask_indexer_secret_fields(&mut p, Some(""));
    assert_eq!(api_key_of(&p), None);
    let mut p = payload("x", true, 1);
    mask_indexer_secret_fields(&mut p, Some("k"));
    assert_eq!(api_key_of(&p).as_deref(), Some("********"));
    // masking again changes nothing
    let once = format!("{:?}", p);
    mask_indexer_secret_fields(&mut p, Some("k"));
    assert_eq!(format!("{:?}", p), once);
    // a value that is not an object is left as it is
    let mut s = text("plain");
    mask_indexer_secret_fields(&mut s, Some("k"));
    assert_eq!(s.as_str(), Some("plain"));
}

#[test]
fn json_text_is_compact_and_escaped() {
    let v = indexer_object(vec![
        ("e", opt_text(&Some("x".to_string()))),
        ("a", text("q\"b\\n\nt\tc\u{1}")),
        ("b", JsonValue::Array(vec![integer(-5), boolean(false), JsonValue::Null])),
        ("c", decimal_number("1.0")),
        ("d", opt_text(&None)),
    ]);
    let fields = vec![field("odd", v), field("count", integer(3)), field("flag", boolean(true))];
    assert_eq!(
        field_as_string(&fields, "odd").as_deref(),
        Some("{\"a\":\"q\\\"b\\\\n\\nt\\tc\\u0001\",\"b\":[-5,false,null],\"c\":1.0,\"d\":null,\"e\":\"x\"}")
    );
    assert_eq!(field_as_string(&fields, "count").as_deref(), Some("3"));
    assert_eq!(field_as_string(&fields, "flag").as_deref(), Some("true"));
}

#[test]
fn json_reads_and_writes_members() {
    let mut v = indexer_object(vec![("k", text("v")), ("n", integer(3)), ("t", boolean(true))]);
    assert_eq!(v.member_str("k"), Some("v"));
    assert_eq!(v.member_i64("n"), Some(3));
    assert_eq!(v.member_bool("t"), Some(true));
    assert_eq!(v.member_str("n"), None);
    assert!(v.get("missing").is_none());
    object_insert(&mut v, "k", integer(9));
    object_insert(&mut v, "z", text("new"));
    assert_eq!(v.member_i64("k"), Some(9));
    assert_eq!(v.member_str("z"), Some("new"));
    match &v {
        JsonValue::Object(entries) => {
            let keys: Vec<&str> = entries.iter().map(|(k, _)| k.as_str()).collect();
            assert_eq!(keys, vec!["k", "n", "t", "z"]);
        }
        other => panic!("unexpected {:?}", other),
    }
    let mut not_object = integer(1);
    object_insert(&mut not_object, "k", integer(2));
    assert_eq!(not_object.as_i64(), Some(1));
}

#[test]
fn integers_print_and_parse() {
    assert_eq!(i64_to_string(0), "0");
    assert_eq!(i64_to_string(-1234), "-1234");
    assert_eq!(i64_to_string(i64::MIN), "-9223372036854775808");
    assert_eq!(parse_i64("9223372036854775807"), Some(i64::MAX));
    assert_eq!(parse_i64("9223372036854775808"), None);
    assert_eq!(parse_i64("-9223372036854775808"), Some(i64::MIN));
    assert_eq!(parse_i64("+12"), Some(12));
    assert_eq!(parse_i64("-"), None);
    assert_eq!(parse_i64(""), None);
    assert_eq!(parse_i64("1a"), None);
    for n in [0i64, 7, -7, 1000, i64::MAX, i64::MIN] {
        assert_eq!(parse_i64(&i64_to_string(n)), Some(n));
    }
}

#[test]
fn prowlarr_schemas_and_status() {
    let schemas = indexer_schemas();
    assert_eq!(schemas.len(), 2);
    assert_eq!(schemas[0].member_str("implementation"), Some("Torznab"));
    assert_eq!(schemas[1].member_str("implementation"), Some("Newznab"));
    assert_eq!(schemas[1].member_str("configContract"), Some("NewznabSettings"));
    let status = system_status("0.1.0");
    assert_eq!(status.member_str("version"), Some("0.1.0"));
    assert_eq!(status.member_str("appName"), Some("Project Athena"));
}

#[test]
fn system_status_reports_a_version_for_prowlarr_handshake() {
    let status = system_status("1.2.3");
    assert!(!status.member_str("version").unwrap().is_empty());
}

#[test]
fn unknown_indexer_is_not_found() {
    assert_eq!(indexer_not_found(7), AppError::NotFound("Indexer with ID 7 not found".to_string()));
    assert_eq!(indexer_not_found(-1).status_and_message(), (404, "Indexer with ID -1 not found".to_string()));
}

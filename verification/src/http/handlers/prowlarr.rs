//! The Readarr-compatible API that Prowlarr pushes indexers through: the
//! indexer schemas offered and the checks on a pushed indexer.
use vstd::prelude::*;

use crate::db::indexers::{field_value, field_value_spec, parse_error, text_or};
use crate::json::{
    boolean, decimal_number, integer, jview, jview_entries, jview_items, member_array, member_str,
    push_entry, push_item, text, JsonValue, JsonView,
};
use crate::http::error::AppError;
use crate::numbers::{decimal, i64_to_string};
use crate::text::{concat, copy_str, str_eq};

verus! {

/// The `forceSave` query flag Prowlarr sends with indexer changes.
#[derive(Clone, Debug, Default, PartialEq, Eq)]
pub struct ForceSaveQuery {
    pub force_save: Option<bool>,
}

// ---------------------------------------------------------------------------
// Checks
// ---------------------------------------------------------------------------

/// Why a pushed indexer is refused, if it is: it needs fields, a Torznab or
/// Newznab implementation (Torznab when none is named), a `baseUrl` field and
/// a `categories` field.
pub open spec fn indexer_payload_error(payload: JsonValue) -> Option<Seq<char>> {
    match member_array(payload, "fields"@) {
        None => Some("indexer payload must include fields"@),
        Some(fields) => {
            let implementation = text_or(member_str(payload, "implementation"@), "Torznab"@);
            if implementation != "Torznab"@ && implementation != "Newznab"@ {
                Some("only Torznab and Newznab indexers are supported"@)
            } else if field_value_spec(fields, "baseUrl"@) is None {
                Some("indexer payload must include a baseUrl field"@)
            } else if field_value_spec(fields, "categories"@) is None {
                Some("indexer payload must include a categories field"@)
            } else {
                None
            }
        },
    }
}

/// A pushed indexer that passes the API's checks can be stored: reading it
/// for storage does not fail.
pub proof fn lemma_accepted_indexer_is_stored(payload: JsonValue)
    requires
        indexer_payload_error(payload) is None,
    ensures
        parse_error(payload) is None,
{
}

pub fn validate_indexer_payload(payload: &JsonValue) -> (r: Result<(), String>)
    ensures
        match r {
            Ok(()) => indexer_payload_error(*payload) is None,
            Err(e) => indexer_payload_error(*payload) == Some(e@),
        },
{
    proof {
        reveal_strlit("Torznab");
        reveal_strlit("Newznab");
    }
    let fields = match payload.member_array("fields") {
        Some(f) => f,
        None => {
            return Err(copy_str("indexer payload must include fields"));
        },
    };
    let supported = match payload.member_str("implementation") {
        Some(i) => str_eq(i, "Torznab") || str_eq(i, "Newznab"),
        None => true,
    };
    if !supported {
        return Err(copy_str("only Torznab and Newznab indexers are supported"));
    }
    if field_value(fields, "baseUrl").is_none() {
        return Err(copy_str("indexer payload must include a baseUrl field"));
    }
    if field_value(fields, "categories").is_none() {
        return Err(copy_str("indexer payload must include a categories field"));
    }
    Ok(())
}

// ---------------------------------------------------------------------------
// Schemas
// ---------------------------------------------------------------------------

/// One settings field of an indexer schema, shown in every mode.
pub open spec fn schema_field_view(
    name: Seq<char>,
    value: JsonView,
    kind: Seq<char>,
    advanced: bool,
    section: Seq<char>,
) -> JsonView {
    JsonView::Object(
        seq![
            ("name"@, JsonView::Str(name)),
            ("value"@, value),
            ("type"@, JsonView::Str(kind)),
            ("advanced"@, JsonView::Bool(advanced)),
            ("section"@, JsonView::Str(section)),
            ("hidden"@, JsonView::Str("never"@)),
        ],
    )
}

pub open spec fn int_view(n: i64) -> JsonView {
    JsonView::Number(crate::numbers::decimal(n as int), Some(n))
}

/// The connection fields every indexer has.
pub open spec fn connectivity_fields() -> Seq<JsonView> {
    seq![
        schema_field_view("baseUrl"@, JsonView::Str(""@), "textbox"@, false, "connectivity"@),
        schema_field_view("apiPath"@, JsonView::Str("/api"@), "textbox"@, false, "connectivity"@),
        schema_field_view("apiKey"@, JsonView::Str(""@), "password"@, false, "connectivity"@),
        schema_field_view(
            "categories"@,
            JsonView::Array(seq![int_view(3030)]),
            "tag"@,
            false,
            "indexer"@,
        ),
    ]
}

/// The seeding fields of torrent indexers.
pub open spec fn torrent_fields() -> Seq<JsonView> {
    seq![
        schema_field_view("minimumSeeders"@, int_view(0), "number"@, false, "torrent"@),
        schema_field_view(
            "seedCriteria.seedRatio"@,
            JsonView::Number("1.0"@, None),
            "number"@,
            false,
            "torrent"@,
        ),
        schema_field_view("seedCriteria.seedTime"@, int_view(60), "number"@, false, "torrent"@),
        schema_field_view(
            "seedCriteria.discographySeedTime"@,
            int_view(60),
            "number"@,
            true,
            "torrent"@,
        ),
        schema_field_view(
            "rejectBlocklistedTorrentHashesWhileGrabbing"@,
            JsonView::Bool(false),
            "checkbox"@,
            true,
            "torrent"@,
        ),
    ]
}

/// The fields of a schema: the connection fields, and for torrents the
/// seeding fields.
pub open spec fn schema_fields_spec(protocol: Seq<char>) -> Seq<JsonView> {
    if protocol == "torrent"@ {
        connectivity_fields() + torrent_fields()
    } else {
        connectivity_fields()
    }
}

fn schema_field(name: &str, value: JsonValue, kind: &str, advanced: bool, section: &str) -> (r:
    JsonValue)
    ensures
        jview(r) == schema_field_view(name@, jview(value), kind@, advanced, section@),
{
    let mut es: Vec<(String, JsonValue)> = Vec::new();
    push_entry(&mut es, "name", text(name));
    push_entry(&mut es, "value", value);
    push_entry(&mut es, "type", text(kind));
    push_entry(&mut es, "advanced", boolean(advanced));
    push_entry(&mut es, "section", text(section));
    push_entry(&mut es, "hidden", text("never"));
    assert(jview_entries(es@) =~= seq![
        ("name"@, JsonView::Str(name@)),
        ("value"@, jview(value)),
        ("type"@, JsonView::Str(kind@)),
        ("advanced"@, JsonView::Bool(advanced)),
        ("section"@, JsonView::Str(section@)),
        ("hidden"@, JsonView::Str("never"@)),
    ]);
    JsonValue::Object(es)
}

pub fn schema_fields(protocol: &str) -> (r: Vec<JsonValue>)
    ensures
        jview_items(r@) == schema_fields_spec(protocol@),
{
    let mut fields: Vec<JsonValue> = Vec::new();
    push_item(&mut fields, schema_field("baseUrl", text(""), "textbox", false, "connectivity"));
    push_item(&mut fields, schema_field("apiPath", text("/api"), "textbox", false, "connectivity"));
    push_item(&mut fields, schema_field("apiKey", text(""), "password", false, "connectivity"));
    let mut categories: Vec<JsonValue> = Vec::new();
    push_item(&mut categories, integer(3030));
    assert(jview_items(categories@) =~= seq![int_view(3030)]);
    push_item(
        &mut fields,
        schema_field("categories", JsonValue::Array(categories), "tag", false, "indexer"),
    );
    assert(jview_items(fields@) =~= connectivity_fields());
    proof {
        reveal_strlit("torrent");
    }
    if str_eq(protocol, "torrent") {
        let ghost before = fields@;
        push_item(&mut fields, schema_field("minimumSeeders", integer(0), "number", false, "torrent"));
        push_item(
            &mut fields,
            schema_field("seedCriteria.seedRatio", decimal_number("1.0"), "number", false, "torrent"),
        );
        push_item(
            &mut fields,
            schema_field("seedCriteria.seedTime", integer(60), "number", false, "torrent"),
        );
        push_item(
            &mut fields,
            schema_field("seedCriteria.discographySeedTime", integer(60), "number", true, "torrent"),
        );
        push_item(
            &mut fields,
            schema_field(
                "rejectBlocklistedTorrentHashesWhileGrabbing",
                boolean(false),
                "checkbox",
                true,
                "torrent",
            ),
        );
        assert(jview_items(fields@) =~= connectivity_fields() + torrent_fields());
    }
    fields
}

/// An indexer schema: the implementation, its settings contract, all search
/// modes on, priority 25, and the fields for `protocol`.
pub open spec fn schema_view(implementation: Seq<char>, contract: Seq<char>, protocol: Seq<char>) -> JsonView {
    JsonView::Object(
        seq![
            ("id"@, int_view(0)),
            ("name"@, JsonView::Str(implementation)),
            ("implementationName"@, JsonView::Str(implementation)),
            ("implementation"@, JsonView::Str(implementation)),
            ("configContract"@, JsonView::Str(contract)),
            ("enableRss"@, JsonView::Bool(true)),
            ("enableAutomaticSearch"@, JsonView::Bool(true)),
            ("enableInteractiveSearch"@, JsonView::Bool(true)),
            ("priority"@, int_view(25)),
            ("fields"@, JsonView::Array(schema_fields_spec(protocol))),
        ],
    )
}

fn schema(implementation: &str, contract: &str, protocol: &str) -> (r: JsonValue)
    ensures
        jview(r) == schema_view(implementation@, contract@, protocol@),
{
    let mut es: Vec<(String, JsonValue)> = Vec::new();
    push_entry(&mut es, "id", integer(0));
    push_entry(&mut es, "name", text(implementation));
    push_entry(&mut es, "implementationName", text(implementation));
    push_entry(&mut es, "implementation", text(implementation));
    push_entry(&mut es, "configContract", text(contract));
    push_entry(&mut es, "enableRss", boolean(true));
    push_entry(&mut es, "enableAutomaticSearch", boolean(true));
    push_entry(&mut es, "enableInteractiveSearch", boolean(true));
    push_entry(&mut es, "priority", integer(25));
    push_entry(&mut es, "fields", JsonValue::Array(schema_fields(protocol)));
    assert(jview_entries(es@) =~= seq![
        ("id"@, int_view(0)),
        ("name"@, JsonView::Str(implementation@)),
        ("implementationName"@, JsonView::Str(implementation@)),
        ("implementation"@, JsonView::Str(implementation@)),
        ("configContract"@, JsonView::Str(contract@)),
        ("enableRss"@, JsonView::Bool(true)),
        ("enableAutomaticSearch"@, JsonView::Bool(true)),
        ("enableInteractiveSearch"@, JsonView::Bool(true)),
        ("priority"@, int_view(25)),
        ("fields"@, JsonView::Array(schema_fields_spec(protocol@))),
    ]);
    JsonValue::Object(es)
}

/// The Torznab schema (torrent fields included).
pub fn torznab_schema() -> (r: JsonValue)
    ensures
        jview(r) == schema_view("Torznab"@, "TorznabSettings"@, "torrent"@),
{
    schema("Torznab", "TorznabSettings", "torrent")
}

/// The Newznab schema (connection fields only).
pub fn newznab_schema() -> (r: JsonValue)
    ensures
        jview(r) == schema_view("Newznab"@, "NewznabSettings"@, "usenet"@),
{
    schema("Newznab", "NewznabSettings", "usenet")
}

/// The schemas offered to Prowlarr.
pub fn indexer_schemas() -> (r: Vec<JsonValue>)
    ensures
        jview_items(r@) == seq![
            schema_view("Torznab"@, "TorznabSettings"@, "torrent"@),
            schema_view("Newznab"@, "NewznabSettings"@, "usenet"@),
        ],
{
    let mut out: Vec<JsonValue> = Vec::new();
    push_item(&mut out, torznab_schema());
    push_item(&mut out, newznab_schema());
    assert(jview_items(out@) =~= seq![
        schema_view("Torznab"@, "TorznabSettings"@, "torrent"@),
        schema_view("Newznab"@, "NewznabSettings"@, "usenet"@),
    ]);
    out
}

/// The refusal for an unknown indexer.
pub fn indexer_not_found(id: i64) -> (r: AppError)
    ensures
        r matches AppError::NotFound(m) && m@ == "Indexer with ID "@ + decimal(id as int)
            + " not found"@,
{
    let a = concat("Indexer with ID ", i64_to_string(id).as_str());
    AppError::NotFound(concat(a.as_str(), " not found"))
}

/// The status answer of the Prowlarr handshake.
pub fn system_status(version: &str) -> (r: JsonValue)
    ensures
        jview(r) == JsonView::Object(
            seq![
                ("version"@, JsonView::Str(version@)),
                ("appName"@, JsonView::Str("Project Athena"@)),
                ("instanceName"@, JsonView::Str("Project Athena"@)),
                ("authentication"@, JsonView::Str("none"@)),
            ],
        ),
{
    let mut es: Vec<(String, JsonValue)> = Vec::new();
    push_entry(&mut es, "version", text(version));
    push_entry(&mut es, "appName", text("Project Athena"));
    push_entry(&mut es, "instanceName", text("Project Athena"));
    push_entry(&mut es, "authentication", text("none"));
    assert(jview_entries(es@) =~= seq![
        ("version"@, JsonView::Str(version@)),
        ("appName"@, JsonView::Str("Project Athena"@)),
        ("instanceName"@, JsonView::Str("Project Athena"@)),
        ("authentication"@, JsonView::Str("none"@)),
    ]);
    JsonValue::Object(es)
}

} // verus!

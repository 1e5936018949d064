//! Indexers pushed by Prowlarr (its Readarr-compatible indexer API): what is
//! read from a pushed payload and how a stored payload is shown again.
use vstd::prelude::*;

use crate::json::{
    jview, jview_items, json_array, json_get, json_i64, json_str, serde_json_text, member_array, member_bool,
    member_i64, member_str, object_insert, to_json_text, vget, vinsert, JsonValue, JsonView,
    lemma_vinsert_twice, lemma_vinsert_vget,
};
use crate::numbers::{parse_i64, parse_i64_spec};
use crate::text::{copy_str, opt_view, split, split_chars, chars_of, string_from};
use crate::urls::{parsed_url_path, url_parses, url_path};

verus! {

// ---------------------------------------------------------------------------
// Fields
// ---------------------------------------------------------------------------

/// The first field object whose `name` is `name`.
pub open spec fn first_named(fields: Seq<JsonValue>, name: Seq<char>) -> Option<JsonValue>
    decreases fields.len(),
{
    if fields.len() == 0 {
        None
    } else if member_str(fields[0], "name"@) == Some(name) {
        Some(fields[0])
    } else {
        first_named(fields.drop_first(), name)
    }
}

/// The `value` of the first field named `name`.
pub open spec fn field_value_spec(fields: Seq<JsonValue>, name: Seq<char>) -> Option<JsonValue> {
    match first_named(fields, name) {
        Some(f) => json_get(f, "value"@),
        None => None,
    }
}

/// A field's value as text: strings as they are, `null` as nothing, other
/// values as the JSON text `serde_json` writes for them.
pub open spec fn field_as_string_spec(fields: Seq<JsonValue>, name: Seq<char>) -> Option<Seq<char>> {
    match field_value_spec(fields, name) {
        Some(JsonValue::Null) => None,
        Some(JsonValue::Str(s)) => Some(s@),
        Some(other) => Some(serde_json_text(jview(other))),
        None => None,
    }
}

/// The integers of an array, in order, others skipped.
pub open spec fn integers_of(items: Seq<JsonValue>) -> Seq<i64>
    decreases items.len(),
{
    if items.len() == 0 {
        Seq::empty()
    } else {
        let prev = integers_of(items.drop_last());
        match json_i64(items.last()) {
            Some(n) => prev.push(n),
            None => prev,
        }
    }
}

/// A field's value as a list of integers; empty when it is not an array.
pub open spec fn field_as_i64_vec_spec(fields: Seq<JsonValue>, name: Seq<char>) -> Seq<i64> {
    match field_value_spec(fields, name) {
        Some(v) => match json_array(v) {
            Some(items) => integers_of(items),
            None => Seq::empty(),
        },
        None => Seq::empty(),
    }
}

/// Index of the first field named `name`.
fn find_field(fields: &Vec<JsonValue>, name: &str) -> (r: Option<usize>)
    ensures
        match r {
            Some(i) => i < fields.len() && first_named(fields@, name@) == Some(fields@[i as int]),
            None => first_named(fields@, name@) is None,
        },
{
    let mut i: usize = 0;
    assert(fields@.skip(0) =~= fields@);
    while i < fields.len()
        invariant
            i <= fields.len(),
            first_named(fields@, name@) == first_named(fields@.skip(i as int), name@),
        decreases fields.len() - i,
    {
        assert(fields@.skip(i as int).drop_first() =~= fields@.skip(i + 1));
        assert(fields@.skip(i as int)[0] == fields@[i as int]);
        let matches = match fields[i].member_str("name") {
            Some(n) => crate::text::str_eq(n, name),
            None => false,
        };
        if matches {
            return Some(i);
        }
        i = i + 1;
    }
    assert(fields@.skip(i as int) =~= Seq::<JsonValue>::empty());
    None
}

/// The `value` of the first field named `name`.
pub fn field_value<'a>(fields: &'a Vec<JsonValue>, name: &str) -> (r: Option<&'a JsonValue>)
    ensures
        match r {
            Some(v) => field_value_spec(fields@, name@) == Some(*v),
            None => field_value_spec(fields@, name@) is None,
        },
{
    match find_field(fields, name) {
        Some(i) => fields[i].get("value"),
        None => None,
    }
}

pub fn field_as_string(fields: &Vec<JsonValue>, name: &str) -> (r: Option<String>)
    ensures
        opt_view(r) == field_as_string_spec(fields@, name@),
{
    match field_value(fields, name) {
        Some(JsonValue::Null) => None,
        Some(JsonValue::Str(s)) => Some(copy_str(s.as_str())),
        Some(other) => Some(to_json_text(other)),
        None => None,
    }
}

pub fn field_as_i64_vec(fields: &Vec<JsonValue>, name: &str) -> (r: Vec<i64>)
    ensures
        r@ == field_as_i64_vec_spec(fields@, name@),
{
    let items = match field_value(fields, name) {
        Some(v) => match v.as_array() {
            Some(items) => items,
            None => {
                return Vec::new();
            },
        },
        None => {
            return Vec::new();
        },
    };
    let mut out: Vec<i64> = Vec::new();
    let mut i: usize = 0;
    while i < items.len()
        invariant
            i <= items.len(),
            out@ == integers_of(items@.take(i as int)),
        decreases items.len() - i,
    {
        assert(items@.take(i + 1).drop_last() =~= items@.take(i as int));
        assert(items@.take(i + 1).last() == items@[i as int]);
        match items[i].as_i64() {
            Some(n) => out.push(n),
            None => {},
        }
        i = i + 1;
    }
    assert(items@.take(items.len() as int) =~= items@);
    out
}

// ---------------------------------------------------------------------------
// The Prowlarr indexer id in a base URL
// ---------------------------------------------------------------------------

/// `Url::path_segments`: the path after its leading `/`, split on `/`;
/// nothing for a path without a leading `/`.
pub open spec fn path_segments_spec(path: Seq<char>) -> Option<Seq<Seq<char>>> {
    if path.len() > 0 && path[0] == '/' {
        Some(split(path.skip(1), '/'))
    } else {
        None
    }
}

/// The first non-empty segment that reads as an integer.
pub open spec fn first_int_segment(segments: Seq<Seq<char>>) -> Option<i64>
    decreases segments.len(),
{
    if segments.len() == 0 {
        None
    } else if segments[0].len() > 0 && parse_i64_spec(segments[0]) is Some {
        parse_i64_spec(segments[0])
    } else {
        first_int_segment(segments.drop_first())
    }
}

/// Prowlarr's base URL for an indexer ends in the indexer's id
/// (`http://prowlarr:9696/12/`): the first integer path segment.
pub open spec fn prowlarr_indexer_id_spec(base_url: Seq<char>) -> Option<i64> {
    if !url_parses(base_url) {
        None
    } else {
        match path_segments_spec(parsed_url_path(base_url)) {
            Some(segments) => first_int_segment(segments),
            None => None,
        }
    }
}

pub fn parse_prowlarr_indexer_id_from_base_url(base_url: &str) -> (r: Option<i64>)
    ensures
        r == prowlarr_indexer_id_spec(base_url@),
{
    let path = match url_path(base_url) {
        Some(p) => p,
        None => {
            return None;
        },
    };
    let chars = chars_of(path.as_str());
    if chars.len() == 0 || chars[0] != '/' {
        return None;
    }
    let rest = crate::text::slice_chars(&chars, 1, chars.len());
    assert(rest@ =~= chars@.skip(1));
    let segments = split_chars(&rest, '/');
    let ghost sv = segments@.map_values(|p: Vec<char>| p@);
    assert(prowlarr_indexer_id_spec(base_url@) == first_int_segment(sv));
    let mut i: usize = 0;
    assert(sv.skip(0) =~= sv);
    while i < segments.len()
        invariant
            i <= segments.len(),
            sv == segments@.map_values(|p: Vec<char>| p@),
            prowlarr_indexer_id_spec(base_url@) == first_int_segment(sv),
            first_int_segment(sv) == first_int_segment(sv.skip(i as int)),
        decreases segments.len() - i,
    {
        assert(sv.skip(i as int).drop_first() =~= sv.skip(i + 1));
        assert(sv.skip(i as int)[0] == segments@[i as int]@);
        let seg = &segments[i];
        if seg.len() > 0 {
            let text = string_from(seg);
            let parsed = parse_i64(text.as_str());
            if parsed.is_some() {
                return parsed;
            }
        }
        i = i + 1;
    }
    assert(sv.skip(i as int) =~= Seq::<Seq<char>>::empty());
    None
}

// ---------------------------------------------------------------------------
// A pushed indexer
// ---------------------------------------------------------------------------

/// What is stored of a pushed indexer.
#[derive(Debug)]
pub struct ParsedIndexerPayload {
    pub prowlarr_indexer_id: Option<i64>,
    pub name: String,
    pub enabled: bool,
    pub implementation: String,
    pub implementation_name: String,
    pub config_contract: String,
    pub protocol: Option<String>,
    pub priority: i64,
    pub base_url: Option<String>,
    pub api_path: Option<String>,
    pub api_key: Option<String>,
    pub categories: Vec<i64>,
    pub raw_payload: JsonValue,
}

pub open spec fn text_or(a: Option<Seq<char>>, b: Seq<char>) -> Seq<char> {
    match a {
        Some(v) => v,
        None => b,
    }
}

pub open spec fn flag(v: JsonValue, key: Seq<char>) -> bool {
    match member_bool(v, key) {
        Some(b) => b,
        None => false,
    }
}

/// The implementation named by the payload, Torznab by default.
pub open spec fn implementation_spec(payload: JsonValue) -> Seq<char> {
    text_or(member_str(payload, "implementation"@), "Torznab"@)
}

/// Why a payload cannot be stored, if it cannot.
pub open spec fn parse_error(payload: JsonValue) -> Option<Seq<char>> {
    if !(payload is Object) {
        Some("indexer payload must be a JSON object"@)
    } else if member_array(payload, "fields"@) is None {
        Some("indexer payload must include fields"@)
    } else {
        None
    }
}

/// `p` holds what `payload` says of an indexer, with the defaults for what it
/// leaves out.
pub open spec fn parsed_from(p: ParsedIndexerPayload, payload: JsonValue) -> bool {
    let fields = member_array(payload, "fields"@).unwrap();
    let implementation = implementation_spec(payload);
    &&& opt_view(p.base_url) == field_as_string_spec(fields, "baseUrl"@)
    &&& opt_view(p.api_path) == field_as_string_spec(fields, "apiPath"@)
    &&& opt_view(p.api_key) == field_as_string_spec(fields, "apiKey"@)
    &&& p.categories@ == field_as_i64_vec_spec(fields, "categories"@)
    &&& p.implementation@ == implementation
    &&& p.implementation_name@ == text_or(member_str(payload, "implementationName"@), implementation)
    &&& p.config_contract@ == text_or(
        member_str(payload, "configContract"@),
        if implementation == "Newznab"@ {
            "NewznabSettings"@
        } else {
            "TorznabSettings"@
        },
    )
    &&& p.prowlarr_indexer_id == match field_as_string_spec(fields, "baseUrl"@) {
        Some(u) => prowlarr_indexer_id_spec(u),
        None => None,
    }
    &&& p.name@ == text_or(member_str(payload, "name"@), "Unnamed Indexer"@)
    &&& p.enabled == (flag(payload, "enableRss"@) || flag(payload, "enableAutomaticSearch"@) || flag(
        payload,
        "enableInteractiveSearch"@,
    ))
    &&& opt_view(p.protocol) == member_str(payload, "protocol"@)
    &&& p.priority == match member_i64(payload, "priority"@) {
        Some(n) => n,
        None => 25,
    }
    &&& p.raw_payload == payload
}

fn str_or(a: Option<&str>, b: &str) -> (r: String)
    ensures
        r@ == text_or(
            match a {
                Some(v) => Some(v@),
                None => None,
            },
            b@,
        ),
{
    match a {
        Some(v) => copy_str(v),
        None => copy_str(b),
    }
}

impl ParsedIndexerPayload {
    /// Reads a pushed indexer: it must be an object with an array of fields.
    pub fn parse(payload: JsonValue) -> (r: Result<Self, String>)
        ensures
            match r {
                Ok(p) => parse_error(payload) is None && parsed_from(p, payload),
                Err(e) => parse_error(payload) == Some(e@),
            },
    {
        proof {
            reveal_strlit("Torznab");
            reveal_strlit("Newznab");
            reveal_strlit("NewznabSettings");
            reveal_strlit("TorznabSettings");
            reveal_strlit("Unnamed Indexer");
        }
        if !matches!(payload, JsonValue::Object(_)) {
            return Err(copy_str("indexer payload must be a JSON object"));
        }
        let fields = match payload.member_array("fields") {
            Some(f) => f,
            None => {
                return Err(copy_str("indexer payload must include fields"));
            },
        };
        let base_url = field_as_string(fields, "baseUrl");
        let api_path = field_as_string(fields, "apiPath");
        let api_key = field_as_string(fields, "apiKey");
        let categories = field_as_i64_vec(fields, "categories");
        let implementation = str_or(payload.member_str("implementation"), "Torznab");
        let implementation_name = str_or(
            payload.member_str("implementationName"),
            implementation.as_str(),
        );
        let is_newznab = crate::text::str_eq(implementation.as_str(), "Newznab");
        let config_contract = str_or(
            payload.member_str("configContract"),
            if is_newznab {
                "NewznabSettings"
            } else {
                "TorznabSettings"
            },
        );
        let prowlarr_indexer_id = match &base_url {
            Some(u) => parse_prowlarr_indexer_id_from_base_url(u.as_str()),
            None => None,
        };
        let name = str_or(payload.member_str("name"), "Unnamed Indexer");
        let enabled = payload.member_bool("enableRss").unwrap_or(false) || payload.member_bool(
            "enableAutomaticSearch",
        ).unwrap_or(false) || payload.member_bool("enableInteractiveSearch").unwrap_or(false);
        let protocol = match payload.member_str("protocol") {
            Some(p) => Some(copy_str(p)),
            None => None,
        };
        let priority = match payload.member_i64("priority") {
            Some(n) => n,
            None => 25,
        };
        Ok(
            ParsedIndexerPayload {
                prowlarr_indexer_id,
                name,
                enabled,
                implementation,
                implementation_name,
                config_contract,
                protocol,
                priority,
                base_url,
                api_path,
                api_key,
                categories,
                raw_payload: payload,
            },
        )
    }
}

// ---------------------------------------------------------------------------
// Showing a stored indexer
// ---------------------------------------------------------------------------

/// What stands in an `apiKey` field when the indexer is shown: nothing when
/// no key is stored, else a mask.
pub open spec fn masked_key_view(api_key: Option<Seq<char>>) -> JsonView {
    match api_key {
        Some(k) => if k.len() == 0 {
            JsonView::Null
        } else {
            JsonView::Str("********"@)
        },
        None => JsonView::Null,
    }
}

/// A field with its value masked when it is the `apiKey` field.
pub open spec fn mask_field(f: JsonView, api_key: Option<Seq<char>>) -> JsonView {
    match f {
        JsonView::Object(es) => if vget(f, "name"@) == Some(JsonView::Str("apiKey"@)) {
            JsonView::Object(vinsert(es, "value"@, masked_key_view(api_key)))
        } else {
            f
        },
        _ => f,
    }
}

/// The value with the fields of its `fields` array masked.
pub open spec fn masked_fields_view(v: JsonView, api_key: Option<Seq<char>>) -> JsonView {
    match vget(v, "fields"@) {
        Some(JsonView::Array(fields)) => match v {
            JsonView::Object(es) => JsonView::Object(
                vinsert(
                    es,
                    "fields"@,
                    JsonView::Array(fields.map_values(|f: JsonView| mask_field(f, api_key))),
                ),
            ),
            other => other,
        },
        _ => v,
    }
}

/// A stored indexer as shown: its payload with `id` set and the API key
/// masked in its fields.
pub open spec fn shown_indexer(payload: JsonView, id: i64, api_key: Option<Seq<char>>) -> JsonView {
    let with_id = match payload {
        JsonView::Object(es) => JsonView::Object(
            vinsert(es, "id"@, JsonView::Number(crate::numbers::decimal(id as int), Some(id))),
        ),
        other => other,
    };
    masked_fields_view(with_id, api_key)
}

pub open spec fn opt_str_view(a: Option<&str>) -> Option<Seq<char>> {
    match a {
        Some(v) => Some(v@),
        None => None,
    }
}

fn masked_key(api_key: Option<&str>) -> (r: JsonValue)
    ensures
        jview(r) == masked_key_view(opt_str_view(api_key)),
{
    proof {
        reveal_strlit("********");
    }
    match api_key {
        Some(k) => {
            if chars_of(k).len() == 0 {
                JsonValue::Null
            } else {
                crate::json::text("********")
            }
        },
        None => JsonValue::Null,
    }
}

/// One field with its value masked if it is the `apiKey` field.
fn mask_one(f: JsonValue, api_key: Option<&str>) -> (r: JsonValue)
    ensures
        jview(r) == mask_field(jview(f), opt_str_view(api_key)),
{
    proof {
        reveal_strlit("apiKey");
        crate::json::lemma_get_view(f, "name"@);
    }
    let is_key = match f.member_str("name") {
        Some(n) => crate::text::str_eq(n, "apiKey"),
        None => false,
    };
    let mut f = f;
    if is_key && matches!(f, JsonValue::Object(_)) {
        object_insert(&mut f, "value", masked_key(api_key));
    }
    f
}

/// Masks the API key in the payload's fields: the value of each `apiKey`
/// field becomes `********`, or `null` when no key is stored.
pub fn mask_indexer_secret_fields(payload: &mut JsonValue, api_key: Option<&str>)
    ensures
        jview(*final(payload)) == masked_fields_view(jview(*old(payload)), opt_str_view(api_key)),
{
    proof {
        crate::json::lemma_get_view(*payload, "fields"@);
    }
    match payload {
        JsonValue::Object(entries) => {
            let ghost start = entries@;
            let mut k: usize = 0;
            let mut found = false;
            while k < entries.len()
                invariant_except_break
                    !found,
                invariant
                    k <= entries.len(),
                    entries@ == start,
                    forall|j: int| 0 <= j < k ==> #[trigger] start[j].0@ != "fields"@,
                ensures
                    found ==> k < start.len() && start[k as int].0@ == "fields"@,
                    !found ==> forall|j: int| 0 <= j < start.len() ==> #[trigger] start[j].0@ != "fields"@,
                decreases entries.len() - k,
            {
                if crate::text::str_eq(entries[k].0.as_str(), "fields") {
                    found = true;
                    break;
                }
                k = k + 1;
            }
            if !found {
                proof {
                    crate::json::lemma_key_index_none(start, "fields"@);
                }
                return;
            }
            proof {
                crate::json::lemma_key_index_from_prefix(start, "fields"@, k as int);
                crate::json::lemma_key_index_view(start, "fields"@);
                crate::json::lemma_jview_entries_index(start);
            }
            let (name, value) = entries.remove(k);
            match value {
                JsonValue::Array(items) => {
                    let ghost orig = items@;
                    let mut items = items;
                    let mut out: Vec<JsonValue> = Vec::new();
                    while items.len() > 0
                        invariant
                            out@.len() + items@.len() == orig.len(),
                            items@ == orig.skip(out@.len() as int),
                            forall|j: int|
                                0 <= j < out@.len() ==> #[trigger] jview(out@[j]) == mask_field(
                                    jview(orig[j]),
                                    opt_str_view(api_key),
                                ),
                        decreases items.len(),
                    {
                        let ghost n = out@.len();
                        assert(items@[0] == orig[n as int]);
                        let f = items.remove(0);
                        out.push(mask_one(f, api_key));
                        assert(items@ =~= orig.skip(out@.len() as int));
                    }
                    proof {
                        crate::json::lemma_jview_items_index(orig);
                        crate::json::lemma_jview_items_index(out@);
                        assert(jview_items(out@) =~= jview_items(orig).map_values(
                            |f: JsonView| mask_field(f, opt_str_view(api_key)),
                        ));
                    }
                    entries.insert(k, (name, JsonValue::Array(out)));
                    proof {
                        assert(entries@ =~= start.update(k as int, (start[k as int].0, JsonValue::Array(out))));
                        crate::json::lemma_jview_entries_update(start, k as int, (start[k as int].0, JsonValue::Array(out)));
                    }
                },
                other => {
                    entries.insert(k, (name, other));
                    assert(entries@ =~= start);
                },
            }
        },
        _ => {},
    }
}

/// Masking a field that is already masked changes nothing.
pub proof fn lemma_mask_field_idempotent(f: JsonView, api_key: Option<Seq<char>>)
    ensures
        mask_field(mask_field(f, api_key), api_key) == mask_field(f, api_key),
{
    reveal_strlit("name");
    reveal_strlit("value");
    if let JsonView::Object(es) = f {
        if vget(f, "name"@) == Some(JsonView::Str("apiKey"@)) {
            let m = masked_key_view(api_key);
            assert("value"@[0] != "name"@[0]);
            lemma_vinsert_vget(es, "value"@, m, "name"@);
            lemma_vinsert_twice(es, "value"@, m, m);
        }
    }
}

/// Masking the API key of a payload twice gives what masking it once gives:
/// an indexer shown again stays as it was shown.
pub proof fn lemma_masking_idempotent(v: JsonView, api_key: Option<Seq<char>>)
    ensures
        masked_fields_view(masked_fields_view(v, api_key), api_key) == masked_fields_view(
            v,
            api_key,
        ),
{
    if let Some(JsonView::Array(fields)) = vget(v, "fields"@) {
        if let JsonView::Object(es) = v {
            let once = fields.map_values(|f: JsonView| mask_field(f, api_key));
            let twice = once.map_values(|f: JsonView| mask_field(f, api_key));
            assert forall|i: int| 0 <= i < once.len() implies #[trigger] twice[i] == once[i] by {
                lemma_mask_field_idempotent(fields[i], api_key);
            }
            assert(twice =~= once);
            lemma_vinsert_vget(es, "fields"@, JsonView::Array(once), "fields"@);
            lemma_vinsert_twice(es, "fields"@, JsonView::Array(once), JsonView::Array(once));
        }
    }
}

/// A stored indexer as shown to Prowlarr: the stored payload with its `id`
/// and the API key masked.
pub fn indexer_resource(payload: JsonValue, id: i64, api_key: Option<&str>) -> (r: JsonValue)
    ensures
        jview(r) == shown_indexer(jview(payload), id, opt_str_view(api_key)),
{
    let mut payload = payload;
    object_insert(&mut payload, "id", crate::json::integer(id));
    mask_indexer_secret_fields(&mut payload, api_key);
    payload
}

} // verus!

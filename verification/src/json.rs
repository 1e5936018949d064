//! A JSON document as plain data.
//!
//! Indexer payloads, search results and event payloads are JSON; the library
//! reads and builds them as `JsonValue`s.
use vstd::prelude::*;

use crate::numbers::{decimal, i64_to_string};
use crate::text::{copy_str, str_eq};

verus! {

/// A JSON number: its text, and its value when it is an integer that fits
/// an `i64`.
#[derive(Clone, Debug)]
pub struct JsonNumber {
    pub repr: String,
    pub int: Option<i64>,
}

#[derive(Debug)]
pub enum JsonValue {
    Null,
    Bool(bool),
    Number(JsonNumber),
    Str(String),
    Array(Vec<JsonValue>),
    Object(Vec<(String, JsonValue)>),
}

/// A JSON value as plain data.
pub enum JsonView {
    Null,
    Bool(bool),
    Number(Seq<char>, Option<i64>),
    Str(Seq<char>),
    Array(Seq<JsonView>),
    Object(Seq<(Seq<char>, JsonView)>),
}

pub open spec fn jview(v: JsonValue) -> JsonView
    decreases v, 0nat,
{
    match v {
        JsonValue::Null => JsonView::Null,
        JsonValue::Bool(b) => JsonView::Bool(b),
        JsonValue::Number(n) => JsonView::Number(n.repr@, n.int),
        JsonValue::Str(s) => JsonView::Str(s@),
        JsonValue::Array(items) => JsonView::Array(jview_items(items@)),
        JsonValue::Object(entries) => JsonView::Object(jview_entries(entries@)),
    }
}

pub open spec fn jview_items(items: Seq<JsonValue>) -> Seq<JsonView>
    decreases items, 1nat,
{
    if items.len() == 0 {
        Seq::empty()
    } else {
        jview_items(items.drop_last()).push(jview(items.last()))
    }
}

pub open spec fn jview_entries(entries: Seq<(String, JsonValue)>) -> Seq<(Seq<char>, JsonView)>
    decreases entries, 1nat,
{
    if entries.len() == 0 {
        Seq::empty()
    } else {
        jview_entries(entries.drop_last()).push((entries.last().0@, jview(entries.last().1)))
    }
}

impl View for JsonValue {
    type V = JsonView;

    open spec fn view(&self) -> JsonView {
        jview(*self)
    }
}

// ---------------------------------------------------------------------------
// Reading
// ---------------------------------------------------------------------------

/// Index of the first entry named `key`.
pub open spec fn key_index(entries: Seq<(String, JsonValue)>, key: Seq<char>) -> Option<int>
    decreases entries.len(),
{
    if entries.len() == 0 {
        None
    } else {
        match key_index(entries.drop_last(), key) {
            Some(i) => Some(i),
            None => if entries.last().0@ == key {
                Some(entries.len() - 1)
            } else {
                None
            },
        }
    }
}

/// The value of the first entry named `key`.
pub open spec fn entries_get(entries: Seq<(String, JsonValue)>, key: Seq<char>) -> Option<
    JsonValue,
> {
    match key_index(entries, key) {
        Some(i) => Some(entries[i].1),
        None => None,
    }
}

/// Index of the first member named `key` among plain entries.
pub open spec fn vkey_index(entries: Seq<(Seq<char>, JsonView)>, key: Seq<char>) -> Option<int>
    decreases entries.len(),
{
    if entries.len() == 0 {
        None
    } else {
        match vkey_index(entries.drop_last(), key) {
            Some(i) => Some(i),
            None => if entries.last().0 == key {
                Some(entries.len() - 1)
            } else {
                None
            },
        }
    }
}

/// The member `key` of an object, on plain values.
pub open spec fn vget(v: JsonView, key: Seq<char>) -> Option<JsonView> {
    match v {
        JsonView::Object(entries) => match vkey_index(entries, key) {
            Some(i) => Some(entries[i].1),
            None => None,
        },
        _ => None,
    }
}

/// `entries` with the member `key` set to `value`: the first entry of that
/// name gets the value, or a new entry is appended.
pub open spec fn vinsert(entries: Seq<(Seq<char>, JsonView)>, key: Seq<char>, value: JsonView) -> Seq<
    (Seq<char>, JsonView),
> {
    match vkey_index(entries, key) {
        Some(i) => entries.update(i, (entries[i].0, value)),
        None => entries.push((key, value)),
    }
}

pub proof fn lemma_key_index_bounds(entries: Seq<(String, JsonValue)>, key: Seq<char>)
    ensures
        key_index(entries, key) matches Some(i) ==> 0 <= i < entries.len() && entries[i].0@ == key
            && forall|j: int| 0 <= j < i ==> #[trigger] entries[j].0@ != key,
        key_index(entries, key) is None ==> forall|j: int|
            0 <= j < entries.len() ==> #[trigger] entries[j].0@ != key,
    decreases entries.len(),
{
    if entries.len() > 0 {
        lemma_key_index_bounds(entries.drop_last(), key);
        assert forall|j: int| 0 <= j < entries.len() - 1 implies entries.drop_last()[j]
            == entries[j] by {}
    }
}

/// The first index is determined by the entries before it.
pub proof fn lemma_key_index_from_prefix(entries: Seq<(String, JsonValue)>, key: Seq<char>, i: int)
    requires
        0 <= i < entries.len(),
        entries[i].0@ == key,
        forall|j: int| 0 <= j < i ==> #[trigger] entries[j].0@ != key,
    ensures
        key_index(entries, key) == Some(i),
    decreases entries.len(),
{
    if i < entries.len() - 1 {
        lemma_key_index_from_prefix(entries.drop_last(), key, i);
    } else {
        lemma_key_index_bounds(entries.drop_last(), key);
        if key_index(entries.drop_last(), key) is Some {
            let k = key_index(entries.drop_last(), key).unwrap();
            assert(entries.drop_last()[k] == entries[k]);
        }
    }
}

pub proof fn lemma_key_index_none(entries: Seq<(String, JsonValue)>, key: Seq<char>)
    requires
        forall|j: int| 0 <= j < entries.len() ==> #[trigger] entries[j].0@ != key,
    ensures
        key_index(entries, key) is None,
    decreases entries.len(),
{
    if entries.len() > 0 {
        assert forall|j: int| 0 <= j < entries.drop_last().len() implies #[trigger] entries.drop_last()[j].0@
            != key by {
            assert(entries.drop_last()[j] == entries[j]);
        }
        lemma_key_index_none(entries.drop_last(), key);
        assert(entries[entries.len() - 1].0@ != key);
    }
}

/// Viewing entries keeps their number and order.
pub proof fn lemma_jview_entries_index(entries: Seq<(String, JsonValue)>)
    ensures
        jview_entries(entries).len() == entries.len(),
        forall|j: int|
            0 <= j < entries.len() ==> #[trigger] jview_entries(entries)[j] == (
                entries[j].0@,
                jview(entries[j].1),
            ),
    decreases entries.len(),
{
    if entries.len() > 0 {
        lemma_jview_entries_index(entries.drop_last());
        assert forall|j: int| 0 <= j < entries.len() implies #[trigger] jview_entries(entries)[j]
            == (entries[j].0@, jview(entries[j].1)) by {
            if j < entries.len() - 1 {
                assert(entries.drop_last()[j] == entries[j]);
            }
        }
    }
}

pub proof fn lemma_jview_items_index(items: Seq<JsonValue>)
    ensures
        jview_items(items).len() == items.len(),
        forall|j: int| 0 <= j < items.len() ==> #[trigger] jview_items(items)[j] == jview(items[j]),
    decreases items.len(),
{
    if items.len() > 0 {
        lemma_jview_items_index(items.drop_last());
        assert forall|j: int| 0 <= j < items.len() implies #[trigger] jview_items(items)[j] == jview(
            items[j],
        ) by {
            if j < items.len() - 1 {
                assert(items.drop_last()[j] == items[j]);
            }
        }
    }
}

/// Lookups agree on values and on their plain views.
pub proof fn lemma_key_index_view(entries: Seq<(String, JsonValue)>, key: Seq<char>)
    ensures
        vkey_index(jview_entries(entries), key) == key_index(entries, key),
    decreases entries.len(),
{
    if entries.len() > 0 {
        lemma_key_index_view(entries.drop_last(), key);
        lemma_jview_entries_index(entries);
        let je = jview_entries(entries);
        assert(je == jview_entries(entries.drop_last()).push(
            (entries.last().0@, jview(entries.last().1)),
        ));
        assert(je.drop_last() =~= jview_entries(entries.drop_last()));
        assert(je.last().0 == entries.last().0@);
    }
}

/// Reading a member commutes with taking plain views.
pub proof fn lemma_get_view(v: JsonValue, key: Seq<char>)
    ensures
        vget(jview(v), key) == match json_get(v, key) {
            Some(m) => Some(jview(m)),
            None => None,
        },
{
    match v {
        JsonValue::Object(entries) => {
            lemma_key_index_view(entries@, key);
            lemma_jview_entries_index(entries@);
            lemma_key_index_bounds(entries@, key);
        },
        _ => {},
    }
}

/// `Value::get(key)`: the member `key` of an object; nothing for other values.
pub open spec fn json_get(v: JsonValue, key: Seq<char>) -> Option<JsonValue> {
    match v {
        JsonValue::Object(entries) => entries_get(entries@, key),
        _ => None,
    }
}

/// `Value::as_str`.
pub open spec fn json_str(v: JsonValue) -> Option<Seq<char>> {
    match v {
        JsonValue::Str(s) => Some(s@),
        _ => None,
    }
}

/// `Value::as_bool`.
pub open spec fn json_bool(v: JsonValue) -> Option<bool> {
    match v {
        JsonValue::Bool(b) => Some(b),
        _ => None,
    }
}

/// `Value::as_i64`.
pub open spec fn json_i64(v: JsonValue) -> Option<i64> {
    match v {
        JsonValue::Number(n) => n.int,
        _ => None,
    }
}

/// `Value::as_array`.
pub open spec fn json_array(v: JsonValue) -> Option<Seq<JsonValue>> {
    match v {
        JsonValue::Array(items) => Some(items@),
        _ => None,
    }
}

/// The member `key` of `v` read as text.
pub open spec fn member_str(v: JsonValue, key: Seq<char>) -> Option<Seq<char>> {
    match json_get(v, key) {
        Some(m) => json_str(m),
        None => None,
    }
}

/// The member `key` of `v` read as a boolean.
pub open spec fn member_bool(v: JsonValue, key: Seq<char>) -> Option<bool> {
    match json_get(v, key) {
        Some(m) => json_bool(m),
        None => None,
    }
}

/// The member `key` of `v` read as an integer.
pub open spec fn member_i64(v: JsonValue, key: Seq<char>) -> Option<i64> {
    match json_get(v, key) {
        Some(m) => json_i64(m),
        None => None,
    }
}

/// The member `key` of `v` read as an array.
pub open spec fn member_array(v: JsonValue, key: Seq<char>) -> Option<Seq<JsonValue>> {
    match json_get(v, key) {
        Some(m) => json_array(m),
        None => None,
    }
}

impl JsonNumber {
    /// The number `n`.
    pub fn from_i64(n: i64) -> (r: Self)
        ensures
            r.repr@ == decimal(n as int),
            r.int == Some(n),
    {
        JsonNumber { repr: i64_to_string(n), int: Some(n) }
    }
}

impl JsonValue {
    /// `Value::get`: the member named `key` of an object.
    pub fn get(&self, key: &str) -> (r: Option<&JsonValue>)
        ensures
            match r {
                Some(m) => json_get(*self, key@) == Some(*m),
                None => json_get(*self, key@) is None,
            },
    {
        match self {
            JsonValue::Object(entries) => {
                let mut i: usize = 0;
                while i < entries.len()
                    invariant
                        i <= entries.len(),
                        json_get(*self, key@) == entries_get(entries@, key@),
                        forall|j: int| 0 <= j < i ==> #[trigger] entries@[j].0@ != key@,
                    decreases entries.len() - i,
                {
                    if str_eq(entries[i].0.as_str(), key) {
                        proof {
                            lemma_key_index_from_prefix(entries@, key@, i as int);
                        }
                        return Some(&entries[i].1);
                    }
                    i = i + 1;
                }
                proof {
                    lemma_key_index_none(entries@, key@);
                }
                None
            },
            _ => None,
        }
    }

    /// `Value::as_str`.
    pub fn as_str(&self) -> (r: Option<&str>)
        ensures
            match r {
                Some(s) => json_str(*self) == Some(s@),
                None => json_str(*self) is None,
            },
    {
        match self {
            JsonValue::Str(s) => Some(s.as_str()),
            _ => None,
        }
    }

    /// `Value::as_bool`.
    pub fn as_bool(&self) -> (r: Option<bool>)
        ensures
            r == json_bool(*self),
    {
        match self {
            JsonValue::Bool(b) => Some(*b),
            _ => None,
        }
    }

    /// `Value::as_i64`.
    pub fn as_i64(&self) -> (r: Option<i64>)
        ensures
            r == json_i64(*self),
    {
        match self {
            JsonValue::Number(n) => n.int,
            _ => None,
        }
    }

    /// `Value::as_array`.
    pub fn as_array(&self) -> (r: Option<&Vec<JsonValue>>)
        ensures
            match r {
                Some(items) => json_array(*self) == Some(items@),
                None => json_array(*self) is None,
            },
    {
        match self {
            JsonValue::Array(items) => Some(items),
            _ => None,
        }
    }

    /// The member `key` read as text.
    pub fn member_str(&self, key: &str) -> (r: Option<&str>)
        ensures
            match r {
                Some(s) => member_str(*self, key@) == Some(s@),
                None => member_str(*self, key@) is None,
            },
    {
        match self.get(key) {
            Some(m) => m.as_str(),
            None => None,
        }
    }

    /// The member `key` read as a boolean.
    pub fn member_bool(&self, key: &str) -> (r: Option<bool>)
        ensures
            r == member_bool(*self, key@),
    {
        match self.get(key) {
            Some(m) => m.as_bool(),
            None => None,
        }
    }

    /// The member `key` read as an integer.
    pub fn member_i64(&self, key: &str) -> (r: Option<i64>)
        ensures
            r == member_i64(*self, key@),
    {
        match self.get(key) {
            Some(m) => m.as_i64(),
            None => None,
        }
    }

    /// The member `key` read as an array.
    pub fn member_array(&self, key: &str) -> (r: Option<&Vec<JsonValue>>)
        ensures
            match r {
                Some(items) => member_array(*self, key@) == Some(items@),
                None => member_array(*self, key@) is None,
            },
    {
        match self.get(key) {
            Some(m) => m.as_array(),
            None => None,
        }
    }
}

// ---------------------------------------------------------------------------
// Building
// ---------------------------------------------------------------------------

/// `entries` with the member `key` set to `value`: the first entry of that
/// name gets the value, or a new entry is appended.
pub open spec fn entries_insert(entries: Seq<(String, JsonValue)>, key: String, value: JsonValue) -> Seq<
    (String, JsonValue),
> {
    match key_index(entries, key@) {
        Some(i) => entries.update(i, (entries[i].0, value)),
        None => entries.push((key, value)),
    }
}

pub proof fn lemma_jview_entries_update(entries: Seq<(String, JsonValue)>, i: int, e: (String, JsonValue))
    requires
        0 <= i < entries.len(),
    ensures
        jview_entries(entries.update(i, e)) == jview_entries(entries).update(i, (e.0@, jview(e.1))),
{
    lemma_jview_entries_index(entries);
    lemma_jview_entries_index(entries.update(i, e));
    assert(jview_entries(entries.update(i, e)) =~= jview_entries(entries).update(
        i,
        (e.0@, jview(e.1)),
    ));
}

pub proof fn lemma_jview_entries_push(entries: Seq<(String, JsonValue)>, e: (String, JsonValue))
    ensures
        jview_entries(entries.push(e)) == jview_entries(entries).push((e.0@, jview(e.1))),
{
    assert(entries.push(e).drop_last() =~= entries);
}

/// Inserting a member and then taking views is inserting into the views.
pub proof fn lemma_entries_insert_view(entries: Seq<(String, JsonValue)>, key: String, value: JsonValue)
    ensures
        jview_entries(entries_insert(entries, key, value)) == vinsert(
            jview_entries(entries),
            key@,
            jview(value),
        ),
{
    lemma_key_index_view(entries, key@);
    lemma_key_index_bounds(entries, key@);
    lemma_jview_entries_index(entries);
    match key_index(entries, key@) {
        Some(i) => {
            lemma_jview_entries_update(entries, i, (entries[i].0, value));
        },
        None => {
            lemma_jview_entries_push(entries, (key, value));
        },
    }
}

/// Sets the member `key` of the entries of an object.
pub fn insert_entry(entries: &mut Vec<(String, JsonValue)>, key: String, value: JsonValue)
    ensures
        final(entries)@ == entries_insert(old(entries)@, key, value),
{
    let ghost start = entries@;
    let mut found: Option<usize> = None;
    let mut i: usize = 0;
    while i < entries.len()
        invariant_except_break
            found is None,
        invariant
            i <= entries.len(),
            entries@ == start,
            forall|j: int| 0 <= j < i ==> #[trigger] start[j].0@ != key@,
        ensures
            match found {
                Some(k) => k < start.len() && start[k as int].0@ == key@ && forall|j: int|
                    0 <= j < k ==> #[trigger] start[j].0@ != key@,
                None => forall|j: int| 0 <= j < start.len() ==> #[trigger] start[j].0@ != key@,
            },
        decreases entries.len() - i,
    {
        if str_eq(entries[i].0.as_str(), key.as_str()) {
            found = Some(i);
            break;
        }
        i = i + 1;
    }
    match found {
        Some(k) => {
            proof {
                lemma_key_index_from_prefix(start, key@, k as int);
            }
            let (name, _) = entries.remove(k);
            entries.insert(k, (name, value));
            assert(entries@ =~= start.update(k as int, (start[k as int].0, value)));
        },
        None => {
            proof {
                lemma_key_index_none(start, key@);
            }
            entries.push((key, value));
        },
    }
}

proof fn lemma_vkey_index_same_keys(a: Seq<(Seq<char>, JsonView)>, b: Seq<(Seq<char>, JsonView)>, key: Seq<char>)
    requires
        a.len() == b.len(),
        forall|j: int| 0 <= j < a.len() ==> #[trigger] a[j].0 == b[j].0,
    ensures
        vkey_index(a, key) == vkey_index(b, key),
    decreases a.len(),
{
    if a.len() > 0 {
        assert forall|j: int| 0 <= j < a.drop_last().len() implies #[trigger] a.drop_last()[j].0
            == b.drop_last()[j].0 by {
            assert(a.drop_last()[j] == a[j] && b.drop_last()[j] == b[j]);
        }
        lemma_vkey_index_same_keys(a.drop_last(), b.drop_last(), key);
        assert(a.last().0 == b.last().0);
    }
}

proof fn lemma_vkey_index_bounds(entries: Seq<(Seq<char>, JsonView)>, key: Seq<char>)
    ensures
        vkey_index(entries, key) matches Some(i) ==> 0 <= i < entries.len() && entries[i].0 == key,
    decreases entries.len(),
{
    if entries.len() > 0 {
        lemma_vkey_index_bounds(entries.drop_last(), key);
        if vkey_index(entries.drop_last(), key) is Some {
            let i = vkey_index(entries.drop_last(), key).unwrap();
            assert(entries.drop_last()[i] == entries[i]);
        }
    }
}

/// After a member is set, reading it gives the new value, and every other
/// member reads as before.
pub proof fn lemma_vinsert_vget(
    entries: Seq<(Seq<char>, JsonView)>,
    key: Seq<char>,
    value: JsonView,
    other: Seq<char>,
)
    ensures
        vget(JsonView::Object(vinsert(entries, key, value)), other) == if other == key {
            Some(value)
        } else {
            vget(JsonView::Object(entries), other)
        },
{
    lemma_vkey_index_bounds(entries, key);
    lemma_vkey_index_bounds(entries, other);
    match vkey_index(entries, key) {
        Some(i) => {
            let n = entries.update(i, (entries[i].0, value));
            lemma_vkey_index_same_keys(n, entries, other);
        },
        None => {
            let n = entries.push((key, value));
            assert(n.drop_last() =~= entries);
            if let Some(j) = vkey_index(entries, other) {
                assert(n[j] == entries[j]);
            }
        },
    }
}

/// Setting a member twice leaves what the second setting gives.
pub proof fn lemma_vinsert_twice(
    entries: Seq<(Seq<char>, JsonView)>,
    key: Seq<char>,
    first: JsonView,
    second: JsonView,
)
    ensures
        vinsert(vinsert(entries, key, first), key, second) == vinsert(entries, key, second),
{
    lemma_vkey_index_bounds(entries, key);
    match vkey_index(entries, key) {
        Some(i) => {
            let n = entries.update(i, (entries[i].0, first));
            lemma_vkey_index_same_keys(n, entries, key);
            assert(n.update(i, (n[i].0, second)) =~= entries.update(i, (entries[i].0, second)));
        },
        None => {
            let n = entries.push((key, first));
            assert(n.drop_last() =~= entries);
            assert(vkey_index(n, key) == Some(entries.len() as int));
            assert(n.update(entries.len() as int, (n[entries.len() as int].0, second))
                =~= entries.push((key, second)));
        },
    }
}

/// `as_object_mut` then `insert`: sets a member of an object; other values
/// are left as they are.
pub fn object_insert(v: &mut JsonValue, key: &str, value: JsonValue)
    ensures
        jview(*final(v)) == match jview(*old(v)) {
            JsonView::Object(es) => JsonView::Object(vinsert(es, key@, jview(value))),
            other => other,
        },
{
    let k = copy_str(key);
    match v {
        JsonValue::Object(entries) => {
            let ghost before = entries@;
            insert_entry(entries, k, value);
            proof {
                lemma_entries_insert_view(before, k, value);
            }
        },
        _ => {},
    }
}

/// A text value.
pub fn text(s: &str) -> (r: JsonValue)
    ensures
        r matches JsonValue::Str(t) && t@ == s@,
        r@ == JsonView::Str(s@),
{
    JsonValue::Str(copy_str(s))
}

/// An optional text value: `null` when absent.
pub fn opt_text(s: &Option<String>) -> (r: JsonValue)
    ensures
        match s {
            Some(v) => r matches JsonValue::Str(t) && t@ == v@,
            None => r is Null,
        },
        r@ == match s {
            Some(v) => JsonView::Str(v@),
            None => JsonView::Null,
        },
{
    match s {
        Some(v) => JsonValue::Str(copy_str(v.as_str())),
        None => JsonValue::Null,
    }
}

/// An integer value.
pub fn integer(n: i64) -> (r: JsonValue)
    ensures
        r matches JsonValue::Number(num) && num.int == Some(n) && num.repr@ == decimal(n as int),
        r@ == JsonView::Number(decimal(n as int), Some(n)),
{
    JsonValue::Number(JsonNumber::from_i64(n))
}

/// An entry of an object.
pub fn entry(key: &str, value: JsonValue) -> (r: (String, JsonValue))
    ensures
        r.0@ == key@,
        r.1 == value,
{
    (copy_str(key), value)
}

/// Appends a member to the entries of an object being built.
pub fn push_entry(entries: &mut Vec<(String, JsonValue)>, key: &str, value: JsonValue)
    ensures
        final(entries)@ == old(entries)@.push((final(entries)@.last().0, value)),
        final(entries)@.last().0@ == key@,
        jview_entries(final(entries)@) == jview_entries(old(entries)@).push((key@, value@)),
{
    let ghost before = entries@;
    entries.push((copy_str(key), value));
    assert(entries@.drop_last() =~= before);
}

/// Appends an item to the items of an array being built.
pub fn push_item(items: &mut Vec<JsonValue>, value: JsonValue)
    ensures
        final(items)@ == old(items)@.push(value),
        jview_items(final(items)@) == jview_items(old(items)@).push(value@),
{
    let ghost before = items@;
    items.push(value);
    assert(items@.drop_last() =~= before);
}

/// A boolean value.
pub fn boolean(b: bool) -> (r: JsonValue)
    ensures
        r@ == JsonView::Bool(b),
{
    JsonValue::Bool(b)
}

/// A number written as `repr` (such as `1.0`), not an integer.
pub fn decimal_number(repr: &str) -> (r: JsonValue)
    ensures
        r@ == JsonView::Number(repr@, None),
{
    JsonValue::Number(JsonNumber { repr: copy_str(repr), int: None })
}

// ---------------------------------------------------------------------------
// Text
// ---------------------------------------------------------------------------

#[verifier::external_type_specification]
#[verifier::external_body]
pub struct ExJsonDocument(serde_json::Value);

/// The text `serde_json` writes for a value (`Value::to_string`): compact,
/// with the members of an object in the order of `serde_json`'s map (a later
/// member of the same name replacing an earlier one), and a number written
/// as `serde_json` writes the number its text stands for.
pub uninterp spec fn serde_json_text(v: JsonView) -> Seq<char>;

/// The value as a `serde_json::Value`, part for part (integers as integers,
/// other numbers from their text).
#[verifier::external_body]
fn serde_document(v: &JsonValue) -> serde_json::Value {
    match v {
        JsonValue::Null => serde_json::Value::Null,
        JsonValue::Bool(b) => serde_json::Value::Bool(*b),
        JsonValue::Number(n) => match n.int {
            Some(i) => serde_json::Value::from(i),
            None => serde_json::from_str(&n.repr).unwrap_or(serde_json::Value::Null),
        },
        JsonValue::Str(s) => serde_json::Value::String(s.clone()),
        JsonValue::Array(items) => serde_json::Value::Array(items.iter().map(serde_document).collect()),
        JsonValue::Object(es) => serde_json::Value::Object(es.iter().map(|(k, m)| (k.clone(), serde_document(m))).collect()),
    }
}

/// `serde_json::Value::to_string` of the value; the text is named by
/// `serde_json_text`.
#[verifier::external_body]
pub(crate) fn to_json_text(v: &JsonValue) -> (r: String)
    ensures
        r@ == serde_json_text(v@),
{
    serde_document(v).to_string()
}

} // verus!

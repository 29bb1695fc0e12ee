//! JSON values, held as `serde_json::Value` and read through their shape.
//!
//! A value is opaque to the verifier. What the library reads of one is its
//! shape (`json_node`): the variant, and for strings, arrays and objects the
//! contents. Values are built with the constructors below, each a single call
//! into `serde_json`, and their results are named.
use vstd::prelude::*;

verus! {

#[verifier::external_type_specification]
#[verifier::external_body]
pub struct ExJsonValue(serde_json::Value);

pub type Json = serde_json::Value;

/// The shape of a JSON value: its variant and immediate contents.
pub ghost enum JsonNode {
    Null,
    Bool(bool),
    Number,
    Str(Seq<char>),
    Array(Seq<Json>),
    Object(Seq<(Seq<char>, Json)>),
}

/// The executable counterpart of `JsonNode`.
pub enum JsonShape {
    Null,
    Bool(bool),
    Number,
    Str(String),
    Array(Vec<Json>),
    Object(Vec<(String, Json)>),
}

pub open spec fn entries_view(es: Seq<(String, Json)>) -> Seq<(Seq<char>, Json)> {
    es.map_values(|e: (String, Json)| (e.0@, e.1))
}

impl View for JsonShape {
    type V = JsonNode;

    open spec fn view(&self) -> JsonNode {
        match self {
            JsonShape::Null => JsonNode::Null,
            JsonShape::Bool(b) => JsonNode::Bool(*b),
            JsonShape::Number => JsonNode::Number,
            JsonShape::Str(s) => JsonNode::Str(s@),
            JsonShape::Array(a) => JsonNode::Array(a@),
            JsonShape::Object(es) => JsonNode::Object(entries_view(es@)),
        }
    }
}

/// `a` sorts before `b` as Rust orders strings: byte by byte, which for
/// UTF-8 is character code by character code, a prefix first.
pub open spec fn key_lt(a: Seq<char>, b: Seq<char>) -> bool
    decreases a.len(),
{
    if a.len() == 0 {
        b.len() > 0
    } else if b.len() == 0 {
        false
    } else if a[0] == b[0] {
        key_lt(a.drop_first(), b.drop_first())
    } else {
        (a[0] as u32) < (b[0] as u32)
    }
}

/// The keys strictly ascend, as those of a `serde_json::Map` (a `BTreeMap`)
/// do when it is walked.
pub open spec fn keys_ascending(es: Seq<(Seq<char>, Json)>) -> bool {
    forall|i: int, j: int| 0 <= i < j < es.len() ==> key_lt(#[trigger] es[i].0, #[trigger] es[j].0)
}

// ── Names for what serde_json computes ───────────────────────────────────────

/// The number of nodes of a JSON value's tree.
pub uninterp spec fn json_size(v: Json) -> nat;

/// The shape of a JSON value, as `match` on `serde_json::Value` sees it.
pub uninterp spec fn json_node(v: Json) -> JsonNode;

/// What `serde_json::from_str::<Value>` gives for a text (`None` on error).
pub uninterp spec fn json_parsed(text: Seq<char>) -> Option<Json>;

/// The compact text `serde_json` writes for a value (`Value::to_string`).
pub uninterp spec fn json_text(v: Json) -> Seq<char>;

/// `Value::String(s)`.
pub uninterp spec fn json_string_value(s: Seq<char>) -> Json;

/// `Value::Array(items)`.
pub uninterp spec fn json_array_value(items: Seq<Json>) -> Json;

/// `Value::Object` collected from the given entries (a later duplicate key
/// replaces an earlier one).
pub uninterp spec fn json_object_value(entries: Seq<(Seq<char>, Json)>) -> Json;

/// `Value::from(n)` for a 64-bit integer.
pub uninterp spec fn json_int_value(n: i64) -> Json;

/// `Value::Bool(b)`.
pub uninterp spec fn json_bool_value(b: bool) -> Json;

/// What `Number::from_f64` makes of the double-precision float a text
/// denotes: `None` when `str::parse` does not accept the text as a float,
/// `Some(None)` when the float is not finite.
pub uninterp spec fn json_float_value(text: Seq<char>) -> Option<Option<Json>>;

/// A character that a text `f64::from_str` accepts may hold: a digit, a
/// sign, the point, an exponent mark, or a letter of `inf`, `infinity` and
/// `nan` in either case.
pub open spec fn float_char(c: char) -> bool {
    ||| ('0' <= c <= '9')
    ||| c == '+' || c == '-' || c == '.' || c == 'e' || c == 'E'
    ||| c == 'i' || c == 'n' || c == 'f' || c == 't' || c == 'y' || c == 'a'
    ||| c == 'I' || c == 'N' || c == 'F' || c == 'T' || c == 'Y' || c == 'A'
}

// ── Trusted calls into serde_json ────────────────────────────────────────────

pub assume_specification[<serde_json::Value as Clone>::clone](v: &serde_json::Value) -> (r:
    serde_json::Value)
    ensures
        r == *v,
;

/// Reads the variant of a `serde_json::Value` and moves out its contents.
/// Children of an array or object are smaller trees than the value itself.
#[verifier::external_body]
pub(crate) fn json_shape(v: &Json) -> (r: JsonShape)
    ensures
        r@ == json_node(*v),
        r@ matches JsonNode::Array(items) ==> forall|i: int|
            0 <= i < items.len() ==> #[trigger] json_size(items[i]) < json_size(*v),
        r@ matches JsonNode::Object(es) ==> forall|i: int|
            0 <= i < es.len() ==> #[trigger] json_size(es[i].1) < json_size(*v),
        r@ matches JsonNode::Object(es) ==> keys_ascending(es),
{
    match v {
        serde_json::Value::Null => JsonShape::Null,
        serde_json::Value::Bool(b) => JsonShape::Bool(*b),
        serde_json::Value::Number(_) => JsonShape::Number,
        serde_json::Value::String(s) => JsonShape::Str(s.clone()),
        serde_json::Value::Array(a) => JsonShape::Array(a.clone()),
        serde_json::Value::Object(m) => JsonShape::Object(
            m.iter().map(|(k, x)| (k.clone(), x.clone())).collect(),
        ),
    }
}

/// `serde_json::from_str::<Value>`; the result is named `json_parsed`.
#[verifier::external_body]
pub(crate) fn parse_json(text: &str) -> (r: Option<Json>)
    ensures
        r == json_parsed(text@),
{
    serde_json::from_str::<serde_json::Value>(text).ok()
}

/// `Value::to_string` (compact JSON); the result is named `json_text`.
#[verifier::external_body]
pub(crate) fn json_to_text(v: &Json) -> (r: String)
    ensures
        r@ == json_text(*v),
{
    v.to_string()
}

/// `Value::String(s)`.
#[verifier::external_body]
pub(crate) fn json_string(s: String) -> (r: Json)
    ensures
        r == json_string_value(s@),
        json_node(r) == JsonNode::Str(s@),
{
    serde_json::Value::String(s)
}

/// `Value::Array(items)`.
#[verifier::external_body]
pub(crate) fn json_array(items: Vec<Json>) -> (r: Json)
    ensures
        r == json_array_value(items@),
        json_node(r) == JsonNode::Array(items@),
{
    serde_json::Value::Array(items)
}

/// `Value::Object` collected from `entries` into a `Map` (a `BTreeMap`): a
/// map walked in key order, so entries given in strictly ascending key order
/// come back as they were.
#[verifier::external_body]
pub(crate) fn json_object(entries: Vec<(String, Json)>) -> (r: Json)
    ensures
        r == json_object_value(entries_view(entries@)),
        json_node(r) is Object,
        keys_ascending(entries_view(entries@)) ==> json_node(r) == JsonNode::Object(
            entries_view(entries@),
        ),
{
    serde_json::Value::Object(entries.into_iter().collect())
}

/// `Value::from(n)`.
#[verifier::external_body]
pub(crate) fn json_int(n: i64) -> (r: Json)
    ensures
        r == json_int_value(n),
        json_node(r) == JsonNode::Number,
{
    serde_json::Value::from(n)
}

/// `Value::Bool(b)`.
#[verifier::external_body]
pub(crate) fn json_bool(b: bool) -> (r: Json)
    ensures
        r == json_bool_value(b),
        json_node(r) == JsonNode::Bool(b),
{
    serde_json::Value::Bool(b)
}

/// `str::parse` as a double-precision float followed by `Number::from_f64`, the outcome named
/// `json_float_value`. std's grammar for floats (digits, sign, point,
/// exponent, `inf`, `infinity`, `nan`, in any case) admits no text holding
/// another character.
#[verifier::external_body]
pub(crate) fn json_float(text: &str) -> (r: Option<Option<Json>>)
    ensures
        r == json_float_value(text@),
        r matches Some(Some(x)) ==> json_node(x) == JsonNode::Number,
        (exists|i: int| 0 <= i < text@.len() && !float_char(#[trigger] text@[i])) ==> r is None,
{
    text.parse().ok().map(serde_json::Number::from_f64).map(|n| n.map(serde_json::Value::Number))
}

// ── Reading values ───────────────────────────────────────────────────────────

/// The value stored under `key` among object entries (first match).
pub open spec fn lookup(es: Seq<(Seq<char>, Json)>, key: Seq<char>) -> Option<Json>
    decreases es.len(),
{
    if es.len() == 0 {
        None
    } else if es[0].0 == key {
        Some(es[0].1)
    } else {
        lookup(es.drop_first(), key)
    }
}

/// `Value::get(key)`: the field of an object, `None` for any other value.
pub open spec fn json_field(v: Json, key: Seq<char>) -> Option<Json> {
    match json_node(v) {
        JsonNode::Object(es) => lookup(es, key),
        _ => None,
    }
}

/// `Value::as_str`.
pub open spec fn json_str(v: Json) -> Option<Seq<char>> {
    match json_node(v) {
        JsonNode::Str(s) => Some(s),
        _ => None,
    }
}

/// `Value::as_array`.
pub open spec fn json_items(v: Json) -> Option<Seq<Json>> {
    match json_node(v) {
        JsonNode::Array(a) => Some(a),
        _ => None,
    }
}

pub open spec fn json_is_object(v: Json) -> bool {
    json_node(v) is Object
}

pub open spec fn json_is_string(v: Json) -> bool {
    json_node(v) is Str
}

/// The empty object `{}`.
pub open spec fn json_empty_object() -> Json {
    json_object_value(Seq::empty())
}

pub proof fn lemma_lookup_skip(es: Seq<(Seq<char>, Json)>, key: Seq<char>, i: int)
    requires
        0 <= i <= es.len(),
        forall|k: int| 0 <= k < i ==> (#[trigger] es[k]).0 != key,
    ensures
        lookup(es, key) == lookup(es.subrange(i, es.len() as int), key),
    decreases i,
{
    if i > 0 {
        assert(es.drop_first().subrange(i - 1, es.drop_first().len() as int) =~= es.subrange(
            i,
            es.len() as int,
        ));
        assert forall|k: int| 0 <= k < i - 1 implies (#[trigger] es.drop_first()[k]).0 != key by {
            assert(es.drop_first()[k] == es[k + 1]);
        }
        lemma_lookup_skip(es.drop_first(), key, i - 1);
    } else {
        assert(es.subrange(0, es.len() as int) =~= es);
    }
}

/// `Value::get(key).cloned()`.
pub fn json_get(v: &Json, key: &str) -> (r: Option<Json>)
    ensures
        r == json_field(*v, key@),
{
    match json_shape(v) {
        JsonShape::Object(es) => {
            let k = key.to_owned();
            let mut i: usize = 0;
            while i < es.len()
                invariant
                    i <= es.len(),
                    k@ == key@,
                    json_node(*v) == JsonNode::Object(entries_view(es@)),
                    forall|m: int| 0 <= m < i ==> (#[trigger] entries_view(es@)[m]).0 != key@,
                decreases es.len() - i,
            {
                if es[i].0 == k {
                    proof {
                        lemma_lookup_skip(entries_view(es@), key@, i as int);
                        let rest = entries_view(es@).subrange(i as int, es.len() as int);
                        assert(rest[0] == entries_view(es@)[i as int]);
                    }
                    return Some(es[i].1.clone());
                }
                i += 1;
            }
            proof {
                lemma_lookup_skip(entries_view(es@), key@, es.len() as int);
            }
            None
        },
        _ => None,
    }
}

/// `Value::as_str().map(str::to_owned)`.
pub fn json_as_str(v: &Json) -> (r: Option<String>)
    ensures
        r matches Some(s) ==> json_str(*v) == Some(s@),
        r is None ==> json_str(*v) is None,
{
    match json_shape(v) {
        JsonShape::Str(s) => Some(s),
        _ => None,
    }
}

/// `Value::as_array().cloned()`.
pub fn json_as_array(v: &Json) -> (r: Option<Vec<Json>>)
    ensures
        r matches Some(a) ==> json_items(*v) == Some(a@),
        r is None ==> json_items(*v) is None,
{
    match json_shape(v) {
        JsonShape::Array(a) => Some(a),
        _ => None,
    }
}

/// `Value::is_object`.
pub fn json_is_object_exec(v: &Json) -> (b: bool)
    ensures
        b == json_is_object(*v),
{
    match json_shape(v) {
        JsonShape::Object(_) => true,
        _ => false,
    }
}

/// `Value::Object(Map::new())`.
pub fn json_new_object() -> (r: Json)
    ensures
        r == json_empty_object(),
{
    let es: Vec<(String, Json)> = Vec::new();
    assert(entries_view(es@) =~= Seq::<(Seq<char>, Json)>::empty());
    json_object(es)
}

} // verus!

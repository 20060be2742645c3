//! JSON documents, as `serde_json` holds them.
//!
//! Contracts speak of a document through its mathematical view, [`JsonView`].
//! What `serde_json` itself does is not proved here: the items below that name
//! one of its functions state what that function is known to do.

use serde_json::Value;
use vstd::prelude::*;

use crate::text::str_view;

verus! {

/// What a JSON document says.
pub enum JsonView {
    Null,
    Bool(bool),
    /// An integer between `i64::MIN` and `u64::MAX`.
    Int(int),
    /// Any other number, by the bits of the 64-bit float that holds it.
    Real(u64),
    Text(Seq<char>),
    Array(Seq<JsonView>),
    Object(Map<Seq<char>, JsonView>),
}

/// The value at `key`, where the document is an object that has one.
pub open spec fn field(v: JsonView, key: Seq<char>) -> Option<JsonView> {
    match v {
        JsonView::Object(m) => if m.dom().contains(key) {
            Some(m[key])
        } else {
            None
        },
        _ => None,
    }
}

pub open spec fn as_text(v: JsonView) -> Option<Seq<char>> {
    match v {
        JsonView::Text(t) => Some(t),
        _ => None,
    }
}

pub open spec fn as_items(v: JsonView) -> Option<Seq<JsonView>> {
    match v {
        JsonView::Array(s) => Some(s),
        _ => None,
    }
}

pub open spec fn as_entries(v: JsonView) -> Option<Map<Seq<char>, JsonView>> {
    match v {
        JsonView::Object(m) => Some(m),
        _ => None,
    }
}

pub open spec fn as_flag(v: JsonView) -> Option<bool> {
    match v {
        JsonView::Bool(b) => Some(b),
        _ => None,
    }
}

/// The integer that the document is, where it is one between `low` and `high`.
pub open spec fn as_int(v: JsonView, low: int, high: int) -> Option<int> {
    match v {
        JsonView::Int(i) => if low <= i <= high {
            Some(i)
        } else {
            None
        },
        _ => None,
    }
}

/// The text at `key`, where there is one.
pub open spec fn text_at(v: JsonView, key: Seq<char>) -> Option<Seq<char>> {
    match field(v, key) {
        Some(f) => as_text(f),
        None => None,
    }
}

/// The text at `key`, or nothing where there is none.
pub open spec fn text_field(v: JsonView, key: Seq<char>) -> Seq<char> {
    match text_at(v, key) {
        Some(t) => t,
        None => Seq::empty(),
    }
}

/// The items of the array at `key`, where there is one.
pub open spec fn items_at(v: JsonView, key: Seq<char>) -> Option<Seq<JsonView>> {
    match field(v, key) {
        Some(f) => as_items(f),
        None => None,
    }
}

pub open spec fn no_entries() -> Map<Seq<char>, JsonView> {
    Map::empty()
}

/// The key by which `serde_json` marks a text that it keeps as it is: an object that begins
/// with it is not read as an object.
pub open spec fn raw_mark() -> Seq<char> {
    "$serde_json::private::RawValue"@
}

/// Whether the document holds no number but integers, no key that is [`raw_mark`], and no
/// more than `depth` arrays and objects one inside the other.
pub open spec fn plain_within(v: JsonView, depth: nat) -> bool
    decreases depth,
{
    match v {
        JsonView::Real(_) => false,
        JsonView::Array(s) => depth > 0 && forall|i: int|
            0 <= i < s.len() ==> plain_within(#[trigger] s[i], (depth - 1) as nat),
        JsonView::Object(m) => depth > 0 && !m.dom().contains(raw_mark()) && forall|k: Seq<char>|
            m.dom().contains(k) ==> plain_within(#[trigger] m[k], (depth - 1) as nat),
        _ => true,
    }
}

// ---- The types of serde_json -------------------------------------------

/// `serde_json::Value`: a JSON document.
#[verifier::external_type_specification]
#[verifier::external_body]
pub struct ExValue(serde_json::Value);

/// `serde_json::Map`: what a JSON object holds.
#[verifier::external_type_specification]
#[verifier::external_body]
#[verifier::reject_recursive_types(K)]
#[verifier::reject_recursive_types(V)]
pub struct ExMap<K, V>(serde_json::Map<K, V>);

/// What a document holds.
pub uninterp spec fn json_view(v: serde_json::Value) -> JsonView;

/// What the map of an object holds.
pub uninterp spec fn json_entries(m: serde_json::Map<String, serde_json::Value>) -> Map<
    Seq<char>,
    JsonView,
>;

pub open spec fn json_views(s: Seq<serde_json::Value>) -> Seq<JsonView> {
    s.map_values(|v: serde_json::Value| json_view(v))
}

pub open spec fn value_view(r: Option<&serde_json::Value>) -> Option<JsonView> {
    match r {
        Some(v) => Some(json_view(*v)),
        None => None,
    }
}

pub open spec fn items_view(r: Option<&Vec<serde_json::Value>>) -> Option<Seq<JsonView>> {
    match r {
        Some(v) => Some(json_views(v@)),
        None => None,
    }
}

pub open spec fn entries_view(
    r: Option<&serde_json::Map<String, serde_json::Value>>,
) -> Option<Map<Seq<char>, JsonView>> {
    match r {
        Some(m) => Some(json_entries(*m)),
        None => None,
    }
}

pub open spec fn u64_view(r: Option<u64>) -> Option<int> {
    match r {
        Some(n) => Some(n as int),
        None => None,
    }
}

pub open spec fn i64_view(r: Option<i64>) -> Option<int> {
    match r {
        Some(n) => Some(n as int),
        None => None,
    }
}

// ---- Reading a document ------------------------------------------------

/// `Value::as_str`: the text of a document that is a text.
pub assume_specification[ serde_json::Value::as_str ](v: &serde_json::Value) -> (r: Option<&str>)
    ensures
        str_view(r) == as_text(json_view(*v)),
;

/// `Value::as_array`: the items of a document that is an array.
pub assume_specification[ serde_json::Value::as_array ](v: &serde_json::Value) -> (r: Option<
    &Vec<serde_json::Value>,
>)
    ensures
        items_view(r) == as_items(json_view(*v)),
;

/// `Value::as_object`: the map of a document that is an object.
pub assume_specification[ serde_json::Value::as_object ](v: &serde_json::Value) -> (r: Option<
    &serde_json::Map<String, serde_json::Value>,
>)
    ensures
        entries_view(r) == as_entries(json_view(*v)),
;

/// `Value::as_bool`: the truth value of a document that is one.
pub assume_specification[ serde_json::Value::as_bool ](v: &serde_json::Value) -> (r: Option<bool>)
    ensures
        r == as_flag(json_view(*v)),
;

/// `Value::as_u64`: the integer of a document that is one, where a `u64` can hold it.
pub assume_specification[ serde_json::Value::as_u64 ](v: &serde_json::Value) -> (r: Option<u64>)
    ensures
        u64_view(r) == as_int(json_view(*v), 0, u64::MAX as int),
;

/// `Value::as_i64`: the integer of a document that is one, where an `i64` can hold it.
pub assume_specification[ serde_json::Value::as_i64 ](v: &serde_json::Value) -> (r: Option<i64>)
    ensures
        i64_view(r) == as_int(json_view(*v), i64::MIN as int, i64::MAX as int),
;

/// `Value::get` with a string: the value at that key of an object.
#[verifier::external_body]
pub(crate) fn get<'a>(v: &'a Value, key: &str) -> (r: Option<&'a Value>)
    ensures
        value_view(r) == field(json_view(*v), key@),
{
    v.get(key)
}

/// `Value::clone`: a document that holds the same.
#[verifier::external_body]
pub(crate) fn copy(v: &Value) -> (r: Value)
    ensures
        json_view(r) == json_view(*v),
{
    v.clone()
}

/// Alphabetical order, by the code points of the characters.
pub open spec fn before(a: Seq<char>, b: Seq<char>) -> bool
    decreases b.len(),
{
    if b.len() == 0 {
        false
    } else if a.len() == 0 {
        true
    } else {
        a[0] < b[0] || (a[0] == b[0] && before(a.drop_first(), b.drop_first()))
    }
}

/// Whether `s` lists the entries of `m`, each once, with the keys in alphabetical order.
pub open spec fn lists(s: Seq<(Seq<char>, JsonView)>, m: Map<Seq<char>, JsonView>) -> bool {
    &&& forall|i: int|
        0 <= i < s.len() ==> m.dom().contains((#[trigger] s[i]).0) && m[s[i].0] == s[i].1
    &&& forall|i: int, j: int|
        0 <= i < j < s.len() ==> before((#[trigger] s[i]).0, (#[trigger] s[j]).0)
    &&& forall|k: Seq<char>| #[trigger]
        m.dom().contains(k) ==> exists|i: int| 0 <= i < s.len() && (#[trigger] s[i]).0 == k
}

pub open spec fn pairs_view(r: Seq<(&String, &serde_json::Value)>) -> Seq<(Seq<char>, JsonView)> {
    r.map_values(|p: (&String, &serde_json::Value)| (p.0@, json_view(*p.1)))
}

/// `Map::iter`: the entries of an object, each once, in the alphabetical order of
/// their keys. (The map is an ordered tree: the `preserve_order` feature is off.)
#[verifier::external_body]
pub(crate) fn pairs<'a>(m: &'a serde_json::Map<String, Value>) -> (r: Vec<(&'a String, &'a Value)>)
    ensures
        lists(pairs_view(r@), json_entries(*m)),
{
    m.iter().collect()
}

// ---- Making a document -------------------------------------------------

/// `Map::new`: a map without entries.
pub assume_specification[ serde_json::Map::<String, serde_json::Value>::new ]() -> (m:
    serde_json::Map<String, serde_json::Value>)
    ensures
        json_entries(m) == no_entries(),
;

/// `Map::insert`: the value is put at the key, in place of one that was there.
pub assume_specification[ serde_json::Map::<String, serde_json::Value>::insert ](
    m: &mut serde_json::Map<String, serde_json::Value>,
    k: String,
    v: serde_json::Value,
) -> (r: Option<serde_json::Value>)
    ensures
        json_entries(*final(m)) == json_entries(*old(m)).insert(k@, json_view(v)),
;

/// `Value::Object`: the object with the entries of a map.
#[verifier::external_body]
pub(crate) fn object(m: serde_json::Map<String, Value>) -> (r: Value)
    ensures
        json_view(r) == JsonView::Object(json_entries(m)),
{
    Value::Object(m)
}

/// `Value::Array`: the array of some documents.
#[verifier::external_body]
pub(crate) fn array(items: Vec<Value>) -> (r: Value)
    ensures
        json_view(r) == JsonView::Array(json_views(items@)),
{
    Value::Array(items)
}

/// `Value::from` on a string slice: that text.
#[verifier::external_body]
pub(crate) fn text(s: &str) -> (r: Value)
    ensures
        json_view(r) == JsonView::Text(s@),
{
    Value::from(s)
}

/// `Value::from` on a truth value.
#[verifier::external_body]
pub(crate) fn flag(b: bool) -> (r: Value)
    ensures
        json_view(r) == JsonView::Bool(b),
{
    Value::from(b)
}

/// `Value::from` on an unsigned integer.
#[verifier::external_body]
pub(crate) fn number(n: u64) -> (r: Value)
    ensures
        json_view(r) == JsonView::Int(n as int),
{
    Value::from(n)
}

/// `Value::Null`.
#[verifier::external_body]
pub(crate) fn null() -> (r: Value)
    ensures
        json_view(r) == JsonView::Null,
{
    Value::Null
}

// ---- Documents as text -------------------------------------------------

/// The document that a text is, where `serde_json::from_str` reads one from it.
pub uninterp spec fn json_parse(text: Seq<char>) -> Option<JsonView>;

/// The text that `serde_json` prints for a document, without white space between
/// its parts.
pub uninterp spec fn json_print(v: JsonView) -> Seq<char>;

pub open spec fn parsed_view(r: Option<serde_json::Value>) -> Option<JsonView> {
    match r {
        Some(v) => Some(json_view(v)),
        None => None,
    }
}

/// `serde_json::from_str` to a `Value`: the document that the text is, or nothing
/// where the text is no JSON, or nests more than `serde_json` follows.
#[verifier::external_body]
pub(crate) fn parse(text: &str) -> (r: Option<Value>)
    ensures
        parsed_view(r) == json_parse(text@),
{
    serde_json::from_str::<Value>(text).ok()
}

/// `Value::to_string`: the text of the document. Of a document with no more than
/// 127 nested arrays and objects, which is as far as `serde_json` follows them, without
/// fractions, and without the key [`raw_mark`], `serde_json::from_str` reads the same
/// document back. (With the feature `raw_value`, which is on, an object that begins with
/// that key is read as the document in the text behind it.)
#[verifier::external_body]
pub(crate) fn print(v: &Value) -> (r: String)
    ensures
        r@ == json_print(json_view(*v)),
        plain_within(json_view(*v), 127) ==> json_parse(r@) == Some(json_view(*v)),
{
    v.to_string()
}

// ---- What follows ------------------------------------------------------

pub(crate) fn put(m: &mut serde_json::Map<String, Value>, key: &str, v: Value)
    ensures
        json_entries(*final(m)) == json_entries(*old(m)).insert(key@, json_view(v)),
{
    m.insert(key.to_string(), v);
}

pub(crate) fn put_text(m: &mut serde_json::Map<String, Value>, key: &str, s: &str)
    ensures
        json_entries(*final(m)) == json_entries(*old(m)).insert(key@, JsonView::Text(s@)),
{
    put(m, key, text(s));
}

/// The text at `key`, where there is one.
pub fn text_of<'a>(v: &'a Value, key: &str) -> (r: Option<&'a str>)
    ensures
        str_view(r) == text_at(json_view(*v), key@),
{
    match get(v, key) {
        Some(f) => f.as_str(),
        None => None,
    }
}

/// The text at `key`, or nothing where there is none.
pub fn sget(v: &Value, key: &str) -> (r: String)
    ensures
        r@ == text_field(json_view(*v), key@),
{
    match text_of(v, key) {
        Some(t) => t.to_string(),
        None => String::new(),
    }
}

/// The items of the array at `key`, where there is one.
pub fn items_of<'a>(v: &'a Value, key: &str) -> (r: Option<&'a Vec<Value>>)
    ensures
        items_view(r) == items_at(json_view(*v), key@),
{
    match get(v, key) {
        Some(f) => f.as_array(),
        None => None,
    }
}

// ---- The order of the keys ---------------------------------------------

proof fn lemma_before_irreflexive(a: Seq<char>)
    ensures
        !before(a, a),
    decreases a.len(),
{
    if a.len() > 0 {
        lemma_before_irreflexive(a.drop_first());
    }
}

proof fn lemma_before_transitive(a: Seq<char>, b: Seq<char>, c: Seq<char>)
    requires
        before(a, b),
        before(b, c),
    ensures
        before(a, c),
    decreases c.len(),
{
    if a.len() > 0 && a[0] == b[0] && b[0] == c[0] {
        lemma_before_transitive(a.drop_first(), b.drop_first(), c.drop_first());
    }
}

proof fn lemma_lists_agree(
    s: Seq<(Seq<char>, JsonView)>,
    t: Seq<(Seq<char>, JsonView)>,
    m: Map<Seq<char>, JsonView>,
    n: int,
)
    requires
        lists(s, m),
        lists(t, m),
        0 <= n <= s.len(),
    ensures
        n <= t.len(),
        forall|i: int| 0 <= i < n ==> s[i] == t[i],
    decreases n,
{
    if n > 0 {
        lemma_lists_agree(s, t, m, n - 1);
        let i = n - 1;
        assert(m.dom().contains(s[i].0));
        let j = choose|j: int| 0 <= j < t.len() && (#[trigger] t[j]).0 == s[i].0;
        if j < i {
            assert(s[j] == t[j]);
            assert(before(s[j].0, s[i].0));
            lemma_before_irreflexive(s[i].0);
        }
        if j > i {
            assert(before(t[i].0, t[j].0));
            assert(m.dom().contains(t[i].0));
            let k = choose|k: int| 0 <= k < s.len() && (#[trigger] s[k]).0 == t[i].0;
            if k < i {
                assert(s[k] == t[k]);
                assert(before(t[k].0, t[i].0));
                lemma_before_irreflexive(t[i].0);
            } else if k == i {
                lemma_before_irreflexive(s[i].0);
            } else {
                assert(before(s[i].0, s[k].0));
                lemma_before_transitive(s[i].0, s[k].0, s[i].0);
                lemma_before_irreflexive(s[i].0);
            }
        }
        assert(s[i].1 == t[i].1);
    }
}

/// The entries of `m` in the alphabetical order of their keys.
pub open spec fn ordered(m: Map<Seq<char>, JsonView>) -> Seq<(Seq<char>, JsonView)> {
    choose|s: Seq<(Seq<char>, JsonView)>| lists(s, m)
}

/// There is only one list of the entries of an object in the order of the keys.
pub proof fn lemma_ordered(s: Seq<(Seq<char>, JsonView)>, m: Map<Seq<char>, JsonView>)
    requires
        lists(s, m),
    ensures
        ordered(m) == s,
{
    let t = ordered(m);
    lemma_lists_agree(s, t, m, s.len() as int);
    lemma_lists_agree(t, s, m, t.len() as int);
    assert(s =~= t);
}

// ---- Laws --------------------------------------------------------------

/// What is read at a key: the text where it is a text, the items where it is an array, and
/// nothing else.
pub proof fn law_reading_at_a_key(v: JsonView, key: Seq<char>)
    ensures
        match field(v, key) {
            Some(JsonView::Text(t)) => text_at(v, key) == Some(t) && text_field(v, key) == t
                && items_at(v, key) is None,
            Some(JsonView::Array(s)) => text_at(v, key) is None && text_field(v, key).len() == 0
                && items_at(v, key) == Some(s),
            _ => text_at(v, key) is None && text_field(v, key).len() == 0 && items_at(
                v,
                key,
            ) is None,
        },
{
}

} // verus!

//! JSON documents as trees, and the table of built-in signatures that is read
//! from one.

use serde_json::Value;
use vstd::prelude::*;

verus! {

/// A JSON document.
#[derive(Debug)]
pub enum Json {
    Null,
    Bool(bool),
    /// A number that is a whole number from 0 to 2^64 - 1.
    Number(u64),
    /// Any other number, in the digits that stand for it.
    Decimal(String),
    String(String),
    Array(Vec<Json>),
    /// An object: the map of its members, as the parser holds it.
    Object(serde_json::Map<String, Value>),
}

/// A JSON document as plain values.
pub enum JsonView {
    Null,
    Bool(bool),
    Number(u64),
    Decimal(Seq<char>),
    String(Seq<char>),
    Array(Seq<JsonView>),
    Object(Seq<(Seq<char>, JsonView)>),
}

impl DeepView for Json {
    type V = JsonView;

    open spec fn deep_view(&self) -> JsonView
        decreases self,
    {
        match self {
            Json::Null => JsonView::Null,
            Json::Bool(b) => JsonView::Bool(*b),
            Json::Number(n) => JsonView::Number(*n),
            Json::Decimal(text) => JsonView::Decimal(text@),
            Json::String(text) => JsonView::String(text@),
            Json::Array(items) => JsonView::Array(
                Seq::new(
                    items.len() as nat,
                    |i: int|
                        if 0 <= i < items.len() {
                            items[i].deep_view()
                        } else {
                            JsonView::Null
                        },
                ),
            ),
            Json::Object(map) => JsonView::Object(object_members(*map)),
        }
    }
}

/// Whether a tree is written and read back as itself: it holds no number
/// in digits, neither as the tree itself nor as an item of an array at any
/// depth. What the map of an object holds is not looked at, for it is kept
/// as it is.
pub open spec fn is_exact(tree: Json) -> bool
    decreases tree,
{
    match tree {
        Json::Decimal(_) => false,
        Json::Array(items) => forall|i: int|
            0 <= i < items.len() ==> is_exact(#[trigger] items[i]),
        _ => true,
    }
}

/// The items of an array as plain values.
pub open spec fn items_view(items: Seq<Json>) -> Seq<JsonView> {
    Seq::new(items.len(), |i: int| items[i].deep_view())
}

/// The view of an array is made of the views of its items, and that of an
/// object of what its map holds.
pub proof fn lemma_view_unfolds(tree: Json)
    ensures
        tree matches Json::Object(map) ==> tree.deep_view() == JsonView::Object(
            object_members(map),
        ),
        tree matches Json::Array(items) ==> tree.deep_view() == JsonView::Array(items_view(items@)),
{
    reveal_with_fuel(<Json as DeepView>::deep_view, 2);
    match tree {
        Json::Array(items) => {
            let got = tree.deep_view()->Array_0;
            assert(got.len() == items.len());
            assert forall|i: int| 0 <= i < got.len() implies got[i] == items_view(items@)[i] by {
                assert(got[i] == items[i].deep_view());
            }
            assert(got =~= items_view(items@));
        },
        _ => {},
    }
}

/// `serde_json::Map`, the map that holds the members of an object.
#[verifier::external_type_specification]
#[verifier::external_body]
#[verifier::reject_recursive_types(K)]
#[verifier::reject_recursive_types(V)]
pub struct ExMap<K, V>(serde_json::Map<K, V>);

/// What a map holds: its members in the order in which the map hands them
/// out, each with its key and with its value as plain values.
pub uninterp spec fn object_members(map: serde_json::Map<String, Value>) -> Seq<
    (Seq<char>, JsonView),
>;

/// `serde_json::Value`, carried from the parser to the conversion and from
/// the conversion to the printer; nothing is claimed of what it holds.
#[verifier::external_type_specification]
#[verifier::external_body]
pub struct ExValue(serde_json::Value);

/// `serde_json::Error`, carried from the parser to where its text is taken.
#[verifier::external_type_specification]
#[verifier::external_body]
pub struct ExError(serde_json::Error);

/// The document that a text is read as; none where the text is not JSON.
pub uninterp spec fn json_parse(text: Seq<char>) -> Option<JsonView>;

/// The compact text that a document is written as.
pub uninterp spec fn json_print(tree: JsonView) -> Seq<char>;

/// Why a text could not be read.
#[derive(Clone, Debug)]
pub struct JsonError {
    /// What the parser says of the fault, with its line and column.
    pub message: String,
}

/// Takes a `serde_json::Value` apart into a tree of the library, variant by
/// variant. A number goes by `Number::as_u64` where it is a whole number
/// from 0 to 2^64 - 1 and by its digits otherwise. The map of an object is
/// kept as it is.
#[verifier::external_body]
fn tree_of(value: Value) -> (tree: Json) {
    match value {
        Value::Null => Json::Null,
        Value::Bool(b) => Json::Bool(b),
        Value::Number(n) => match n.as_u64() {
            Some(u) => Json::Number(u),
            None => Json::Decimal(n.to_string()),
        },
        Value::String(s) => Json::String(s),
        Value::Array(items) => Json::Array(items.into_iter().map(tree_of).collect()),
        Value::Object(map) => Json::Object(map),
    }
}

/// Builds the `serde_json::Value` that a tree of the library stands for,
/// variant by variant. Digits that `Number` cannot read become `null`.
#[verifier::external_body]
fn value_of(tree: &Json) -> (value: Value) {
    match tree {
        Json::Null => Value::Null,
        Json::Bool(b) => Value::Bool(*b),
        Json::Number(n) => Value::from(*n),
        Json::Decimal(text) => text.parse().map(Value::Number).unwrap_or(Value::Null),
        Json::String(s) => Value::String(s.clone()),
        Json::Array(items) => Value::Array(items.iter().map(value_of).collect()),
        Json::Object(map) => Value::Object(map.clone()),
    }
}

/// The members of a map, in the map's order, each value as a tree.
///
/// Walks the map with `Map::iter`, which hands out every member once. The
/// contract says that these are what the map holds.
#[verifier::external_body]
pub(crate) fn members_of(map: &serde_json::Map<String, Value>) -> (members: Vec<(String, Json)>)
    ensures
        members.deep_view() == object_members(*map),
{
    map.iter().map(|(key, value)| (key.clone(), tree_of(value.clone()))).collect()
}

/// The value that a map holds for a key, as a tree.
///
/// Calls `Map::get`. A map holds at most one member for a key, so the value
/// that comes back is that of the first member with the key, and there is
/// none where no member has it.
#[verifier::external_body]
pub(crate) fn member_of(map: &serde_json::Map<String, Value>, key: &str) -> (value: Option<Json>)
    ensures
        value.deep_view() == member(object_members(*map), key@),
{
    map.get(key).map(|value| tree_of(value.clone()))
}

/// The object with the given members.
///
/// Collects the members into a `Map` through its `FromIterator`. The map
/// keeps its members in the order of their keys, and strings are ordered by
/// their code points; members whose keys come in strictly ascending order
/// are therefore held as they were given. Each value is held as the value
/// that it stands for; a value without digits of its own is read back as
/// itself.
#[verifier::external_body]
pub(crate) fn object_of(members: Vec<(String, Json)>) -> (tree: Json)
    requires
        ascending(members.deep_view()),
        forall|i: int| 0 <= i < members.len() ==> is_exact((#[trigger] members[i]).1),
    ensures
        tree.deep_view() == JsonView::Object(members.deep_view()),
{
    Json::Object(members.into_iter().map(|(key, value)| (key, value_of(&value))).collect())
}

/// What the parser says of a fault: `serde_json::Error` as a string.
#[verifier::external_body]
fn fault_text(error: &serde_json::Error) -> (text: String) {
    error.to_string()
}

/// Reads a text as JSON with `serde_json::from_str`.
///
/// The call returns a `Value` or an error. It refuses a text that is not
/// one JSON document, and also a document that is nested deeper than the
/// parser's limit or holds a number out of range. The contract gives what it
/// returns a name and says nothing of which texts are read.
#[verifier::external_body]
fn read_value(text: &str) -> (r: Result<Json, serde_json::Error>)
    ensures
        match r {
            Ok(tree) => json_parse(text@) == Some(tree.deep_view()),
            Err(_) => json_parse(text@) is None,
        },
{
    serde_json::from_str::<Value>(text).map(tree_of)
}

/// Writes a tree as compact JSON with `serde_json::to_string`.
///
/// The contract gives the text its name.
#[verifier::external_body]
fn write_value(tree: &Json) -> (text: String)
    ensures
        text@ == json_print(tree.deep_view()),
{
    serde_json::to_string(&value_of(tree)).unwrap_or_default()
}

/// Reads a text as a JSON document.
pub fn parse_json(text: &str) -> (r: Result<Json, JsonError>)
    ensures
        match r {
            Ok(tree) => json_parse(text@) == Some(tree.deep_view()),
            Err(_) => json_parse(text@) is None,
        },
{
    match read_value(text) {
        Ok(tree) => Ok(tree),
        Err(error) => Err(JsonError { message: fault_text(&error) }),
    }
}

/// Writes a document as compact JSON.
pub fn print_json(tree: &Json) -> (text: String)
    ensures
        text@ == json_print(tree.deep_view()),
{
    write_value(tree)
}

/// The value of the first member of an object at or after `from` that has
/// the key `key`.
pub open spec fn member_from(members: Seq<(Seq<char>, JsonView)>, key: Seq<char>, from: int) -> Option<
    JsonView,
>
    decreases members.len() - from,
{
    if from < 0 || from >= members.len() {
        None
    } else if members[from].0 == key {
        Some(members[from].1)
    } else {
        member_from(members, key, from + 1)
    }
}

/// The value of the first member of an object that has the key `key`.
pub open spec fn member(members: Seq<(Seq<char>, JsonView)>, key: Seq<char>) -> Option<JsonView> {
    member_from(members, key, 0)
}

/// Whether `a` comes before `b` in the order of strings, with `k` as the
/// place at which they part: `a` ends there and `b` goes on, or `a` has the
/// lesser character there.
pub open spec fn parts_before(a: Seq<char>, b: Seq<char>, k: int) -> bool {
    &&& 0 <= k <= a.len()
    &&& k < b.len()
    &&& a.subrange(0, k) == b.subrange(0, k)
    &&& k < a.len() ==> (a[k] as u32) < (b[k] as u32)
}

/// Whether `a` comes before `b` in the order of strings: character by
/// character, by code point.
pub open spec fn precedes(a: Seq<char>, b: Seq<char>) -> bool {
    exists|k: int| parts_before(a, b, k)
}

/// Whether the keys of the members come in strictly ascending order.
pub open spec fn ascending(members: Seq<(Seq<char>, JsonView)>) -> bool {
    forall|i: int|
        0 <= i < members.len() - 1 ==> precedes(#[trigger] members[i].0, members[i + 1].0)
}

/// The key of the member of a built-in function that holds its signature.
pub open spec fn signature_key() -> Seq<char> {
    "fn_type"@
}

/// The entry of the table that a member of the document gives: the key with
/// the signature, where the member is an object whose `fn_type` is a string.
pub open spec fn builtin_entry(key: Seq<char>, value: JsonView) -> Option<(Seq<char>, Seq<char>)> {
    match value {
        JsonView::Object(inner) => match member(inner, signature_key()) {
            Some(JsonView::String(signature)) => Some((key, signature)),
            _ => None,
        },
        _ => None,
    }
}

/// The table of built-in signatures that a document holds: the entries that
/// the members of its top-level object give, in their order. A document that
/// is no object holds none.
pub open spec fn builtin_entries(tree: JsonView) -> Seq<(Seq<char>, Seq<char>)> {
    match tree {
        JsonView::Object(members) => members.filter_map(
            |m: (Seq<char>, JsonView)| builtin_entry(m.0, m.1),
        ),
        _ => Seq::empty(),
    }
}

/// The table of built-in signatures that a document holds.
pub fn builtin_types_from(tree: &Json) -> (r: Vec<(String, String)>)
    ensures
        r.deep_view() == builtin_entries(tree.deep_view()),
{
    let mut r: Vec<(String, String)> = Vec::new();
    let map = match tree {
        Json::Object(map) => map,
        _ => {
            assert(r.deep_view() =~= Seq::empty());
            return r;
        },
    };
    let members = members_of(map);
    let ghost all = object_members(*map);
    proof {
        lemma_view_unfolds(*tree);
    }
    let ghost pick = |m: (Seq<char>, JsonView)| builtin_entry(m.0, m.1);
    assert(r.deep_view() =~= all.take(0).filter_map(pick));
    let mut i: usize = 0;
    while i < members.len()
        invariant
            0 <= i <= members.len(),
            all == members.deep_view(),
            pick == |m: (Seq<char>, JsonView)| builtin_entry(m.0, m.1),
            r.deep_view() == all.take(i as int).filter_map(pick),
        decreases members.len() - i,
    {
        let ghost before = r.deep_view();
        proof {
            assert(all[i as int] == (members[i as int].0@, members[i as int].1.deep_view()));
            assert(all.take(i + 1).drop_last() =~= all.take(i as int));
            assert(all.take(i + 1).last() == all[i as int]);
        }
        if let Json::Object(inner) = &members[i].1 {
            proof {
                lemma_view_unfolds(members[i as int].1);
            }
            if let Some(Json::String(signature)) = member_of(inner, "fn_type") {
                assert(r.deep_view() + seq![(members[i as int].0@, signature@)] =~= r.deep_view().push(
                    (members[i as int].0@, signature@),
                ));
                r.push((members[i].0.clone(), signature));
                assert(r.deep_view() =~= before + seq![(members[i as int].0@, signature@)]);
            }
        }
        i = i + 1;
    }
    assert(all.take(members.len() as int) =~= all);
    r
}

/// Reads the table of built-in signatures from a JSON text.
pub fn parse_builtin_types(data: &str) -> (r: Result<Vec<(String, String)>, JsonError>)
    ensures
        match r {
            Ok(table) => json_parse(data@) matches Some(tree) && table.deep_view()
                == builtin_entries(tree),
            Err(_) => json_parse(data@) is None,
        },
{
    match parse_json(data) {
        Ok(tree) => Ok(builtin_types_from(&tree)),
        Err(error) => Err(error),
    }
}

} // verus!

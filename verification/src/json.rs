//! JSON values: what the proxy reads of them and how it builds them.

use serde_json::Value;
use vstd::prelude::*;

use crate::text;

verus! {

/// A JSON value.
#[verifier::external_type_specification]
#[verifier::external_body]
pub struct ExValue(serde_json::Value);

/// What a JSON value holds. A number is its decimal text; the members of an
/// object stand in their order, each key once.
pub enum Json {
    Null,
    Bool(bool),
    Number(Seq<char>),
    Text(Seq<char>),
    Array(Seq<Json>),
    Object(Seq<(Seq<char>, Json)>),
}

/// What a value holds.
pub uninterp spec fn json_tree(value: serde_json::Value) -> Json;

/// What `serde_json::from_slice` makes of `bytes`: what the value holds, or the
/// text of the error.
pub uninterp spec fn json_parse(bytes: Seq<u8>) -> Result<Json, Seq<char>>;

/// The text that `serde_json` writes for a value.
pub uninterp spec fn json_text(tree: Json) -> Seq<char>;

/// What a list of members holds.
pub open spec fn member_trees(members: Seq<(String, Value)>) -> Seq<(Seq<char>, Json)> {
    members.map_values(|member: (String, Value)| (member.0@, json_tree(member.1)))
}

/// What a list of values holds.
pub open spec fn item_trees(items: Seq<Value>) -> Seq<Json> {
    items.map_values(|item: Value| json_tree(item))
}

/// Whether no key occurs twice.
pub open spec fn keys_differ(members: Seq<(Seq<char>, Json)>) -> bool {
    forall|i: int, j: int|
        0 <= i < j < members.len() ==> #[trigger] members[i].0 != #[trigger] members[j].0
}

/// Members with different keys.
pub proof fn lemma_keys_differ(members: Seq<(String, Value)>)
    requires
        forall|i: int, j: int|
            0 <= i < j < members.len() ==> #[trigger] members[i].0@ != #[trigger] members[j].0@,
    ensures
        keys_differ(member_trees(members)),
{
    let trees = member_trees(members);
    assert forall|i: int, j: int| 0 <= i < j < trees.len() implies #[trigger] trees[i].0
        != #[trigger] trees[j].0 by {
        assert(trees[i].0 == members[i].0@);
        assert(trees[j].0 == members[j].0@);
    }
}

/// Whether a tree is neither a text, an array nor an object.
pub open spec fn is_scalar(tree: Json) -> bool {
    tree is Null || tree is Bool || tree is Number
}

/// Whether a key stands at a place among the members.
pub open spec fn stands_at(members: Seq<(Seq<char>, Json)>, key: Seq<char>, i: int) -> bool {
    0 <= i < members.len() && members[i].0 == key
}

/// Whether a key occurs among the members.
pub open spec fn has_key(members: Seq<(Seq<char>, Json)>, key: Seq<char>) -> bool {
    exists|i: int| stands_at(members, key, i)
}

/// Where a key stands among the members.
pub open spec fn place_of(members: Seq<(Seq<char>, Json)>, key: Seq<char>) -> int {
    choose|i: int| stands_at(members, key, i)
}

/// The member of an object under a key.
pub open spec fn member(members: Seq<(Seq<char>, Json)>, key: Seq<char>) -> Option<Json> {
    if has_key(members, key) {
        Some(members[place_of(members, key)].1)
    } else {
        None
    }
}

/// The members of an object after a key was given a value: in the place where
/// the key was, else at the end.
pub open spec fn with_member(
    members: Seq<(Seq<char>, Json)>,
    key: Seq<char>,
    value: Json,
) -> Seq<(Seq<char>, Json)> {
    if has_key(members, key) {
        members.update(place_of(members, key), (key, value))
    } else {
        members.push((key, value))
    }
}

/// A key stands at one place only.
pub proof fn lemma_place_of(members: Seq<(Seq<char>, Json)>, key: Seq<char>, i: int)
    requires
        keys_differ(members),
        stands_at(members, key, i),
    ensures
        has_key(members, key),
        place_of(members, key) == i,
{
    let j = place_of(members, key);
    assert(stands_at(members, key, j));
    assert(members[i].0 == members[j].0);
}

/// A value taken apart by one level.
pub enum JsonParts {
    Object(Vec<(String, Value)>),
    Array(Vec<Value>),
    Text(String),
    Scalar(Value),
}

impl JsonParts {
    /// What the value held.
    pub open spec fn tree(self) -> Json {
        match self {
            JsonParts::Object(members) => Json::Object(member_trees(members@)),
            JsonParts::Array(items) => Json::Array(item_trees(items@)),
            JsonParts::Text(text) => Json::Text(text@),
            JsonParts::Scalar(value) => json_tree(value),
        }
    }
}

/// The view of a parse.
pub open spec fn parse_view(parsed: Result<Value, String>) -> Result<Json, Seq<char>> {
    match parsed {
        Ok(value) => Ok(json_tree(value)),
        Err(text) => Err(text@),
    }
}

/// `serde_json::from_slice`: parses `bytes`, or gives the text of the error.
/// Its result is named.
#[verifier::external_body]
pub(crate) fn parse_json(bytes: &[u8]) -> (r: Result<Value, String>)
    ensures
        parse_view(r) == json_parse(bytes@),
{
    serde_json::from_slice(bytes).map_err(|err| err.to_string())
}

/// `Display` of `serde_json::Value`, which is also what `serde_json::to_string`
/// and `serde_json::to_vec` write: its text is named, and depends on what the
/// value holds alone.
#[verifier::external_body]
pub(crate) fn render_json(value: &Value) -> (r: String)
    ensures
        r@ == json_text(json_tree(*value)),
{
    value.to_string()
}

/// The variants of `serde_json::Value`: an object's members come in their
/// order, and no key comes twice.
#[verifier::external_body]
pub(crate) fn open_json(value: Value) -> (r: JsonParts)
    ensures
        r.tree() == json_tree(value),
        r matches JsonParts::Object(members) ==> keys_differ(member_trees(members@)),
        r matches JsonParts::Scalar(scalar) ==> is_scalar(json_tree(scalar)),
{
    match value {
        Value::Object(members) => JsonParts::Object(members.into_iter().collect()),
        Value::Array(items) => JsonParts::Array(items),
        Value::String(text) => JsonParts::Text(text),
        scalar => JsonParts::Scalar(scalar),
    }
}

/// `serde_json::Map` from its members, as a value: the members keep their
/// order.
#[verifier::external_body]
pub(crate) fn json_object(members: Vec<(String, Value)>) -> (r: Value)
    requires
        keys_differ(member_trees(members@)),
    ensures
        json_tree(r) == Json::Object(member_trees(members@)),
{
    Value::Object(members.into_iter().collect())
}

/// `serde_json::Value::Array`.
#[verifier::external_body]
pub(crate) fn json_array(items: Vec<Value>) -> (r: Value)
    ensures
        json_tree(r) == Json::Array(item_trees(items@)),
{
    Value::Array(items)
}

/// `serde_json::Value::String`.
#[verifier::external_body]
pub(crate) fn json_string(text: &str) -> (r: Value)
    ensures
        json_tree(r) == Json::Text(text@),
{
    Value::String(text.to_owned())
}

/// `serde_json::Value::Null`.
#[verifier::external_body]
pub(crate) fn json_null() -> (r: Value)
    ensures
        json_tree(r) is Null,
{
    Value::Null
}

/// `serde_json::Value::from` a signed number: its text is the decimal one.
#[verifier::external_body]
pub(crate) fn json_signed(number: i64) -> (r: Value)
    ensures
        json_tree(r) == Json::Number(text::signed_decimal(number as int)),
{
    Value::from(number)
}

/// `serde_json::Value::from` an unsigned number: its text is the decimal one.
#[verifier::external_body]
pub(crate) fn json_unsigned(number: u64) -> (r: Value)
    ensures
        json_tree(r) == Json::Number(text::decimal(number as nat)),
{
    Value::from(number)
}

/// `Clone` of `serde_json::Value`: the clone holds what the value holds.
#[verifier::external_body]
pub(crate) fn copy_json(value: &Value) -> (r: Value)
    ensures
        json_tree(r) == json_tree(*value),
{
    value.clone()
}

/// Looks a key up.
pub(crate) fn find_member(members: &Vec<(String, Value)>, key: &str) -> (r: Option<usize>)
    requires
        keys_differ(member_trees(members@)),
    ensures
        match r {
            Some(i) => i < members@.len() && members@[i as int].0@ == key@ && member(
                member_trees(members@),
                key@,
            ) == Some(json_tree(members@[i as int].1)) && forall|value: Json| #[trigger]
                with_member(member_trees(members@), key@, value) == member_trees(members@).update(
                    i as int,
                    (key@, value),
                ),
            None => member(member_trees(members@), key@) is None && forall|value: Json| #[trigger]
                with_member(member_trees(members@), key@, value) == member_trees(members@).push(
                    (key@, value),
                ),
        },
{
    let ghost trees = member_trees(members@);
    for i in 0..members.len()
        invariant
            trees == member_trees(members@),
            keys_differ(trees),
            forall|j: int| 0 <= j < i ==> !#[trigger] stands_at(trees, key@, j),
    {
        assert(trees[i as int].0 == members@[i as int].0@);
        if text::same_text(members[i].0.as_str(), key) {
            proof {
                lemma_place_of(trees, key@, i as int);
            }
            return Some(i);
        }
    }
    assert(forall|j: int| !#[trigger] stands_at(trees, key@, j));
    None
}

/// The bytes of a text.
pub(crate) fn text_bytes(text: &str) -> (r: Vec<u8>)
    ensures
        r@ == vstd::utf8::encode_utf8(text@),
{
    vstd::slice::slice_to_vec(text.as_bytes())
}

/// Giving a key the value that it has changes nothing.
pub proof fn lemma_with_member_again(members: Seq<(Seq<char>, Json)>, key: Seq<char>, value: Json)
    requires
        member(members, key) == Some(value),
    ensures
        with_member(members, key, value) == members,
{
    assert(stands_at(members, key, place_of(members, key)));
    assert(with_member(members, key, value) =~= members);
}

/// A key that was given a value holds it, and every other key holds what it
/// held.
pub proof fn law_member_read_back(
    members: Seq<(Seq<char>, Json)>,
    key: Seq<char>,
    value: Json,
    other: Seq<char>,
)
    requires
        keys_differ(members),
    ensures
        keys_differ(with_member(members, key, value)),
        member(with_member(members, key, value), key) == Some(value),
        other != key ==> member(with_member(members, key, value), other) == member(members, other),
{
    let after = with_member(members, key, value);
    let i = if has_key(members, key) {
        place_of(members, key)
    } else {
        members.len() as int
    };
    if has_key(members, key) {
        assert(stands_at(members, key, i));
        assert(forall|j: int| 0 <= j < members.len() ==> #[trigger] after[j].0 == members[j].0);
    } else {
        assert forall|j: int| 0 <= j < members.len() implies #[trigger] members[j].0 != key by {
            assert(!stands_at(members, key, j));
        }
    }
    lemma_place_of(after, key, i);
    if other != key {
        if has_key(members, other) {
            let j = place_of(members, other);
            assert(stands_at(members, other, j));
            lemma_place_of(after, other, j);
        } else if has_key(after, other) {
            let j = place_of(after, other);
            assert(stands_at(after, other, j));
            assert(stands_at(members, other, j));
        }
    }
}

} // verus!

//! JSON values, as `serde_json` holds them.

use serde_json::Value;
use vstd::prelude::*;
use vstd::utf8::encode_utf8;

verus! {

broadcast use vstd::string::group_string_axioms;

/// `serde_json::Value`.
#[verifier::external_type_specification]
#[verifier::external_body]
pub struct ExValue(serde_json::Value);

/// What a JSON value is, one level deep.
pub enum Node {
    Null,
    Bool(bool),
    /// A number without a fraction or an exponent that fits in an `i64`.
    Integer(i64),
    OtherNumber,
    Text(Seq<char>),
    Array(Seq<Value>),
    Object(Map<Seq<char>, Value>),
}

/// What a JSON value holds.
pub uninterp spec fn node(v: serde_json::Value) -> Node;

/// What reading a text as JSON gives: a value, or the message that says what is
/// wrong with it.
pub uninterp spec fn parsed(bytes: Seq<u8>) -> Result<serde_json::Value, Seq<char>>;

/// The text that a value is written as, on indented lines.
pub uninterp spec fn pretty(v: serde_json::Value) -> Seq<char>;

/// Reading the text gives the value.
pub open spec fn reads_as(text: Seq<char>, v: Value) -> bool {
    parsed(encode_utf8(text)) == Ok::<Value, Seq<char>>(v)
}

/// The value under a key of an object.
pub open spec fn field_of(v: Value, key: Seq<char>) -> Option<Value> {
    match node(v) {
        Node::Object(m) => if m.contains_key(key) {
            Some(m[key])
        } else {
            None
        },
        _ => None,
    }
}

/// A value of integers, texts, flags and nulls in arrays and objects, nested at
/// most `depth` deep.
pub open spec fn plain(v: Value, depth: nat) -> bool
    decreases depth,
{
    match node(v) {
        Node::OtherNumber => false,
        Node::Array(items) => depth > 0 && forall|i: int|
            0 <= i < items.len() ==> plain(#[trigger] items[i], (depth - 1) as nat),
        Node::Object(m) => depth > 0 && forall|k: Seq<char>|
            m.contains_key(k) ==> plain(#[trigger] m[k], (depth - 1) as nat),
        _ => true,
    }
}

/// The nesting up to which reading gives back what was written.
pub open spec fn shallow() -> nat {
    16
}

/// No two fields have the same key.
pub open spec fn keys_differ(fields: Seq<(String, Value)>) -> bool {
    forall|i: int, j: int|
        #![trigger fields[i], fields[j]]
        0 <= i < j < fields.len() ==> fields[i].0@ != fields[j].0@
}

/// The members of an object made of fields.
pub open spec fn members(fields: Seq<(String, Value)>) -> Map<Seq<char>, Value>
    decreases fields.len(),
{
    if fields.len() == 0 {
        Map::empty()
    } else {
        members(fields.drop_last()).insert(fields.last().0@, fields.last().1)
    }
}

/// Each field is a member.
pub proof fn lemma_member(fields: Seq<(String, Value)>, i: int)
    requires
        0 <= i < fields.len(),
    ensures
        members(fields).contains_key(fields[i].0@),
    decreases fields.len(),
{
    if i < fields.len() - 1 {
        lemma_member(fields.drop_last(), i);
    }
}

/// `Value::get` with a text: the member under the key where the value is an
/// object that has it, and `None` otherwise.
#[verifier::external_body]
pub(crate) fn field<'a>(v: &'a Value, key: &str) -> (res: Option<&'a Value>)
    ensures
        match res {
            Some(f) => field_of(*v, key@) == Some(*f),
            None => field_of(*v, key@) is None,
        },
{
    v.get(key)
}

/// `Value::as_str`: the text where the value is one.
pub assume_specification[ serde_json::Value::as_str ](v: &serde_json::Value) -> (res: Option<&str>)
    ensures
        match res {
            Some(s) => node(*v) == Node::Text(s@),
            None => !(node(*v) is Text),
        },
;

/// `Value::as_i64`: the number where the value is an integer that fits in an
/// `i64`.
pub assume_specification[ serde_json::Value::as_i64 ](v: &serde_json::Value) -> (res: Option<i64>)
    ensures
        match res {
            Some(n) => node(*v) == Node::Integer(n),
            None => !(node(*v) is Integer),
        },
;

/// `Value::as_bool`: the flag where the value is one.
pub assume_specification[ serde_json::Value::as_bool ](v: &serde_json::Value) -> (res: Option<bool>)
    ensures
        match res {
            Some(b) => node(*v) == Node::Bool(b),
            None => !(node(*v) is Bool),
        },
;

/// `Value::as_array`: the items where the value is an array.
pub assume_specification[ serde_json::Value::as_array ](v: &serde_json::Value) -> (res: Option<
    &Vec<serde_json::Value>,
>)
    ensures
        match res {
            Some(items) => node(*v) == Node::Array(items@),
            None => !(node(*v) is Array),
        },
;

/// `serde_json::from_slice` into a `Value`: the value that the text denotes, or
/// the error's message. The outcome depends on the text alone and is named
/// `parsed`.
#[verifier::external_body]
pub(crate) fn parse(bytes: &[u8]) -> (res: Result<Value, String>)
    ensures
        match res {
            Ok(v) => parsed(bytes@) == Ok::<Value, Seq<char>>(v),
            Err(e) => parsed(bytes@) == Err::<Value, Seq<char>>(e@),
        },
{
    match serde_json::from_slice(bytes) {
        Ok(v) => Ok(v),
        Err(e) => Err(e.to_string()),
    }
}

/// `serde_json::to_string_pretty` of a `Value`, which cannot fail. The text
/// depends on the value alone and is named `pretty`; reading it gives the value
/// back, as it holds no fractions or huge numbers and is not nested deeper than
/// the reader goes.
#[verifier::external_body]
pub(crate) fn write_pretty(v: &Value) -> (res: String)
    requires
        plain(*v, shallow()),
    ensures
        res@ == pretty(*v),
        reads_as(res@, *v),
{
    serde_json::to_string_pretty(v).unwrap_or_default()
}

/// `Value::from` a text: that text.
#[verifier::external_body]
pub(crate) fn text_value(s: &str) -> (res: Value)
    ensures
        node(res) == Node::Text(s@),
{
    Value::from(s)
}

/// `Value::from` an `i64`: that number.
#[verifier::external_body]
pub(crate) fn integer_value(n: i64) -> (res: Value)
    ensures
        node(res) == Node::Integer(n),
{
    Value::from(n)
}

/// `Value::from` a `bool`: that flag.
#[verifier::external_body]
pub(crate) fn bool_value(b: bool) -> (res: Value)
    ensures
        node(res) == Node::Bool(b),
{
    Value::from(b)
}

/// `Value::from` a list of values: the array of them.
#[verifier::external_body]
pub(crate) fn array_value(items: Vec<Value>) -> (res: Value)
    ensures
        node(res) == Node::Array(items@),
{
    Value::from(items)
}

/// `Value::from_iter` over pairs of key and value, of which no two have the same
/// key: the object that has these members.
#[verifier::external_body]
pub(crate) fn object_value(fields: Vec<(String, Value)>) -> (res: Value)
    requires
        keys_differ(fields@),
    ensures
        node(res) == Node::Object(members(fields@)),
{
    Value::from_iter(fields)
}

// ---------------------------------------------------------------------
// Fields of one kind
// ---------------------------------------------------------------------

/// The text under a key.
pub open spec fn text_field(v: Value, key: Seq<char>) -> Option<Seq<char>> {
    match field_of(v, key) {
        Some(f) => match node(f) {
            Node::Text(s) => Some(s),
            _ => None,
        },
        None => None,
    }
}

/// The integer under a key.
pub open spec fn integer_field(v: Value, key: Seq<char>) -> Option<i64> {
    match field_of(v, key) {
        Some(f) => match node(f) {
            Node::Integer(n) => Some(n),
            _ => None,
        },
        None => None,
    }
}

/// The flag under a key.
pub open spec fn bool_field(v: Value, key: Seq<char>) -> Option<bool> {
    match field_of(v, key) {
        Some(f) => match node(f) {
            Node::Bool(b) => Some(b),
            _ => None,
        },
        None => None,
    }
}

/// The items of the array under a key.
pub open spec fn array_field(v: Value, key: Seq<char>) -> Option<Seq<Value>> {
    match field_of(v, key) {
        Some(f) => match node(f) {
            Node::Array(items) => Some(items),
            _ => None,
        },
        None => None,
    }
}

/// The text under a key, or a text to use where there is none.
pub fn text_or(v: &Value, key: &str, otherwise: &str) -> (res: String)
    ensures
        res@ == (match text_field(*v, key@) {
            Some(s) => s,
            None => otherwise@,
        }),
{
    match field(v, key) {
        Some(f) => match f.as_str() {
            Some(s) => s.to_owned(),
            None => otherwise.to_owned(),
        },
        None => otherwise.to_owned(),
    }
}

/// The integer under a key, or one to use where there is none.
pub fn integer_or(v: &Value, key: &str, otherwise: i64) -> (res: i64)
    ensures
        res == (match integer_field(*v, key@) {
            Some(n) => n,
            None => otherwise,
        }),
{
    match field(v, key) {
        Some(f) => match f.as_i64() {
            Some(n) => n,
            None => otherwise,
        },
        None => otherwise,
    }
}

/// Whether the flag under a key is set.
pub fn flag_set(v: &Value, key: &str) -> (res: bool)
    ensures
        res == (bool_field(*v, key@) == Some(true)),
{
    match field(v, key) {
        Some(f) => match f.as_bool() {
            Some(b) => b,
            None => false,
        },
        None => false,
    }
}

/// The items of the array under a key.
pub fn items<'a>(v: &'a Value, key: &str) -> (res: Option<&'a Vec<Value>>)
    ensures
        match res {
            Some(list) => array_field(*v, key@) == Some(list@),
            None => array_field(*v, key@) is None,
        },
{
    match field(v, key) {
        Some(f) => f.as_array(),
        None => None,
    }
}

} // verus!

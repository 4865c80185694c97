//! A JSON document held as plain values, and its decoding from bytes.
use vstd::prelude::*;

use crate::snapshot::member_value;

verus! {

/// A JSON value. Object members keep the order in which the decoder gives them.
#[derive(Debug)]
pub enum JsonValue {
    Null,
    Bool(bool),
    /// A number, by its decimal text.
    Number(String),
    String(String),
    Array(Vec<JsonValue>),
    Object(Vec<JsonMember>),
}

/// A named member of a JSON object.
#[derive(Debug)]
pub struct JsonMember {
    pub name: String,
    pub value: JsonValue,
}

/// The lowercase hexadecimal digit of `n`, for `n` below 16.
pub open spec fn hex_digit(n: u32) -> u8 {
    if n < 10 {
        (0x30 + n) as u8
    } else {
        (0x57 + n) as u8
    }
}

/// A character inside a JSON string: `"` and `\` escaped by a backslash, a
/// control character below U+0020 as `\u00` and two lowercase hex digits, any
/// other character as its UTF-8 bytes.
pub open spec fn char_text(c: char) -> Seq<u8> {
    if c == '"' {
        seq![0x5cu8, 0x22u8]
    } else if c == '\\' {
        seq![0x5cu8, 0x5cu8]
    } else if (c as u32) < 0x20 {
        seq![0x5cu8, 0x75u8, 0x30u8, 0x30u8, hex_digit((c as u32) / 16), hex_digit((c as u32) % 16)]
    } else {
        vstd::utf8::encode_utf8(seq![c])
    }
}

/// The characters of a JSON string, each written by `char_text`.
pub open spec fn chars_text(s: Seq<char>) -> Seq<u8>
    decreases s.len(),
{
    if s.len() == 0 {
        Seq::empty()
    } else {
        chars_text(s.drop_last()) + char_text(s.last())
    }
}

/// A JSON string literal holding `s`.
pub open spec fn string_text(s: Seq<char>) -> Seq<u8> {
    seq![0x22u8] + chars_text(s) + seq![0x22u8]
}

/// The compact JSON text of a value: no white space, members in the order held,
/// numbers by their digits. Containers nested deeper than `depth` are not written.
pub open spec fn json_text(v: JsonValue, depth: nat) -> Seq<u8>
    decreases depth, 0nat,
{
    match v {
        JsonValue::Null => seq![0x6eu8, 0x75u8, 0x6cu8, 0x6cu8],
        JsonValue::Bool(b) => if b {
            seq![0x74u8, 0x72u8, 0x75u8, 0x65u8]
        } else {
            seq![0x66u8, 0x61u8, 0x6cu8, 0x73u8, 0x65u8]
        },
        JsonValue::Number(n) => vstd::utf8::encode_utf8(n@),
        JsonValue::String(s) => string_text(s@),
        JsonValue::Array(items) => if depth == 0 {
            Seq::empty()
        } else {
            seq![0x5bu8] + items_text(items@, (depth - 1) as nat) + seq![0x5du8]
        },
        JsonValue::Object(members) => if depth == 0 {
            Seq::empty()
        } else {
            seq![0x7bu8] + members_text(members@, (depth - 1) as nat) + seq![0x7du8]
        },
    }
}

/// The items of a JSON array, separated by commas.
pub open spec fn items_text(items: Seq<JsonValue>, depth: nat) -> Seq<u8>
    decreases depth, items.len(),
{
    if items.len() == 0 {
        Seq::empty()
    } else if items.len() == 1 {
        json_text(items[0], depth)
    } else {
        items_text(items.drop_last(), depth) + seq![0x2cu8] + json_text(items.last(), depth)
    }
}

/// The members of a JSON object, each as `"name":value`, separated by commas.
pub open spec fn members_text(members: Seq<JsonMember>, depth: nat) -> Seq<u8>
    decreases depth, members.len(),
{
    if members.len() == 0 {
        Seq::empty()
    } else {
        let last = string_text(members.last().name@) + seq![0x3au8] + json_text(members.last().value, depth);
        if members.len() == 1 {
            last
        } else {
            members_text(members.drop_last(), depth) + seq![0x2cu8] + last
        }
    }
}

/// A value whose compact text every JSON decoder reads back as it is: numbers
/// are 1 to 19 decimal digits without a leading zero, object member names are
/// distinct, and containers nest at most `depth` deep.
pub open spec fn canonical_json(v: JsonValue, depth: nat) -> bool
    decreases depth,
{
    match v {
        JsonValue::Number(n) => {
            &&& 1 <= n@.len() <= 19
            &&& forall|i: int| 0 <= i < n@.len() ==> '0' <= #[trigger] n@[i] && n@[i] <= '9'
            &&& n@.len() > 1 ==> n@[0] != '0'
        },
        JsonValue::Array(items) => {
            &&& depth > 0
            &&& forall|i: int|
                0 <= i < items@.len() ==> canonical_json(#[trigger] items@[i], (depth - 1) as nat)
        },
        JsonValue::Object(members) => {
            &&& depth > 0
            &&& forall|i: int, j: int|
                0 <= i < j < members@.len() ==> (#[trigger] members@[i]).name@ != (#[trigger] members@[j]).name@
            &&& forall|i: int|
                0 <= i < members@.len() ==> canonical_json(#[trigger] members@[i].value, (depth - 1) as nat)
        },
        _ => true,
    }
}

/// `x` is the same JSON value as `v`: the same kind, the same booleans, digits
/// and characters, arrays item by item, and objects with the same members by
/// name, whatever their order, down to `depth` levels of containers.
pub open spec fn json_same(x: JsonValue, v: JsonValue, depth: nat) -> bool
    decreases depth,
{
    match v {
        JsonValue::Null => x is Null,
        JsonValue::Bool(b) => x matches JsonValue::Bool(c) && c == b,
        JsonValue::Number(n) => x matches JsonValue::Number(m) && m@ == n@,
        JsonValue::String(s) => x matches JsonValue::String(t) && t@ == s@,
        JsonValue::Array(items) => {
            &&& depth > 0
            &&& x matches JsonValue::Array(xs)
            &&& xs@.len() == items@.len()
            &&& forall|i: int|
                0 <= i < items@.len() ==> json_same(#[trigger] xs@[i], items@[i], (depth - 1) as nat)
        },
        JsonValue::Object(members) => {
            &&& depth > 0
            &&& x matches JsonValue::Object(xs)
            &&& forall|key: Seq<char>|
                match #[trigger] member_value(members@, key) {
                    None => member_value(xs@, key) is None,
                    Some(mv) => member_value(xs@, key) matches Some(mx) && json_same(mx, mv, (depth - 1) as nat),
                }
        },
    }
}

/// The document that `serde_json` decodes from these bytes, or `None` when it
/// refuses them: they are not a JSON text, or they nest deeper than its
/// recursion limit (128 levels).
pub uninterp spec fn json_document(bytes: Seq<u8>) -> Option<JsonValue>;

/// `serde_json::from_slice::<serde_json::Value>`: decodes a JSON text; the result
/// is held as a `JsonValue`. Nothing is stated of the error beyond that it comes
/// exactly when `serde_json` refuses the bytes. Of the compact text of a value
/// whose numbers are plain unsigned integers of at most 19 digits, whose object
/// names are distinct and which nests at most 100 deep, it is stated that the
/// decoder accepts it and gives back that value: `serde_json` reads each literal,
/// escape and digit string so, keeps each member once under its name, and nests
/// up to 128 levels. The order of members in the result is left unsaid.
#[verifier::external_body]
pub(crate) fn decode_json(bytes: &[u8]) -> (res: Result<JsonValue, serde_json::Error>)
    ensures
        res is Ok <==> json_document(bytes@) is Some,
        res matches Ok(v) ==> json_document(bytes@) == Some(v),
        res is Err ==> forall|v: JsonValue| !(#[trigger] canonical_json(v, 100) && json_text(v, 100) == bytes@),
        res matches Ok(x) ==> forall|v: JsonValue|
            #[trigger] canonical_json(v, 100) && json_text(v, 100) == bytes@ ==> json_same(x, v, 100),
{
    serde_json::from_slice::<serde_json::Value>(bytes).map(json_from_tree)
}

/// Moves a decoded `serde_json::Value` into a `JsonValue`, variant by variant.
#[verifier::external_body]
fn json_from_tree(tree: serde_json::Value) -> JsonValue {
    match tree {
        serde_json::Value::Null => JsonValue::Null,
        serde_json::Value::Bool(b) => JsonValue::Bool(b),
        serde_json::Value::Number(n) => JsonValue::Number(n.to_string()),
        serde_json::Value::String(s) => JsonValue::String(s),
        serde_json::Value::Array(items) => JsonValue::Array(items.into_iter().map(json_from_tree).collect()),
        serde_json::Value::Object(members) => JsonValue::Object(
            members.into_iter().map(|(name, value)| JsonMember { name, value: json_from_tree(value) }).collect(),
        ),
    }
}

}

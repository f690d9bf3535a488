//! Compact JSON text of small flat objects (the `data_json` of timeline
//! events), written by `serde_json`.

use vstd::prelude::*;

use crate::model::hex_digit;
use crate::text::decimal;

verus! {

/// A JSON scalar of an event's data.
#[derive(Clone, Debug, PartialEq, Eq)]
pub enum JsonValue {
    Null,
    Str(String),
    Num(u64),
}

/// The escape sequence `serde_json` writes for one character of a string:
/// `\"`, `\\`, `\b`, `\t`, `\n`, `\f`, `\r`, `\u00XX` (lower-case hex) for
/// the other control characters below U+0020; any other character as is.
pub open spec fn json_escape_char(c: char) -> Seq<char> {
    let v = c as u32;
    if c == '"' {
        seq!['\\', '"']
    } else if c == '\\' {
        seq!['\\', '\\']
    } else if v == 8 {
        seq!['\\', 'b']
    } else if v == 9 {
        seq!['\\', 't']
    } else if v == 10 {
        seq!['\\', 'n']
    } else if v == 12 {
        seq!['\\', 'f']
    } else if v == 13 {
        seq!['\\', 'r']
    } else if v < 32 {
        seq!['\\', 'u', '0', '0', hex_digit((v / 16) as nat), hex_digit((v % 16) as nat)]
    } else {
        seq![c]
    }
}

/// The escaped contents of a JSON string.
pub open spec fn json_escape(s: Seq<char>) -> Seq<char>
    decreases s.len(),
{
    if s.len() == 0 {
        seq![]
    } else {
        json_escape(s.drop_last()) + json_escape_char(s.last())
    }
}

/// A JSON string literal.
pub open spec fn json_string(s: Seq<char>) -> Seq<char> {
    seq!['"'] + json_escape(s) + seq!['"']
}

/// The JSON text of a scalar: `null`, a string literal, or a decimal number.
pub open spec fn json_value_text(v: JsonValue) -> Seq<char> {
    match v {
        JsonValue::Null => "null"@,
        JsonValue::Str(s) => json_string(s@),
        JsonValue::Num(n) => decimal(n as nat),
    }
}

/// The members of an object as (key, JSON text of the value).
pub open spec fn member_texts(fields: Seq<(String, JsonValue)>) -> Seq<(Seq<char>, Seq<char>)> {
    fields.map_values(|f: (String, JsonValue)| (f.0@, json_value_text(f.1)))
}

/// The members `"key":value` of an object, joined by `,`.
pub open spec fn json_members(m: Seq<(Seq<char>, Seq<char>)>) -> Seq<char>
    decreases m.len(),
{
    if m.len() == 0 {
        seq![]
    } else if m.len() == 1 {
        json_string(m[0].0) + seq![':'] + m[0].1
    } else {
        json_members(m.drop_last()) + seq![','] + json_string(m.last().0) + seq![':'] + m.last().1
    }
}

/// The compact JSON text of an object with these members, in this order.
pub open spec fn json_object(m: Seq<(Seq<char>, Seq<char>)>) -> Seq<char> {
    seq!['{'] + json_members(m) + seq!['}']
}

/// `a` sorts strictly before `b`, character by character.
pub open spec fn text_less(a: Seq<char>, b: Seq<char>) -> bool {
    exists|k: int|
        0 <= k <= a.len() && k <= b.len() && a.subrange(0, k) == b.subrange(0, k) && ((k == a.len()
            && k < b.len()) || (k < a.len() && k < b.len() && (a[k] as u32) < (b[k] as u32)))
}

/// The keys are in strictly ascending order.
pub open spec fn keys_ascending(m: Seq<(Seq<char>, Seq<char>)>) -> bool {
    forall|i: int, j: int| 0 <= i < j < m.len() ==> text_less(m[i].0, m[j].0)
}

/// Writes a flat JSON object with `serde_json` (`Value::Object` of the
/// fields, shown with `Display`): compact, members in key order. With keys
/// given in ascending order the text is [`json_object`] of the fields, as the
/// writer escapes strings and prints integers.
#[verifier::external_body]
pub(crate) fn json_object_text(fields: Vec<(String, JsonValue)>) -> (r: String)
    requires
        keys_ascending(member_texts(fields@)),
    ensures
        r@ == json_object(member_texts(fields@)),
{
    let mut map = serde_json::Map::new();
    for (k, v) in fields {
        let value = match v {
            JsonValue::Null => serde_json::Value::Null,
            JsonValue::Str(s) => serde_json::Value::String(s),
            JsonValue::Num(n) => serde_json::Value::from(n),
        };
        map.insert(k, value);
    }
    serde_json::Value::Object(map).to_string()
}

} // verus!

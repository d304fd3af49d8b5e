//! A JSON document as the ld+json search reads it.

use crate::text::chars_of;
use vstd::prelude::*;

verus! {

/// A JSON value. Numbers keep their written form.
pub enum JsonValue {
    Null,
    Bool(bool),
    Number(String),
    String(String),
    Array(Vec<JsonValue>),
    Object(Vec<JsonMember>),
}

/// One member of a JSON object.
pub struct JsonMember {
    pub key: String,
    pub value: JsonValue,
}

/// The value of the first member named `key`.
pub open spec fn member_value(members: Seq<JsonMember>, key: Seq<char>) -> Option<JsonValue>
    decreases members.len(),
{
    if members.len() == 0 {
        None
    } else if members[0].key@ == key {
        Some(members[0].value)
    } else {
        member_value(members.drop_first(), key)
    }
}

/// The value of member `key` of an object; nothing for other values.
pub open spec fn get_spec(v: JsonValue, key: Seq<char>) -> Option<JsonValue> {
    match v {
        JsonValue::Object(m) => member_value(m@, key),
        _ => None,
    }
}

/// The value is the JSON string `text`.
pub open spec fn is_string_value(v: JsonValue, text: Seq<char>) -> bool {
    match v {
        JsonValue::String(s) => s@ == text,
        _ => false,
    }
}

/// The value type of `serde_json`, carried between its parser and printer
/// and the library's own `JsonValue`.
#[verifier::external_type_specification]
#[verifier::external_body]
pub struct ExJsonValue(serde_json::Value);

/// What `serde_json::from_str` reads from a text: the JSON value, or the
/// parser's message.
pub uninterp spec fn json_read(text: Seq<char>) -> Result<JsonValue, Seq<char>>;

/// The compact text that `serde_json` prints for a JSON value.
pub uninterp spec fn json_write(v: JsonValue) -> Seq<char>;

/// A `serde_json` value as a `JsonValue`, item for item and member for
/// member in `serde_json`'s order; a number as the text `serde_json`
/// prints for it.
#[verifier::external_body]
fn json_of(v: &serde_json::Value) -> JsonValue {
    match v {
        serde_json::Value::Null => JsonValue::Null,
        serde_json::Value::Bool(b) => JsonValue::Bool(*b),
        serde_json::Value::Number(n) => JsonValue::Number(n.to_string()),
        serde_json::Value::String(s) => JsonValue::String(s.clone()),
        serde_json::Value::Array(a) => JsonValue::Array(a.iter().map(json_of).collect()),
        serde_json::Value::Object(m) => JsonValue::Object(
            m.iter().map(|(k, x)| JsonMember { key: k.clone(), value: json_of(x) }).collect(),
        ),
    }
}

/// A `JsonValue` as a `serde_json` value, item for item and member for
/// member; a number read back from its text.
#[verifier::external_body]
fn value_of(v: &JsonValue) -> serde_json::Value {
    match v {
        JsonValue::Null => serde_json::Value::Null,
        JsonValue::Bool(b) => serde_json::Value::Bool(*b),
        JsonValue::Number(n) => serde_json::from_str(n).unwrap_or(serde_json::Value::Null),
        JsonValue::String(s) => serde_json::Value::String(s.clone()),
        JsonValue::Array(a) => serde_json::Value::Array(a.iter().map(value_of).collect()),
        JsonValue::Object(m) => serde_json::Value::Object(
            m.iter().map(|x| (x.key.clone(), value_of(&x.value))).collect(),
        ),
    }
}

/// Reads a JSON text with `serde_json::from_str::<serde_json::Value>`,
/// giving the value as a `JsonValue` or the error's message. The contract
/// claims that the result depends on the text alone (the name `json_read`),
/// and that an empty text is an error: `serde_json` finds no value in it
/// ("EOF while parsing a value"). What the value or the message is, is left
/// to the name.
#[verifier::external_body]
pub(crate) fn read_json(text: &str) -> (r: Result<JsonValue, String>)
    ensures
        match r {
            Ok(v) => json_read(text@) == Ok::<JsonValue, Seq<char>>(v),
            Err(m) => json_read(text@) == Err::<JsonValue, Seq<char>>(m@),
        },
        text@.len() == 0 ==> r is Err,
{
    serde_json::from_str::<serde_json::Value>(text).map(|v| json_of(&v)).map_err(|e| e.to_string())
}

/// Prints a JSON value compactly with `serde_json` (the `Display` of
/// `serde_json::Value`), after converting it to a `serde_json::Value`,
/// whose objects order their members by key. The contract claims that the
/// text depends on the value alone (the name `json_write`).
#[verifier::external_body]
pub(crate) fn write_json(v: &JsonValue) -> (r: String)
    ensures
        r@ == json_write(*v),
{
    value_of(v).to_string()
}

/// Whether two strings are equal.
pub fn text_eq(a: &str, b: &str) -> (r: bool)
    ensures
        r == (a@ == b@),
{
    let x = chars_of(a);
    let y = chars_of(b);
    if x.len() != y.len() {
        return false;
    }
    let mut i: usize = 0;
    while i < x.len()
        invariant
            i <= x.len() == y.len(),
            x@ == a@,
            y@ == b@,
            forall|k: int| 0 <= k < i ==> x@[k] == y@[k],
        decreases x.len() - i,
    {
        if x[i] != y[i] {
            assert(a@[i as int] != b@[i as int]);
            return false;
        }
        i = i + 1;
    }
    assert(x@ =~= y@);
    true
}

impl JsonValue {
    /// The value of member `key` of an object; nothing for other values.
    pub fn get(&self, key: &str) -> (r: Option<&JsonValue>)
        ensures
            match r {
                Some(v) => get_spec(*self, key@) == Some(*v),
                None => get_spec(*self, key@) is None,
            },
    {
        match self {
            JsonValue::Object(members) => {
                let mut i: usize = 0;
                assert(members@.subrange(0, members@.len() as int) =~= members@);
                while i < members.len()
                    invariant
                        i <= members.len(),
                        get_spec(*self, key@) == member_value(members@, key@),
                        member_value(members@, key@) == member_value(
                            members@.subrange(i as int, members@.len() as int),
                            key@,
                        ),
                    decreases members.len() - i,
                {
                    assert(members@.subrange(i as int, members@.len() as int).drop_first()
                        =~= members@.subrange(i + 1, members@.len() as int));
                    assert(members@.subrange(i as int, members@.len() as int)[0] == members@[i as int]);
                    if text_eq(members[i].key.as_str(), key) {
                        return Some(&members[i].value);
                    }
                    i = i + 1;
                }
                None
            },
            _ => None,
        }
    }

    /// Whether the value is an array.
    pub fn is_array(&self) -> (r: bool)
        ensures
            r == (*self is Array),
    {
        match self {
            JsonValue::Array(_) => true,
            _ => false,
        }
    }

    /// Whether the value is the JSON string `text`.
    pub fn is_string(&self, text: &str) -> (r: bool)
        ensures
            r == is_string_value(*self, text@),
    {
        match self {
            JsonValue::String(s) => text_eq(s.as_str(), text),
            _ => false,
        }
    }
}

} // verus!

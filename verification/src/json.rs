//! A JSON document as plain values, as the store reads it from Cursor's
//! databases.

use vstd::prelude::*;

verus! {

/// A parsed JSON value; object members keep the order of the parsed map.
#[derive(Debug)]
pub enum JsonValue {
    Null,
    Bool(bool),
    Number(String),
    Text(String),
    Array(Vec<JsonValue>),
    Object(Vec<JsonMember>),
}

/// One member of a JSON object.
#[derive(Debug)]
pub struct JsonMember {
    pub key: String,
    pub value: JsonValue,
}

/// The value of the first member named `key`.
pub open spec fn member(entries: Seq<JsonMember>, key: Seq<char>) -> Option<JsonValue>
    decreases entries.len(),
{
    if entries.len() == 0 {
        None
    } else if entries[0].key@ == key {
        Some(entries[0].value)
    } else {
        member(entries.drop_first(), key)
    }
}

impl JsonValue {
    /// The member `key` of an object; `None` for other values.
    pub open spec fn field(self, key: Seq<char>) -> Option<JsonValue> {
        match self {
            JsonValue::Object(entries) => member(entries@, key),
            _ => None,
        }
    }

    /// The text of a string value.
    pub open spec fn text(self) -> Option<Seq<char>> {
        match self {
            JsonValue::Text(s) => Some(s@),
            _ => None,
        }
    }

    /// The text of the member `key`, when it is a string.
    pub open spec fn field_text(self, key: Seq<char>) -> Option<Seq<char>> {
        match self.field(key) {
            Some(v) => v.text(),
            None => None,
        }
    }

    /// Looks up the member `key` (`serde_json::Value::get` with a string key).
    pub fn get(&self, key: &str) -> (r: Option<&JsonValue>)
        ensures
            match r {
                Some(v) => self.field(key@) == Some(*v),
                None => self.field(key@) is None,
            },
    {
        match self {
            JsonValue::Object(entries) => {
                let k = String::from_str(key);
                assert(self.field(key@) == member(entries@, key@));
                let mut i: usize = 0;
                assert(entries@.skip(0) =~= entries@);
                while i < entries.len()
                    invariant
                        i <= entries@.len(),
                        k@ == key@,
                        self.field(key@) == member(entries@, key@),
                        member(entries@, key@) == member(entries@.skip(i as int), key@),
                    decreases entries@.len() - i,
                {
                    assert(entries@.skip(i as int).drop_first() =~= entries@.skip(i + 1));
                    assert(entries@.skip(i as int)[0] == entries@[i as int]);
                    if entries[i].key == k {
                        assert(entries@.skip(i as int).len() > 0);
                        assert(member(entries@.skip(i as int), key@) == Some(entries@[i as int].value));
                        let v = &entries[i].value;
                        assert(*v == entries@[i as int].value);
                        return Some(v);
                    }
                    i = i + 1;
                }
                None
            },
            _ => None,
        }
    }

    /// The string value (`serde_json::Value::as_str`).
    pub fn as_str(&self) -> (r: Option<&String>)
        ensures
            match r {
                Some(s) => self.text() == Some(s@),
                None => self.text() is None,
            },
    {
        match self {
            JsonValue::Text(s) => Some(s),
            _ => None,
        }
    }

    /// The text of the member `key`, when it is a string.
    pub fn get_text(&self, key: &str) -> (r: Option<&String>)
        ensures
            match r {
                Some(s) => self.field_text(key@) == Some(s@),
                None => self.field_text(key@) is None,
            },
    {
        match self.get(key) {
            Some(v) => v.as_str(),
            None => None,
        }
    }
}

#[verifier::external_type_specification]
#[verifier::external_body]
pub struct ExSerdeJsonValue(serde_json::Value);

/// The JSON document that `bytes` hold, as `serde_json` parses them into a
/// `serde_json::Value` (objects as its default ordered map); `None` when the
/// bytes are not one JSON document.
pub uninterp spec fn json_document(bytes: Seq<u8>) -> Option<JsonValue>;

/// A `serde_json::Value` as plain values: each variant to the same variant,
/// numbers by their text, object members in the map's order.
#[verifier::external_body]
fn json_value_of(value: &serde_json::Value) -> JsonValue {
    match value {
        serde_json::Value::Null => JsonValue::Null,
        serde_json::Value::Bool(b) => JsonValue::Bool(*b),
        serde_json::Value::Number(n) => JsonValue::Number(n.to_string()),
        serde_json::Value::String(t) => JsonValue::Text(t.clone()),
        serde_json::Value::Array(items) => JsonValue::Array(items.iter().map(json_value_of).collect()),
        serde_json::Value::Object(map) => JsonValue::Object(
            map.iter().map(|(k, v)| JsonMember { key: k.clone(), value: json_value_of(v) }).collect(),
        ),
    }
}

/// Parses bytes with `serde_json::from_slice::<serde_json::Value>`. Trusted:
/// the result is claimed to be `json_document` of the bytes, a name for
/// what that parse gives, which depends on the bytes alone; nothing else is
/// claimed of it.
#[verifier::external_body]
pub(crate) fn parse_json(bytes: &[u8]) -> (r: Option<JsonValue>)
    ensures
        r == json_document(bytes@),
{
    serde_json::from_slice::<serde_json::Value>(bytes).ok().map(|v| json_value_of(&v))
}

/// The document of optional stored bytes: none without bytes.
pub open spec fn stored_document(raw: Option<Seq<u8>>) -> Option<JsonValue> {
    match raw {
        Some(b) => json_document(b),
        None => None,
    }
}

/// A stored JSON value as read from a database: its size in bytes and the
/// document it holds. Only `Payload::read` makes one, from the bytes.
#[derive(Debug)]
pub struct Payload {
    size: usize,
    document: Option<JsonValue>,
}

impl Payload {
    /// The size in bytes of the stored value, 0 when there is none.
    pub closed spec fn byte_len(&self) -> nat {
        self.size as nat
    }

    /// The document the stored value holds, when it parses.
    pub closed spec fn parsed(&self) -> Option<JsonValue> {
        self.document
    }

    /// Reads optional stored bytes.
    pub fn read(raw: Option<Vec<u8>>) -> (p: Payload)
        ensures
            p.byte_len() == match raw {
                Some(b) => b@.len(),
                None => 0,
            },
            p.parsed() == stored_document(match raw {
                Some(b) => Some(b@),
                None => None,
            }),
    {
        match raw {
            Some(b) => Payload { size: b.len(), document: parse_json(b.as_slice()) },
            None => Payload { size: 0, document: None },
        }
    }

    /// The document, when there is one.
    pub fn json(&self) -> (r: Option<&JsonValue>)
        ensures
            match r {
                Some(v) => self.parsed() == Some(*v),
                None => self.parsed() is None,
            },
    {
        match &self.document {
            Some(v) => Some(v),
            None => None,
        }
    }

    /// The size in bytes.
    pub fn size(&self) -> (r: usize)
        ensures
            r == self.byte_len(),
    {
        self.size
    }
}

} // verus!

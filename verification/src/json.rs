//! A plain model of JSON values, as the gateway and its messages read them, and
//! the decoding of the frames a client sends.
use vstd::prelude::*;

verus! {

/// A JSON value. Numbers keep the canonical text that the JSON codec prints for
/// them; object members are in the order the decoder lists them.
#[derive(Debug, PartialEq, Eq)]
pub enum JsonValue {
    Null,
    Bool(bool),
    Number(String),
    Str(String),
    Array(Vec<JsonValue>),
    Object(Vec<(String, JsonValue)>),
}

/// The value stored under `key` among `entries`: the first member with that key.
pub open spec fn member(entries: Seq<(String, JsonValue)>, key: Seq<char>) -> Option<JsonValue>
    decreases entries.len(),
{
    if entries.len() == 0 {
        None
    } else if entries[0].0@ == key {
        Some(entries[0].1)
    } else {
        member(entries.drop_first(), key)
    }
}

/// The string under the key `event` of an object, if there is one.
pub open spec fn event_of(v: JsonValue) -> Option<Seq<char>> {
    match v {
        JsonValue::Object(entries) => match member(entries@, "event"@) {
            Some(JsonValue::Str(s)) => Some(s@),
            _ => None,
        },
        _ => None,
    }
}

impl JsonValue {
    /// The member under `key` when this value is an object.
    pub open spec fn spec_get(self, key: Seq<char>) -> Option<JsonValue> {
        match self {
            JsonValue::Object(entries) => member(entries@, key),
            _ => None,
        }
    }

    /// Looks a key up among the members of an object; `None` for any other value.
    pub fn get(&self, key: &String) -> (r: Option<&JsonValue>)
        ensures
            match r {
                Some(v) => self.spec_get(key@) == Some(*v),
                None => self.spec_get(key@) is None,
            },
    {
        match self {
            JsonValue::Object(entries) => {
                let mut i: usize = 0;
                assert(entries@.skip(0) =~= entries@);
                while i < entries.len()
                    invariant
                        i <= entries.len(),
                        self.spec_get(key@) == member(entries@, key@),
                        member(entries@, key@) == member(entries@.skip(i as int), key@),
                    decreases entries.len() - i,
                {
                    assert(entries@.skip(i as int).drop_first() =~= entries@.skip(i + 1));
                    assert(entries@.skip(i as int)[0] == entries@[i as int]);
                    if entries[i].0 == *key {
                        assert(entries@[i as int].0@ == key@);
                        return Some(&entries[i].1);
                    }
                    i += 1;
                }
                None
            },
            _ => None,
        }
    }
}


/// A JSON value as `serde_json` holds it.
#[verifier::external_type_specification]
#[verifier::external_body]
pub struct ExSerdeValue(serde_json::Value);

/// The value that `serde_json` reads from a JSON text, if it is one.
pub uninterp spec fn json_text_value(text: Seq<char>) -> Option<JsonValue>;

/// The value that `ciborium` reads from CBOR bytes, if they encode one.
pub uninterp spec fn cbor_value(bytes: Seq<u8>) -> Option<JsonValue>;

/// Turns a `serde_json` value into a `JsonValue`, variant by variant; a
/// number keeps the text `serde_json` prints for it.
#[verifier::external_body]
fn json_of(v: &serde_json::Value) -> JsonValue {
    match v {
        serde_json::Value::Null => JsonValue::Null,
        serde_json::Value::Bool(b) => JsonValue::Bool(*b),
        serde_json::Value::Number(n) => JsonValue::Number(n.to_string()),
        serde_json::Value::String(t) => JsonValue::Str(t.clone()),
        serde_json::Value::Array(a) => JsonValue::Array(a.iter().map(json_of).collect()),
        serde_json::Value::Object(o) => JsonValue::Object(o.iter().map(|(k, x)| (k.clone(), json_of(x))).collect()),
    }
}

/// Calls `serde_json::from_str` for a `serde_json::Value` and converts the
/// result; the value is named by `json_text_value`, `None` when the text is not
/// JSON.
#[verifier::external_body]
fn parse_json_text(text: &str) -> (r: Option<JsonValue>)
    ensures
        r == json_text_value(text@),
{
    serde_json::from_str::<serde_json::Value>(text).ok().map(|v| json_of(&v))
}

/// Calls `ciborium::de::from_reader` for a `serde_json::Value` and converts the
/// result; the value is named by `cbor_value`, `None` when the bytes do not
/// decode.
#[verifier::external_body]
fn parse_cbor(bytes: &[u8]) -> (r: Option<JsonValue>)
    ensures
        r == cbor_value(bytes@),
{
    ciborium::de::from_reader::<serde_json::Value, _>(bytes).ok().map(|v| json_of(&v))
}

/// A frame received from a client connection.
pub enum Frame {
    /// A text frame.
    Text(String),
    /// A binary frame.
    Binary(Vec<u8>),
    /// A control frame (ping, pong, close).
    Other,
}

/// The message a frame carries: a text frame is read as JSON, a binary frame
/// as CBOR; a control frame, or one that does not decode, carries none.
pub fn decode_frame(f: Frame) -> (r: Option<JsonValue>)
    ensures
        match f {
            Frame::Text(t) => r == json_text_value(t@),
            Frame::Binary(b) => r == cbor_value(b@),
            Frame::Other => r is None,
        },
{
    match f {
        Frame::Text(t) => parse_json_text(t.as_str()),
        Frame::Binary(b) => parse_cbor(b.as_slice()),
        Frame::Other => None,
    }
}

} // verus!

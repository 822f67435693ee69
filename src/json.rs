use vstd::prelude::*;

verus! {

/// A JSON document as the library's contracts see it.
///
/// A number is held as the bit pattern of an IEEE-754 double, the numeric
/// representation of the scripting engine; an object holds its keys and its
/// values as two sequences of equal length, in insertion order.
pub enum Json {
    Null,
    Bool(bool),
    Number(u64),
    Str(Seq<char>),
    Array(Seq<Json>),
    Object(Seq<Seq<char>>, Seq<Json>),
}

/// One key and its value inside a JSON object.
#[derive(Debug, PartialEq)]
pub struct Member {
    pub key: String,
    pub value: JsonValue,
}

/// An executable JSON value.
#[derive(Debug, PartialEq)]
pub enum JsonValue {
    Null,
    Bool(bool),
    /// Bit pattern of an IEEE-754 double.
    Number(u64),
    Str(String),
    Array(Vec<JsonValue>),
    Object(Vec<Member>),
}

impl JsonValue {
    pub open spec fn model(&self) -> Json
        decreases self,
    {
        match self {
            JsonValue::Null => Json::Null,
            JsonValue::Bool(b) => Json::Bool(*b),
            JsonValue::Number(n) => Json::Number(*n),
            JsonValue::Str(s) => Json::Str(s@),
            JsonValue::Array(items) => Json::Array(
                Seq::new(items@.len(), |i: int| if 0 <= i < items@.len() { items@[i].model() } else { Json::Null }),
            ),
            JsonValue::Object(members) => Json::Object(
                Seq::new(members@.len(), |i: int| members@[i].key@),
                Seq::new(members@.len(), |i: int| if 0 <= i < members@.len() { members@[i].value.model() } else { Json::Null }),
            ),
        }
    }
}

} // verus!

use vstd::prelude::*;

use crate::text::str_equal;

verus! {

/// What the logic reads of a JSON number.
#[derive(Clone, Copy, Debug, PartialEq, Eq, Structural)]
pub struct JsonNumber {
    /// The number as an unsigned integer, when it is one (`serde_json::Value::as_u64`).
    pub as_u64: Option<u64>,
    /// The number rounded to the nearest integer (halves away from zero), when it is not
    /// negative; values beyond `u64::MAX` saturate.
    pub rounded_u64: Option<u64>,
}

/// A JSON document as the lyrics protocol reads it.
#[derive(Debug)]
pub enum JsonValue {
    Null,
    Bool(bool),
    Number(JsonNumber),
    Str(String),
    Array(Vec<JsonValue>),
    /// The members of an object, in document order; keys are distinct.
    Object(Vec<(String, JsonValue)>),
}

/// The value of the first member named `key`.
pub open spec fn member(entries: Seq<(String, JsonValue)>, key: Seq<char>) -> Option<JsonValue>
    decreases entries.len(),
{
    if entries.len() == 0 {
        None
    } else if entries[0].0@ == key {
        Some(entries[0].1)
    } else {
        member(entries.drop_first(), key)
    }
}

impl JsonValue {
    /// The number of members of an object.
    pub open spec fn spec_object_len(self) -> Option<nat> {
        match self {
            JsonValue::Object(entries) => Some(entries@.len()),
            _ => None,
        }
    }

    /// The member `key` of an object; `None` for other values or a missing key.
    pub open spec fn spec_get(self, key: Seq<char>) -> Option<JsonValue> {
        match self {
            JsonValue::Object(entries) => member(entries@, key),
            _ => None,
        }
    }

    /// The characters of a string value.
    pub open spec fn spec_as_str(self) -> Option<Seq<char>> {
        match self {
            JsonValue::Str(s) => Some(s@),
            _ => None,
        }
    }

    /// The elements of an array value.
    pub open spec fn spec_as_array(self) -> Option<Seq<JsonValue>> {
        match self {
            JsonValue::Array(a) => Some(a@),
            _ => None,
        }
    }

    pub open spec fn spec_as_bool(self) -> Option<bool> {
        match self {
            JsonValue::Bool(b) => Some(b),
            _ => None,
        }
    }

    pub open spec fn spec_as_u64(self) -> Option<u64> {
        match self {
            JsonValue::Number(n) => n.as_u64,
            _ => None,
        }
    }

    pub open spec fn spec_rounded_u64(self) -> Option<u64> {
        match self {
            JsonValue::Number(n) => n.rounded_u64,
            _ => None,
        }
    }

    /// The member `key` of an object.
    pub fn get(&self, key: &str) -> (r: Option<&JsonValue>)
        ensures
            match r {
                Some(v) => self.spec_get(key@) == Some(*v),
                None => self.spec_get(key@) is None,
            },
    {
        match self {
            JsonValue::Object(entries) => {
                let mut i: usize = 0;
                assert(entries@.subrange(0, entries@.len() as int) =~= entries@);
                while i < entries.len()
                    invariant
                        i <= entries@.len(),
                        self.spec_get(key@) == member(entries@, key@),
                        member(entries@, key@) == member(
                            entries@.subrange(i as int, entries@.len() as int),
                            key@,
                        ),
                    decreases entries.len() - i,
                {
                    let ghost tail = entries@.subrange(i as int, entries@.len() as int);
                    assert(tail[0] == entries@[i as int]);
                    if str_equal(entries[i].0.as_str(), key) {
                        return Some(&entries[i].1);
                    }
                    assert(tail.drop_first() =~= entries@.subrange(i + 1, entries@.len() as int));
                    i += 1;
                }
                None
            },
            _ => None,
        }
    }

    /// The text of a string value.
    pub fn as_str(&self) -> (r: Option<&str>)
        ensures
            match r {
                Some(s) => self.spec_as_str() == Some(s@),
                None => self.spec_as_str() is None,
            },
    {
        match self {
            JsonValue::Str(s) => Some(s.as_str()),
            _ => None,
        }
    }

    /// The elements of an array value.
    pub fn as_array(&self) -> (r: Option<&Vec<JsonValue>>)
        ensures
            match r {
                Some(a) => self.spec_as_array() == Some(a@),
                None => self.spec_as_array() is None,
            },
    {
        match self {
            JsonValue::Array(a) => Some(a),
            _ => None,
        }
    }

    /// A boolean value.
    pub fn as_bool(&self) -> (r: Option<bool>)
        ensures
            r == self.spec_as_bool(),
    {
        match self {
            JsonValue::Bool(b) => Some(*b),
            _ => None,
        }
    }

    /// A number that is an unsigned integer.
    pub fn as_u64(&self) -> (r: Option<u64>)
        ensures
            r == self.spec_as_u64(),
    {
        match self {
            JsonValue::Number(n) => n.as_u64,
            _ => None,
        }
    }

    /// A non-negative number, rounded to an integer.
    pub fn rounded_u64(&self) -> (r: Option<u64>)
        ensures
            r == self.spec_rounded_u64(),
    {
        match self {
            JsonValue::Number(n) => n.rounded_u64,
            _ => None,
        }
    }
}

} // verus!

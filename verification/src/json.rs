use vstd::prelude::*;
use crate::strutil::str_eq;

verus! {

/// The library's model of a parsed JSON document. Numbers that fit an
/// unsigned 64-bit integer are held exactly; any other number (negative,
/// fractional, or out of range) is `OtherNum`, which the metadata extraction
/// treats as absent, as the tool only reads unsigned supplies.
pub enum JsonValue {
    Null,
    Bool(bool),
    UInt(u64),
    OtherNum,
    Str(String),
    Arr(Vec<JsonValue>),
    Obj(Vec<(String, JsonValue)>),
}

#[verifier::external_type_specification]
#[verifier::external_body]
pub struct ExValue(serde_json::Value);

/// Whether a text is a well-formed JSON document, as the parser accepts it.
pub uninterp spec fn json_wf(s: Seq<char>) -> bool;

/// The library's model of the document a well-formed text parses to. Parsing
/// is deterministic, so the model is a function of the text alone.
pub uninterp spec fn json_model_of(s: Seq<char>) -> JsonValue;

/// The conversion arm of `parse_json`'s body, trusted with it as one
/// boundary. Relies on `serde_json::Value`: reads its six variants into the
/// library's model, one arm each, moving the fields; `Number::as_u64` tells
/// integers below 2^64 apart from every other number.
#[verifier::external_body]
fn model_of_value(v: &serde_json::Value) -> JsonValue {
    match v {
        serde_json::Value::Null => JsonValue::Null,
        serde_json::Value::Bool(b) => JsonValue::Bool(*b),
        serde_json::Value::Number(n) => match n.as_u64() {
            Some(u) => JsonValue::UInt(u),
            None => JsonValue::OtherNum,
        },
        serde_json::Value::String(s) => JsonValue::Str(s.clone()),
        serde_json::Value::Array(a) => JsonValue::Arr(a.iter().map(model_of_value).collect()),
        serde_json::Value::Object(m) => JsonValue::Obj(
            m.iter().map(|(k, x)| (k.clone(), model_of_value(x))).collect(),
        ),
    }
}

/// Relies on `serde_json::from_str::<Value>` (converted variant by variant
/// through `model_of_value` above): whether a text parses as JSON, and what
/// document it parses to, are functions of the text alone.
#[verifier::external_body]
pub(crate) fn parse_json(s: &str) -> (r: Option<JsonValue>)
    ensures
        r is Some <==> json_wf(s@),
        r matches Some(doc) ==> doc == json_model_of(s@),
{
    match serde_json::from_str::<serde_json::Value>(s) {
        Ok(v) => Some(model_of_value(&v)),
        Err(_) => None,
    }
}

/// The value under the first field named `key`, if any.
pub open spec fn obj_get(fields: Seq<(String, JsonValue)>, key: Seq<char>) -> Option<JsonValue>
    decreases fields.len(),
{
    if fields.len() == 0 {
        None
    } else if fields[0].0@ == key {
        Some(fields[0].1)
    } else {
        obj_get(fields.drop_first(), key)
    }
}

/// The value under `key` when `v` is an object holding that field.
pub open spec fn get_key(v: JsonValue, key: Seq<char>) -> Option<JsonValue> {
    match v {
        JsonValue::Obj(fields) => obj_get(fields@, key),
        _ => None,
    }
}

/// Defensive step: the value under `key`, when there is a value and it is an
/// object with that field.
pub open spec fn opt_get(o: Option<JsonValue>, key: Seq<char>) -> Option<JsonValue> {
    match o {
        Some(v) => get_key(v, key),
        None => None,
    }
}

/// Defensive step: the element at `i`, when there is a value and it is an
/// array long enough.
pub open spec fn opt_index(o: Option<JsonValue>, i: int) -> Option<JsonValue> {
    match o {
        Some(JsonValue::Arr(a)) => if 0 <= i < a@.len() {
            Some(a@[i])
        } else {
            None
        },
        _ => None,
    }
}

/// Defensive step: the characters of a string value, when the value is one.
pub open spec fn opt_str(o: Option<JsonValue>) -> Option<Seq<char>> {
    match o {
        Some(JsonValue::Str(s)) => Some(s@),
        _ => None,
    }
}

/// Defensive step: an unsigned integer value, when the value is one.
pub open spec fn opt_u64(o: Option<JsonValue>) -> Option<u64> {
    match o {
        Some(JsonValue::UInt(n)) => Some(n),
        _ => None,
    }
}

/// Looks a field up in an object value; `None` when `v` is not an object or
/// has no field of that name.
pub fn get_field<'a>(v: &'a JsonValue, key: &str) -> (r: Option<&'a JsonValue>)
    ensures
        match r {
            Some(x) => get_key(*v, key@) == Some(*x),
            None => get_key(*v, key@) is None,
        },
{
    match v {
        JsonValue::Obj(fields) => {
            let n = fields.len();
            proof {
                assert(fields@.skip(0) =~= fields@);
            }
            let mut i: usize = 0;
            while i < n
                invariant
                    n == fields@.len(),
                    i <= n,
                    get_key(*v, key@) == obj_get(fields@, key@),
                    obj_get(fields@, key@) == obj_get(fields@.skip(i as int), key@),
                decreases n - i,
            {
                let entry = &fields[i];
                proof {
                    assert(fields@.skip(i as int)[0] == fields@[i as int]);
                    assert(fields@.skip(i as int).drop_first() =~= fields@.skip(i + 1));
                }
                if str_eq(entry.0.as_str(), key) {
                    proof {
                        assert(obj_get(fields@.skip(i as int), key@) == Some(fields@[i as int].1));
                    }
                    return Some(&entry.1);
                }
                i = i + 1;
            }
            proof {
                assert(fields@.skip(n as int) =~= Seq::<(String, JsonValue)>::empty());
            }
            None
        },
        _ => None,
    }
}

} // verus!

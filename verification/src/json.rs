//! The library's own JSON tree. RDAP documents arrive as text; a trusted
//! bridge parses them through `serde_json` and rebuilds the tree in this
//! type, which all extraction logic reads as plain values.

use vstd::prelude::*;
use crate::strutil::str_eq;

verus! {

/// A JSON value: the shape the RDAP extraction rules work on. Object members
/// keep unique keys as `serde_json` delivers them; numbers carry their
/// decimal text, which none of the extraction rules read.
#[derive(Debug)]
pub enum Json {
    Null,
    Bool(bool),
    Num(String),
    Str(String),
    Arr(Vec<Json>),
    Obj(Vec<(String, Json)>),
}

/// First member with the given key, if any.
pub open spec fn spec_get_fields(fs: Seq<(String, Json)>, key: Seq<char>) -> Option<Json>
    decreases fs.len(),
{
    if fs.len() == 0 {
        None
    } else if fs[0].0@ == key {
        Some(fs[0].1)
    } else {
        spec_get_fields(fs.drop_first(), key)
    }
}

/// Member of an object under the given key; `None` when the value is not an
/// object or has no such member.
pub open spec fn spec_get(j: Json, key: Seq<char>) -> Option<Json> {
    match j {
        Json::Obj(fields) => spec_get_fields(fields@, key),
        _ => None,
    }
}

/// Looks a key up in a JSON value, as `spec_get` describes.
pub fn get_field<'a>(j: &'a Json, key: &str) -> (r: Option<&'a Json>)
    ensures
        match r {
            Some(x) => spec_get(*j, key@) == Some(*x),
            None => spec_get(*j, key@) is None,
        },
{
    match j {
        Json::Obj(fields) => {
            let n = fields.len();
            proof {
                assert(fields@.skip(0) =~= fields@);
            }
            for i in 0..n
                invariant
                    n == fields@.len(),
                    spec_get(*j, key@) == spec_get_fields(fields@.skip(i as int), key@),
            {
                let pair: &(String, Json) = &fields[i];
                proof {
                    assert(fields@.skip(i as int)[0] == fields@[i as int]);
                    assert(fields@.skip(i as int).drop_first() =~= fields@.skip(i + 1));
                }
                if str_eq(pair.0.as_str(), key) {
                    return Some(&pair.1);
                }
            }
            proof {
                assert(fields@.skip(n as int) =~= Seq::<(String, Json)>::empty());
            }
            None
        },
        _ => None,
    }
}

/// Parsed form of a JSON text, as `serde_json` reads it into a value tree;
/// absent exactly when the text is not valid JSON. A function of the text
/// alone.
pub uninterp spec fn json_of(text: Seq<char>) -> Option<Json>;

#[verifier::external_type_specification]
#[verifier::external_body]
pub struct ExValue(serde_json::Value);

/// Relies on the public variants of `serde_json::Value`: rebuilds a parsed
/// document as the library's own tree, variant for variant; a number keeps
/// its decimal text.
#[verifier::external_body]
fn json_of_value(v: serde_json::Value) -> Json {
    match v {
        serde_json::Value::Null => Json::Null,
        serde_json::Value::Bool(b) => Json::Bool(b),
        serde_json::Value::Number(n) => Json::Num(n.to_string()),
        serde_json::Value::String(s) => Json::Str(s),
        serde_json::Value::Array(a) => Json::Arr(a.into_iter().map(json_of_value).collect()),
        serde_json::Value::Object(o) => Json::Obj(
            o.into_iter().map(|(k, x)| (k, json_of_value(x))).collect(),
        ),
    }
}

/// Relies on `serde_json::from_str::<serde_json::Value>`: parses the text as
/// JSON, a function of the text alone; `None` exactly when the text is not
/// valid JSON.
#[verifier::external_body]
pub(crate) fn parse_json_text(text: &str) -> (r: Option<Json>)
    ensures
        r == json_of(text@),
{
    match serde_json::from_str::<serde_json::Value>(text) {
        Ok(v) => Some(json_of_value(v)),
        Err(_) => None,
    }
}

} // verus!

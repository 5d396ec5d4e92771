//! The library's model of a JSON document.
//!
//! Configuration payloads, cache envelopes and streamed backend chunks are
//! JSON. Parsing is delegated to an outside parser behind one trusted
//! wrapper; everything the logic reads out of a parsed document — object
//! fields, array elements, strings, booleans — is navigation over this tree
//! and is verified.

use vstd::prelude::*;

verus! {

/// A parsed JSON document. A number is carried as its JSON text: the logic
/// never computes with JSON numbers, it only reprints them.
pub enum JsonVal {
    Null,
    Bool(bool),
    Num(String),
    Str(String),
    Arr(Vec<JsonVal>),
    Obj(Vec<(String, JsonVal)>),
}

#[verifier::external_type_specification]
#[verifier::external_body]
pub struct ExSerdeValue(serde_json::Value);

/// What `serde_json::from_str` makes of a text: whether it parses, and the
/// document it denotes, depend on the text alone.
pub uninterp spec fn json_tree_of(s: Seq<char>) -> Option<JsonVal>;

/// Relies on serde_json::Value: maps each variant of a parsed document onto
/// the library's own tree, one arm per variant, moving the fields over.
#[verifier::external_body]
fn value_tree(v: &serde_json::Value) -> JsonVal {
    match v {
        serde_json::Value::Null => JsonVal::Null,
        serde_json::Value::Bool(b) => JsonVal::Bool(*b),
        serde_json::Value::Number(n) => JsonVal::Num(n.to_string()),
        serde_json::Value::String(s) => JsonVal::Str(s.clone()),
        serde_json::Value::Array(a) => JsonVal::Arr(a.iter().map(value_tree).collect()),
        serde_json::Value::Object(o) => JsonVal::Obj(
            o.iter().map(|(k, x)| (k.clone(), value_tree(x))).collect(),
        ),
    }
}

/// Relies on serde_json::from_str: parses a JSON document, or reports that
/// the text is not valid JSON.
#[verifier::external_body]
pub fn parse_json_tree(s: &str) -> (r: Option<JsonVal>)
    ensures
        r == json_tree_of(s@),
{
    match serde_json::from_str::<serde_json::Value>(s) {
        Ok(v) => Some(value_tree(&v)),
        Err(_) => None,
    }
}

/// The value under a key in an object's entry list: the first entry whose
/// key matches.
pub open spec fn obj_lookup(o: Seq<(String, JsonVal)>, k: Seq<char>) -> Option<JsonVal>
    decreases o.len(),
{
    if o.len() == 0 {
        None
    } else if o[0].0@ == k {
        Some(o[0].1)
    } else {
        obj_lookup(o.skip(1), k)
    }
}

fn obj_get_entries<'a>(entries: &'a Vec<(String, JsonVal)>, key: &str, i: usize) -> (r: Option<
    &'a JsonVal,
>)
    requires
        i <= entries@.len(),
    ensures
        match r {
            Some(v) => obj_lookup(entries@.skip(i as int), key@) == Some(*v),
            None => obj_lookup(entries@.skip(i as int), key@) is None,
        },
    decreases entries@.len() - i,
{
    if i >= entries.len() {
        proof {
            assert(entries@.skip(i as int) =~= Seq::<(String, JsonVal)>::empty());
        }
        return None;
    }
    proof {
        assert(entries@.skip(i as int)[0] == entries@[i as int]);
        assert(entries@.skip(i as int).skip(1) =~= entries@.skip(i as int + 1));
    }
    let pair = &entries[i];
    if crate::text::str_eq(pair.0.as_str(), key) {
        Some(&pair.1)
    } else {
        obj_get_entries(entries, key, i + 1)
    }
}

impl JsonVal {
    /// The value under a key, when this document is an object holding it.
    pub fn get<'a>(&'a self, key: &str) -> (r: Option<&'a JsonVal>)
        ensures
            match r {
                Some(v) => self matches JsonVal::Obj(o) && obj_lookup(o@, key@) == Some(*v),
                None => !(self matches JsonVal::Obj(o) && obj_lookup(o@, key@) is Some),
            },
    {
        match self {
            JsonVal::Obj(entries) => {
                proof {
                    assert(entries@.skip(0) =~= entries@);
                }
                obj_get_entries(entries, key, 0)
            },
            _ => None,
        }
    }

    /// The element at an index, when this document is an array long enough.
    pub fn at<'a>(&'a self, i: usize) -> (r: Option<&'a JsonVal>)
        ensures
            match r {
                Some(v) => self matches JsonVal::Arr(a) && i < a@.len() && *v == a@[i as int],
                None => !(self matches JsonVal::Arr(a) && i < a@.len()),
            },
    {
        match self {
            JsonVal::Arr(items) => {
                if i < items.len() {
                    Some(&items[i])
                } else {
                    None
                }
            },
            _ => None,
        }
    }

    /// The carried text, when this document is a string.
    pub fn as_str<'a>(&'a self) -> (r: Option<&'a String>)
        ensures
            match r {
                Some(s) => self matches JsonVal::Str(x) && x == *s,
                None => !(self matches JsonVal::Str(x)),
            },
    {
        match self {
            JsonVal::Str(s) => Some(s),
            _ => None,
        }
    }

    /// The carried truth value, when this document is a boolean.
    pub fn as_bool(&self) -> (r: Option<bool>)
        ensures
            match r {
                Some(b) => self matches JsonVal::Bool(x) && x == b,
                None => !(self matches JsonVal::Bool(x)),
            },
    {
        match self {
            JsonVal::Bool(b) => Some(*b),
            _ => None,
        }
    }
}

} // verus!

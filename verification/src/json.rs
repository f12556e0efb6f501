//! Reading fields of a JSON text: the string or boolean found by following a path of object
//! keys from the top-level value.

use vstd::prelude::*;

verus! {

/// The string found in the JSON text `text` by following the object keys of `path` from the
/// top-level value; none when the text is not JSON, a key is absent or not under an object, or
/// the value found is not a string.
pub uninterp spec fn json_str_at(text: Seq<char>, path: Seq<Seq<char>>) -> Option<Seq<char>>;

/// The boolean found in the JSON text `text` by following the object keys of `path`; none when
/// the text is not JSON, a key is absent or not under an object, or the value is not a boolean.
pub uninterp spec fn json_bool_at(text: Seq<char>, path: Seq<Seq<char>>) -> Option<bool>;

/// The texts of a path of keys.
pub open spec fn keys_view(path: Seq<&str>) -> Seq<Seq<char>> {
    path.map_values(|k: &str| k@)
}

/// `serde_json::from_str` into a `serde_json::Value`, then `Value::get` for each key of the
/// path in turn, then `Value::as_str`, the string copied out. The contract names the result
/// `json_str_at`; what JSON accepts and how keys are looked up are left to that name.
#[verifier::external_body]
pub(crate) fn json_str_at_exec(text: &str, path: &[&str]) -> (r: Option<String>)
    ensures
        match r {
            Some(s) => json_str_at(text@, keys_view(path@)) == Some(s@),
            None => json_str_at(text@, keys_view(path@)) is None,
        },
{
    let v: serde_json::Value = serde_json::from_str(text).ok()?;
    let mut cur = &v;
    for k in path {
        cur = cur.get(*k)?;
    }
    cur.as_str().map(|s| s.to_owned())
}

/// `serde_json::from_str` into a `serde_json::Value`, then `Value::get` for each key of the
/// path in turn, then `Value::as_bool`. The contract names the result `json_bool_at`.
#[verifier::external_body]
pub(crate) fn json_bool_at_exec(text: &str, path: &[&str]) -> (r: Option<bool>)
    ensures
        r == json_bool_at(text@, keys_view(path@)),
{
    let v: serde_json::Value = serde_json::from_str(text).ok()?;
    let mut cur = &v;
    for k in path {
        cur = cur.get(*k)?;
    }
    cur.as_bool()
}

/// The text of an optional string.
pub open spec fn opt_text(o: Option<String>) -> Option<Seq<char>> {
    match o {
        Some(s) => Some(s@),
        None => None,
    }
}


/// The first field of the JSON object in `text` (in the object's key order): its key, its
/// value's string when the value is a string, and its value's JSON text; none when the text is
/// not JSON, not an object, or an empty object.
pub uninterp spec fn json_first_field(text: Seq<char>) -> Option<(Seq<char>, Option<Seq<char>>, Seq<char>)>;

/// `serde_json::from_str` into a `serde_json::Value`, then `Value::as_object` and the map's
/// first entry by `iter().next()`: its key, its value's `Value::as_str` and its value's
/// `to_string`, each copied out. The contract names the result `json_first_field`.
#[verifier::external_body]
pub(crate) fn json_first_field_exec(text: &str) -> (r: Option<(String, Option<String>, String)>)
    ensures
        match r {
            Some((k, s, j)) => json_first_field(text@) == Some((k@, opt_text(s), j@)),
            None => json_first_field(text@) is None,
        },
{
    let v: serde_json::Value = serde_json::from_str(text).ok()?;
    let (k, x) = v.as_object()?.iter().next()?;
    Some((k.clone(), x.as_str().map(|s| s.to_owned()), x.to_string()))
}

/// The string under `key` of a JSON value: none when the value is not an object, the key is
/// absent, or its value is not a string.
pub uninterp spec fn json_field_str(v: serde_json::Value, key: Seq<char>) -> Option<Seq<char>>;

/// `Value::get` with the key, then `Value::as_str`, the string copied out. The contract names
/// the result `json_field_str`.
#[verifier::external_body]
pub(crate) fn value_str_field(v: &serde_json::Value, key: &str) -> (r: Option<String>)
    ensures
        opt_text(r) == json_field_str(*v, key@),
{
    v.get(key).and_then(|x| x.as_str()).map(|s| s.to_owned())
}

/// The JSON object with the single field `key` set to the boolean `flag`.
pub uninterp spec fn json_flag_object(key: Seq<char>, flag: bool) -> serde_json::Value;

/// `Value::from_iter` over the one pair of the key and the flag (an object holding that field).
/// The contract names the result `json_flag_object`.
#[verifier::external_body]
pub(crate) fn flag_object(key: &str, flag: bool) -> (v: serde_json::Value)
    ensures
        v == json_flag_object(key@, flag),
{
    serde_json::Value::from_iter([(key.to_owned(), flag)])
}

} // verus!

//! The trusted boundary around the TOML parser.
//!
//! Structured configuration (frontmatter headers, quiz definitions,
//! exercise configuration) is parsed by the outside `toml` crate. Every
//! read here goes from the document text to plain values, and every result
//! is named: it is a function of the document text alone, so the verified
//! deserializers above this boundary carry exact contracts over the names.

use vstd::prelude::*;

verus! {

/// Whether a text is a well-formed TOML document, named: `toml` decides it
/// as a function of the text alone.
pub uninterp spec fn toml_parses(s: Seq<char>) -> bool;

/// Whether the document's top-level table binds `key`.
pub uninterp spec fn toml_has_field(doc: Seq<char>, key: Seq<char>) -> bool;

/// The string bound to `key` at top level, if `key` is bound to a string.
pub uninterp spec fn toml_str_field(doc: Seq<char>, key: Seq<char>) -> Option<Seq<char>>;

/// The document's top-level keys, in table order.
pub uninterp spec fn toml_keys(doc: Seq<char>) -> Seq<Seq<char>>;

/// The length of the array bound to `key` at top level, if any.
pub uninterp spec fn toml_arr_len(doc: Seq<char>, key: Seq<char>) -> Option<int>;

/// Whether element `idx` of the array at `key` is a table binding `field`.
pub uninterp spec fn toml_arr_has(doc: Seq<char>, key: Seq<char>, idx: int, field: Seq<char>) -> bool;

/// The string at `field` of element `idx` of the array at `key`, if it is
/// a string.
pub uninterp spec fn toml_arr_str(doc: Seq<char>, key: Seq<char>, idx: int, field: Seq<char>) -> Option<
    Seq<char>,
>;

/// The boolean at `field` of element `idx` of the array at `key`, if it is
/// a boolean.
pub uninterp spec fn toml_arr_bool(doc: Seq<char>, key: Seq<char>, idx: int, field: Seq<char>) -> Option<
    bool,
>;

/// The string at `field` of the table bound to `key` at top level, if it
/// is a string.
pub uninterp spec fn toml_sub_str(doc: Seq<char>, key: Seq<char>, field: Seq<char>) -> Option<
    Seq<char>,
>;

/// The length of the array at `field` of the table bound to `key`, if any.
pub uninterp spec fn toml_sub_arr_len(doc: Seq<char>, key: Seq<char>, field: Seq<char>) -> Option<
    int,
>;

/// The string at index `idx` of the array at `field` of the table bound to
/// `key`, if it is a string.
pub uninterp spec fn toml_sub_arr_str(
    doc: Seq<char>,
    key: Seq<char>,
    field: Seq<char>,
    idx: int,
) -> Option<Seq<char>>;

/// Whether a text parses as a TOML document. Relies on `toml::Table`'s
/// `FromStr`: parsing succeeds or fails as a function of the text alone.
#[verifier::external_body]
pub fn check_toml(s: &str) -> (r: bool)
    ensures
        r == toml_parses(s@),
{
    s.parse::<toml::Table>().is_ok()
}

/// Reads the string bound to a top-level key. Relies on `toml::Table`'s
/// `FromStr`, `Map::get` and `Value::as_str`.
#[verifier::external_body]
pub fn read_str_field(s: &str, key: &str) -> (r: (bool, Option<String>))
    ensures
        r.0 == toml_has_field(s@, key@),
        r.1 is Some == toml_str_field(s@, key@) is Some,
        r.1 matches Some(v) ==> toml_str_field(s@, key@) == Some(v@),
        r.1 is Some ==> r.0,
        r.0 ==> toml_parses(s@),
{
    let t = match s.parse::<toml::Table>() {
        Ok(t) => t,
        Err(_) => return (false, None),
    };
    match t.get(key) {
        None => (false, None),
        Some(v) => (true, v.as_str().map(|x| x.to_owned())),
    }
}

/// Reads the document's top-level keys, in table order. Relies on
/// `toml::Table`'s `FromStr` and `Map::keys`.
#[verifier::external_body]
pub fn read_keys(s: &str) -> (r: Option<Vec<String>>)
    ensures
        r is Some == toml_parses(s@),
        r matches Some(ks) ==> ks@.map(|i: int, k: String| k@) == toml_keys(s@),
{
    match s.parse::<toml::Table>() {
        Ok(t) => Some(t.keys().map(|k: &String| k.clone()).collect()),
        Err(_) => None,
    }
}

/// Reads the length of the array bound to a top-level key. Relies on
/// `toml::Table`'s `FromStr`, `Map::get` and `Value::as_array`.
#[verifier::external_body]
pub fn read_arr_len(s: &str, key: &str) -> (r: Option<usize>)
    ensures
        r is Some == toml_arr_len(s@, key@) is Some,
        r matches Some(n) ==> toml_arr_len(s@, key@) == Some(n as int),
        r is Some ==> toml_parses(s@),
{
    let t = match s.parse::<toml::Table>() {
        Ok(t) => t,
        Err(_) => return None,
    };
    t.get(key).and_then(|v: &toml::Value| v.as_array()).map(|a: &Vec<toml::Value>| a.len())
}

/// Reads a string field of one element of the array at a top-level key.
/// Relies on `toml::Table`'s `FromStr`, `Value::get` and `Value::as_str`.
#[verifier::external_body]
pub fn read_arr_str_field(s: &str, key: &str, idx: usize, field: &str) -> (r: (bool, Option<String>))
    ensures
        r.0 == toml_arr_has(s@, key@, idx as int, field@),
        r.1 is Some == toml_arr_str(s@, key@, idx as int, field@) is Some,
        r.1 matches Some(v) ==> toml_arr_str(s@, key@, idx as int, field@) == Some(v@),
        r.1 is Some ==> r.0,
{
    let t = match s.parse::<toml::Table>() {
        Ok(t) => t,
        Err(_) => return (false, None),
    };
    let f = t.get(key).and_then(|v: &toml::Value| v.as_array()).and_then(
        |a: &Vec<toml::Value>| a.get(idx),
    ).and_then(|e: &toml::Value| e.get(field));
    match f {
        None => (false, None),
        Some(v) => (true, v.as_str().map(|x| x.to_owned())),
    }
}

/// Reads a boolean field of one element of the array at a top-level key.
/// Relies on `toml::Table`'s `FromStr`, `Value::get` and `Value::as_bool`.
#[verifier::external_body]
pub fn read_arr_bool_field(s: &str, key: &str, idx: usize, field: &str) -> (r: (bool, Option<bool>))
    ensures
        r.0 == toml_arr_has(s@, key@, idx as int, field@),
        r.1 is Some == toml_arr_bool(s@, key@, idx as int, field@) is Some,
        r.1 matches Some(v) ==> toml_arr_bool(s@, key@, idx as int, field@) == Some(v),
        r.1 is Some ==> r.0,
{
    let t = match s.parse::<toml::Table>() {
        Ok(t) => t,
        Err(_) => return (false, None),
    };
    let f = t.get(key).and_then(|v: &toml::Value| v.as_array()).and_then(
        |a: &Vec<toml::Value>| a.get(idx),
    ).and_then(|e: &toml::Value| e.get(field));
    match f {
        None => (false, None),
        Some(v) => (true, v.as_bool()),
    }
}

/// Reads a string field of the table bound to a top-level key. Relies on
/// `toml::Table`'s `FromStr`, `Value::get` and `Value::as_str`.
#[verifier::external_body]
pub fn read_sub_str_field(s: &str, key: &str, field: &str) -> (r: Option<String>)
    ensures
        r is Some == toml_sub_str(s@, key@, field@) is Some,
        r matches Some(v) ==> toml_sub_str(s@, key@, field@) == Some(v@),
{
    let t = match s.parse::<toml::Table>() {
        Ok(t) => t,
        Err(_) => return None,
    };
    t.get(key).and_then(|v: &toml::Value| v.get(field)).and_then(
        |f: &toml::Value| f.as_str(),
    ).map(|x| x.to_owned())
}

/// Reads the length of an array field of the table bound to a top-level
/// key. Relies on `toml::Table`'s `FromStr`, `Value::get` and
/// `Value::as_array`.
#[verifier::external_body]
pub fn read_sub_arr_len(s: &str, key: &str, field: &str) -> (r: Option<usize>)
    ensures
        r is Some == toml_sub_arr_len(s@, key@, field@) is Some,
        r matches Some(n) ==> toml_sub_arr_len(s@, key@, field@) == Some(n as int),
{
    let t = match s.parse::<toml::Table>() {
        Ok(t) => t,
        Err(_) => return None,
    };
    t.get(key).and_then(|v: &toml::Value| v.get(field)).and_then(
        |f: &toml::Value| f.as_array(),
    ).map(|a: &Vec<toml::Value>| a.len())
}

/// Reads one string element of an array field of the table bound to a
/// top-level key. Relies on `toml::Table`'s `FromStr`, `Value::get` and
/// `Value::as_str`.
#[verifier::external_body]
pub fn read_sub_arr_str(s: &str, key: &str, field: &str, idx: usize) -> (r: Option<String>)
    ensures
        r is Some == toml_sub_arr_str(s@, key@, field@, idx as int) is Some,
        r matches Some(v) ==> toml_sub_arr_str(s@, key@, field@, idx as int) == Some(v@),
{
    let t = match s.parse::<toml::Table>() {
        Ok(t) => t,
        Err(_) => return None,
    };
    t.get(key).and_then(|v: &toml::Value| v.get(field)).and_then(
        |f: &toml::Value| f.as_array(),
    ).and_then(|a: &Vec<toml::Value>| a.get(idx)).and_then(|e: &toml::Value| e.as_str()).map(
        |x| x.to_owned(),
    )
}

} // verus!

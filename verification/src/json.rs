//! A JSON document as the library reads it, and the parsing of JSON text.
use crate::text::str_eq;
use jzon::JsonValue;
use vstd::prelude::*;

verus! {

#[verifier::external_type_specification]
#[verifier::external_body]
pub struct ExJsonValue(jzon::JsonValue);

/// A JSON number as written: a sign, an integer mantissa and a decimal
/// exponent, so that its value is `mantissa * 10^exponent` (negated when
/// `positive` is false).
#[derive(Clone, Copy, Debug, PartialEq, Eq, Structural)]
pub struct JsonNumber {
    pub positive: bool,
    pub mantissa: u64,
    pub exponent: i16,
}

/// A JSON value. The entries of an object keep the order in which their
/// keys first appear in the text, and no key occurs twice.
#[derive(Debug)]
pub enum Json {
    Null,
    Bool(bool),
    Number(JsonNumber),
    Str(String),
    Array(Vec<Json>),
    Object(Vec<(String, Json)>),
}

/// The result of parsing a JSON text: the document, or the parser's error
/// message.
pub uninterp spec fn json_parse(text: Seq<char>) -> Result<Json, Seq<char>>;

/// Parses JSON text.
///
/// Trusted: calls `jzon::parse` and converts the document it returns, value
/// for value, into a `Json`; an error becomes its `Display` text. The
/// contract only names the result: parsing is a function of the text.
#[verifier::external_body]
pub(crate) fn parse(text: &str) -> (r: Result<Json, String>)
    ensures
        match r {
            Ok(v) => json_parse(text@) == Ok::<Json, Seq<char>>(v),
            Err(m) => json_parse(text@) == Err::<Json, Seq<char>>(m@),
        },
{
    match jzon::parse(text) {
        Ok(v) => Ok(json_from_jzon(v)),
        Err(e) => Err(e.to_string()),
    }
}

/// Converts a `jzon::JsonValue` into a `Json`, one variant for another: both
/// string variants become `Str`, a number keeps its parts, an object keeps
/// its entries in order.
#[verifier::external_body]
fn json_from_jzon(v: jzon::JsonValue) -> Json {
    match v {
        JsonValue::Null => Json::Null,
        JsonValue::Short(s) => Json::Str(s.as_str().to_string()),
        JsonValue::String(s) => Json::Str(s),
        JsonValue::Number(n) => {
            let (positive, mantissa, exponent) = n.as_parts();
            Json::Number(JsonNumber { positive, mantissa, exponent })
        },
        JsonValue::Boolean(b) => Json::Bool(b),
        JsonValue::Object(o) => Json::Object(o.iter().map(|(k, v)| (k.to_string(), json_from_jzon(v.clone()))).collect()),
        JsonValue::Array(a) => Json::Array(a.into_iter().map(json_from_jzon).collect()),
    }
}

/// An optional reference, read as an optional value.
pub open spec fn deref_opt(v: Option<&Json>) -> Option<Json> {
    match v {
        Some(x) => Some(*x),
        None => None,
    }
}

/// The value stored under `key` in the entries of an object.
pub open spec fn member(object: Seq<(String, Json)>, key: Seq<char>) -> Option<Json>
    decreases object.len(),
{
    if object.len() == 0 {
        None
    } else if object[0].0@ == key {
        Some(object[0].1)
    } else {
        member(object.drop_first(), key)
    }
}

/// Indexing a value by a key: the member of an object, nothing (JSON's
/// `null`) for a missing key or a value that is no object.
pub open spec fn index_of(v: Option<Json>, key: Seq<char>) -> Option<Json> {
    match v {
        Some(Json::Object(entries)) => member(entries@, key),
        _ => None,
    }
}

/// A number as an unsigned integer: only numbers without sign and exponent.
pub open spec fn number_u64(n: JsonNumber) -> Option<u64> {
    if n.positive && n.exponent == 0 {
        Some(n.mantissa)
    } else {
        None
    }
}

/// A number as a signed integer: numbers without exponent, the mantissa
/// taken as an `i64` (wrapping above `i64::MAX`) and negated when negative;
/// negating `i64::MIN` gives `i64::MIN`, which is the value of -2^63.
pub open spec fn number_i64(n: JsonNumber) -> Option<i64> {
    if n.exponent == 0 {
        if n.positive {
            Some(n.mantissa as i64)
        } else if n.mantissa as i64 == i64::MIN {
            Some(i64::MIN)
        } else {
            Some((-(n.mantissa as i64)) as i64)
        }
    } else {
        None
    }
}

pub open spec fn json_u64(v: Option<Json>) -> Option<u64> {
    match v {
        Some(Json::Number(n)) => number_u64(n),
        _ => None,
    }
}

pub open spec fn json_i64(v: Option<Json>) -> Option<i64> {
    match v {
        Some(Json::Number(n)) => number_i64(n),
        _ => None,
    }
}

pub open spec fn json_number(v: Option<Json>) -> Option<JsonNumber> {
    match v {
        Some(Json::Number(n)) => Some(n),
        _ => None,
    }
}

pub open spec fn json_str(v: Option<Json>) -> Option<String> {
    match v {
        Some(Json::Str(s)) => Some(s),
        _ => None,
    }
}

pub open spec fn json_bool(v: Option<Json>) -> Option<bool> {
    match v {
        Some(Json::Bool(b)) => Some(b),
        _ => None,
    }
}

/// Looks up a key in the entries of an object.
pub fn get<'a>(object: &'a Vec<(String, Json)>, key: &str) -> (v: Option<&'a Json>)
    ensures
        deref_opt(v) == member(object@, key@),
{
    let mut i: usize = 0;
    assert(object@.skip(0) =~= object@);
    while i < object.len()
        invariant
            i <= object@.len(),
            member(object@, key@) == member(object@.skip(i as int), key@),
        decreases object@.len() - i,
    {
        let ghost rest = object@.skip(i as int);
        assert(rest[0] == object@[i as int]);
        assert(rest.drop_first() =~= object@.skip(i + 1));
        if str_eq(object[i].0.as_str(), key) {
            return Some(&object[i].1);
        }
        i = i + 1;
    }
    assert(object@.skip(i as int).len() == 0);
    None
}

/// Indexes a value by a key (see `index_of`).
pub fn index<'a>(v: Option<&'a Json>, key: &str) -> (r: Option<&'a Json>)
    ensures
        deref_opt(r) == index_of(deref_opt(v), key@),
{
    match v {
        Some(Json::Object(entries)) => get(entries, key),
        _ => None,
    }
}

pub fn as_u64(v: Option<&Json>) -> (r: Option<u64>)
    ensures
        r == json_u64(deref_opt(v)),
{
    match v {
        Some(Json::Number(n)) => if n.positive && n.exponent == 0 {
            Some(n.mantissa)
        } else {
            None
        },
        _ => None,
    }
}

pub fn as_i64(v: Option<&Json>) -> (r: Option<i64>)
    ensures
        r == json_i64(deref_opt(v)),
{
    match v {
        Some(Json::Number(n)) => if n.exponent == 0 {
            let mantissa: u64 = n.mantissa;
            let m = mantissa as i64;
            if n.positive {
                Some(m)
            } else if m == i64::MIN {
                Some(i64::MIN)
            } else {
                Some(-m)
            }
        } else {
            None
        },
        _ => None,
    }
}

pub fn as_number(v: Option<&Json>) -> (r: Option<JsonNumber>)
    ensures
        r == json_number(deref_opt(v)),
{
    match v {
        Some(Json::Number(n)) => Some(*n),
        _ => None,
    }
}

/// The string held by a value, copied.
pub fn as_string(v: Option<&Json>) -> (r: Option<String>)
    ensures
        r == json_str(deref_opt(v)),
{
    match v {
        Some(Json::Str(s)) => Some(s.clone()),
        _ => None,
    }
}

pub fn as_bool(v: Option<&Json>) -> (r: Option<bool>)
    ensures
        r == json_bool(deref_opt(v)),
{
    match v {
        Some(Json::Bool(b)) => Some(*b),
        _ => None,
    }
}

pub fn as_object<'a>(v: Option<&'a Json>) -> (r: Option<&'a Vec<(String, Json)>>)
    ensures
        match deref_opt(v) {
            Some(Json::Object(entries)) => r == Some(&entries),
            _ => r is None,
        },
{
    match v {
        Some(Json::Object(entries)) => Some(entries),
        _ => None,
    }
}

pub fn as_array<'a>(v: Option<&'a Json>) -> (r: Option<&'a Vec<Json>>)
    ensures
        match deref_opt(v) {
            Some(Json::Array(items)) => r == Some(&items),
            _ => r is None,
        },
{
    match v {
        Some(Json::Array(items)) => Some(items),
        _ => None,
    }
}


/// Law: looking a key up gives the value of the first entry with that key,
/// and nothing when no entry has it.
pub proof fn lemma_member_first(object: Seq<(String, Json)>, key: Seq<char>)
    ensures
        forall|i: int|
            0 <= i < object.len() && (#[trigger] object[i]).0@ == key && (forall|j: int|
                0 <= j < i ==> object[j].0@ != key) ==> member(object, key) == Some(object[i].1),
        (forall|i: int| 0 <= i < object.len() ==> (#[trigger] object[i]).0@ != key) ==> member(
            object,
            key,
        ) is None,
    decreases object.len(),
{
    if object.len() > 0 {
        let rest = object.drop_first();
        lemma_member_first(rest, key);
        assert forall|i: int|
            0 <= i < object.len() && (#[trigger] object[i]).0@ == key && (forall|j: int|
                0 <= j < i ==> object[j].0@ != key) implies member(object, key) == Some(object[i].1) by {
            if i > 0 {
                assert(object[0].0@ != key);
                assert(rest[i - 1] == object[i]);
                assert forall|j: int| 0 <= j < i - 1 implies rest[j].0@ != key by {
                    assert(rest[j] == object[j + 1]);
                }
            }
        }
        if forall|i: int| 0 <= i < object.len() ==> (#[trigger] object[i]).0@ != key {
            assert(object[0].0@ != key);
            assert forall|i: int| 0 <= i < rest.len() implies (#[trigger] rest[i]).0@ != key by {
                assert(rest[i] == object[i + 1]);
            }
        }
    }
}

/// Law: a number reads as an unsigned integer exactly when it has no sign
/// and no exponent, and then as its mantissa; as a signed integer, a
/// number without exponent in the range of `i64` reads as its value.
pub proof fn lemma_number_integers(n: JsonNumber)
    ensures
        number_u64(n) is Some <==> (n.positive && n.exponent == 0),
        number_u64(n) is Some ==> number_u64(n) == Some(n.mantissa),
        n.exponent != 0 ==> number_i64(n) is None,
        n.exponent == 0 && n.positive && n.mantissa <= i64::MAX ==> number_i64(n) == Some(
            n.mantissa as i64,
        ),
        n.exponent == 0 && !n.positive && n.mantissa <= 0x8000_0000_0000_0000u64 ==> (number_i64(n)
            matches Some(v) && v == -(n.mantissa as int)),
{
    if n.exponent == 0 && !n.positive && n.mantissa <= 0x8000_0000_0000_0000u64 {
        let m = n.mantissa;
        if m == 0x8000_0000_0000_0000u64 {
            assert(m as i64 == i64::MIN) by (bit_vector)
                requires
                    m == 0x8000_0000_0000_0000u64,
            ;
        } else {
            assert(m as i64 == m as int) by (bit_vector)
                requires
                    m < 0x8000_0000_0000_0000u64,
            ;
        }
    }
    if n.exponent == 0 && n.positive && n.mantissa <= i64::MAX {
        let m = n.mantissa;
        assert(m as i64 == m as int) by (bit_vector)
            requires
                m <= 0x7fff_ffff_ffff_ffffu64,
        ;
    }
}

} // verus!

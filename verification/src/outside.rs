//! The calls into `uuid`, `chrono` and `serde_json`: fresh identifiers, the
//! current time, and the reading of JSON text.
use vstd::prelude::*;
use crate::json::{Json, JsonV};
use serde_json::Value;

verus! {

/// A lower-case hexadecimal digit.
pub open spec fn is_lower_hex(c: char) -> bool {
    ('0' <= c <= '9') || ('a' <= c <= 'f')
}

/// A digit that carries the RFC 4122 variant bits (`10xx`): 8, 9, a or b.
pub open spec fn is_variant_digit(c: char) -> bool {
    c == '8' || c == '9' || c == 'a' || c == 'b'
}

/// The simple form of a UUID: 32 lower-case hexadecimal digits.
pub open spec fn is_simple_uuid(s: Seq<char>) -> bool {
    s.len() == 32 && forall|i: int| 0 <= i < 32 ==> is_lower_hex(#[trigger] s[i])
}

/// The simple form of a random (version 4) UUID: its version digit (position
/// 12) is `4` and its variant digit (position 16) is 8, 9, a or b.
pub open spec fn is_v4_simple(s: Seq<char>) -> bool {
    is_simple_uuid(s) && s[12] == '4' && is_variant_digit(s[16])
}

/// The hyphenated form of a UUID: 36 characters, hyphens at positions 8, 13,
/// 18 and 23, lower-case hexadecimal digits everywhere else.
pub open spec fn is_hyphenated_uuid(s: Seq<char>) -> bool {
    &&& s.len() == 36
    &&& forall|i: int|
        0 <= i < 36 ==> if i == 8 || i == 13 || i == 18 || i == 23 {
            #[trigger] s[i] == '-'
        } else {
            is_lower_hex(s[i])
        }
}

/// The hyphenated form of a random (version 4) UUID: its version digit
/// (position 14) is `4` and its variant digit (position 19) is 8, 9, a or b.
pub open spec fn is_v4_hyphenated(s: Seq<char>) -> bool {
    is_hyphenated_uuid(s) && s[14] == '4' && is_variant_digit(s[19])
}

/// `uuid::Uuid::new_v4` rendered with `ToString`. The uuid crate fixes the
/// version bits to 4 and the variant bits to `10` (`v4.rs`, the mask in
/// `new_v4`) and writes the 16 bytes as lower-case hexadecimal digits in
/// groups of 8, 4, 4, 4 and 12 joined by hyphens (`fmt.rs`,
/// `format_hyphenated`). The random digits are not stated.
#[verifier::external_body]
pub(crate) fn new_v4_string() -> (r: String)
    ensures
        is_v4_hyphenated(r@),
{
    uuid::Uuid::new_v4().to_string()
}

/// `uuid::Uuid::new_v4` rendered in its simple form (`Uuid::simple`). The
/// uuid crate fixes the version bits to 4 and the variant bits to `10`
/// (`v4.rs`, the mask in `new_v4`) and writes the 16 bytes as 32 lower-case
/// hexadecimal digits (`fmt.rs`, `format_simple`). The random digits are not
/// stated.
#[verifier::external_body]
pub(crate) fn new_v4_simple_string() -> (r: String)
    ensures
        is_v4_simple(r@),
{
    uuid::Uuid::new_v4().simple().to_string()
}

/// `chrono::Utc::now().timestamp()`: the current time in seconds since the
/// Unix epoch. Nothing is promised of its value.
#[verifier::external_body]
pub(crate) fn utc_now_timestamp() -> i64 {
    chrono::Utc::now().timestamp()
}

#[verifier::external_type_specification]
#[verifier::external_body]
pub struct ExValue(serde_json::Value);

/// The document that `serde_json::from_str::<serde_json::Value>` reads from
/// `text`, or nothing when `text` is not a JSON document.
pub uninterp spec fn parsed_json(text: Seq<char>) -> Option<JsonV>;

/// `serde_json::from_str::<serde_json::Value>`: the document that `text`
/// holds, converted to a [`Json`], or nothing when serde_json refuses `text`.
/// Which texts it accepts and what it reads from them is serde_json's
/// grammar, named `parsed_json` here and not stated.
#[verifier::external_body]
pub(crate) fn parse_json(text: &str) -> (r: Option<Json>)
    ensures
        match r {
            Some(j) => parsed_json(text@) == Some(j@),
            None => parsed_json(text@) is None,
        },
{
    match serde_json::from_str::<serde_json::Value>(text) {
        Ok(v) => Some(json_of_value(&v)),
        Err(_) => None,
    }
}

/// A `serde_json::Value` as a [`Json`], variant for variant; integers that
/// fit an `i64` or a `u64` stay integers, other numbers keep their text.
#[verifier::external_body]
fn json_of_value(v: &Value) -> Json {
    match v {
        Value::Null => Json::Null,
        Value::Bool(b) => Json::Bool(*b),
        Value::Number(n) => match (n.as_u64(), n.as_i64()) {
            (Some(u), _) => Json::Int(u as i128),
            (None, Some(i)) => Json::Int(i as i128),
            _ => Json::Float(n.to_string()),
        },
        Value::String(t) => Json::Str(t.clone()),
        Value::Array(a) => Json::Array(a.iter().map(json_of_value).collect()),
        Value::Object(m) => Json::Object(
            m.iter().map(|(k, x)| (k.clone(), json_of_value(x))).collect(),
        ),
    }
}

} // verus!

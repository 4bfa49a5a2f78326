//! Reading the provider's JSON response bodies.
//!
//! The JSON grammar itself is serde_json's business.  Parsing is
//! deterministic, so what each extraction hands back is a function of the
//! body text alone; that result is given a name (`ip_field_of`,
//! `rrset_values_of`), and the library's coercion policies — absent member
//! to empty value, unparseable record body to "nothing known" — are
//! verified code on top of the named result.

use vstd::prelude::*;

verus! {

/// The `"ip"` member of a JSON document, when the document parses as JSON
/// and holds a string there; `None` otherwise.
pub uninterp spec fn ip_field_of(body: Seq<char>) -> Option<Seq<char>>;

/// Relies on `serde_json::from_str` and `serde_json::Value::{get, as_str}`:
/// the string under the `"ip"` member of the parsed JSON object; `None`
/// when the body is not valid JSON, the member is absent, or it is not a
/// string.  Parsing is deterministic, so the result depends on the body
/// text alone.
#[verifier::external_body]
fn extract_ip(body: &str) -> (r: Option<String>)
    ensures
        r.deep_view() == ip_field_of(body@),
{
    match serde_json::from_str::<serde_json::Value>(body) {
        Err(_) => None,
        Ok(v) => v.get("ip").and_then(|m| m.as_str()).map(|s| s.to_string()),
    }
}

/// The `"rrset_values"` member of a JSON document: the outer option is the
/// parse (`None` when the body is not valid JSON), the inner one the member
/// (`None` when it is absent or not an array); an array gives its elements,
/// each string kept as it stands and each non-string element as the empty
/// string, in order.
pub uninterp spec fn rrset_values_of(body: Seq<char>) -> Option<Option<Seq<Seq<char>>>>;

/// Relies on `serde_json::from_str` and `serde_json::Value::{get, as_array,
/// as_str}`, which compute exactly the layers `rrset_values_of` names.
/// Parsing is deterministic, so the result depends on the body text alone.
#[verifier::external_body]
fn extract_rrset_values(body: &str) -> (r: Option<Option<Vec<String>>>)
    ensures
        r.deep_view() == rrset_values_of(body@),
{
    match serde_json::from_str::<serde_json::Value>(body) {
        Err(_) => None,
        Ok(v) => Some(v.get("rrset_values").and_then(|m| m.as_array()).map(
            |elems| elems.iter().map(|e| e.as_str().unwrap_or("").to_string()).collect(),
        )),
    }
}

/// The `"ip"` member of a discovery response body, read as a string.  A
/// body that does not parse, has no such member, or holds a non-string
/// there gives the empty string: discovery never fails hard at the parse
/// step.
pub fn parse_ip_body(body: &str) -> (r: String)
    ensures
        r@ == (match ip_field_of(body@) {
            Option::Some(s) => s,
            Option::None => Seq::<char>::empty(),
        }),
{
    match extract_ip(body) {
        Option::Some(s) => s,
        Option::None => String::new(),
    }
}

/// The `"rrset_values"` member of a record response body, read as a vector
/// of strings.  `None` when the body is not valid JSON: nothing is then
/// known of the record, and the caller treats the pair as unreadable.  An
/// absent or non-array member coerces to the empty vector — to the caller
/// that is the same as an existing empty record, and both disable writing —
/// and a non-string element becomes the empty string.
pub fn parse_record_values(body: &str) -> (r: Option<Vec<String>>)
    ensures
        r.deep_view() == (match rrset_values_of(body@) {
            Option::None => Option::None,
            Option::Some(Option::None) => Option::Some(Seq::<Seq<char>>::empty()),
            Option::Some(Option::Some(vs)) => Option::Some(vs),
        }),
{
    match extract_rrset_values(body) {
        Option::None => Option::None,
        Option::Some(Option::None) => Option::Some(Vec::new()),
        Option::Some(Option::Some(vs)) => Option::Some(vs),
    }
}

} // verus!

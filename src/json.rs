use vstd::prelude::*;

verus! {

/// A JSON document as the search backend produces it, carried opaquely.
#[verifier::external_type_specification]
#[verifier::external_body]
pub struct ExValue(serde_json::Value);

/// The member of `v` under `key` as `Value`'s `Index<&str>` gives it.
pub uninterp spec fn json_member(v: serde_json::Value, key: Seq<char>) -> serde_json::Value;

/// The elements of `v` where it is an array, as `Value::as_array` gives them.
pub uninterp spec fn json_array(v: serde_json::Value) -> Option<Seq<serde_json::Value>>;

/// The text of `v` where it is a string, as `Value::as_str` gives it.
pub uninterp spec fn json_str(v: serde_json::Value) -> Option<Seq<char>>;

/// Relies on `serde_json::Value`'s `Index<&str>` impl: the member under
/// `key`, or `null` where the value is no object or has no such member.
#[verifier::external_body]
pub(crate) fn member(v: &serde_json::Value, key: &str) -> (r: serde_json::Value)
    ensures
        r == json_member(*v, key@),
{
    v[key].clone()
}

/// Relies on `serde_json::Value::as_array`: the elements of an array value.
#[verifier::external_body]
pub(crate) fn array_items(v: &serde_json::Value) -> (r: Option<Vec<serde_json::Value>>)
    ensures
        r is None <==> json_array(*v) is None,
        r matches Some(x) ==> json_array(*v) == Some(x@),
{
    v.as_array().cloned()
}

/// Relies on `serde_json::Value::as_str`: the text of a string value.
#[verifier::external_body]
pub(crate) fn string_value(v: &serde_json::Value) -> (r: Option<String>)
    ensures
        r is None <==> json_str(*v) is None,
        r matches Some(x) ==> json_str(*v) == Some(x@),
{
    v.as_str().map(str::to_owned)
}

} // verus!

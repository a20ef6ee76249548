//! The boundary to `serde_json`: reading the members of a JSON object and
//! writing a JSON string literal.
use crate::store::pairs_view;
use vstd::prelude::*;

verus! {

#[verifier::external_type_specification]
#[verifier::external_body]
pub struct ExJsonError(serde_json::Error);

/// What `serde_json` reads from `text`: `Err(())` where `text` is not valid
/// JSON, `Ok(None)` where it is JSON but not an object, and `Ok(Some(ps))` for
/// an object, `ps` being its members as the object's map yields them, each
/// value written back as compact JSON text.
pub uninterp spec fn json_object_members(text: Seq<char>) -> Result<
    Option<Seq<(Seq<char>, Seq<char>)>>,
    (),
>;

/// The JSON string literal that `serde_json` writes for `s`.
pub uninterp spec fn json_string_literal(s: Seq<char>) -> Seq<char>;

/// Relies on `serde_json::from_str` into a `Value` (which fails on malformed
/// text and keeps the last of repeated keys), on `Value::as_object` (only an
/// object has members) and on the `Display` of `Value` (compact JSON text).
#[verifier::external_body]
pub(crate) fn read_object_members(text: &str) -> (r: Result<
    Option<Vec<(String, String)>>,
    serde_json::Error,
>)
    ensures
        match r {
            Ok(Some(ps)) => json_object_members(text@) == Ok::<_, ()>(Some(pairs_view(ps@))),
            Ok(None) => json_object_members(text@) == Ok::<_, ()>(
                None::<Seq<(Seq<char>, Seq<char>)>>,
            ),
            Err(_) => json_object_members(text@) is Err,
        },
{
    let value: serde_json::Value = serde_json::from_str(text)?;
    match value.as_object() {
        Some(object) => {
            let mut members = Vec::new();
            for (key, member) in object {
                members.push((key.clone(), member.to_string()));
            }
            Ok(Some(members))
        },
        None => Ok(None),
    }
}

/// Relies on `serde_json::to_string` on a `str`: the quoted and escaped
/// literal. Serialising a string into memory has no failure case; the `Err`
/// arm is never taken.
#[verifier::external_body]
pub(crate) fn quote_json_string(s: &str) -> (r: String)
    ensures
        r@ == json_string_literal(s@),
{
    match serde_json::to_string(s) {
        Ok(literal) => literal,
        Err(_) => String::new(),
    }
}

} // verus!

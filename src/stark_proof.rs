//! The request contract: an identifier in, a proof document or a classified
//! failure out, and the response that a caller is sent for it.
use crate::json::{json_object_members, json_string_literal, quote_json_string};
use crate::store::{
    message_of, resource_view, store_from_resource, store_from_text, ProofError, ProofStore,
};
use vstd::prelude::*;

verus! {

/// What a request for `id` yields when the backing resource is `resource`.
pub open spec fn proof_outcome(id: Seq<char>, resource: Option<Seq<char>>) -> Result<
    Seq<char>,
    ProofError,
> {
    match store_from_resource(resource) {
        Err(e) => Err(e),
        Ok(m) => if m.contains_key(id) {
            Ok(m[id])
        } else {
            Err(ProofError::NotFound)
        },
    }
}

/// Loads the store from the backing resource and looks `id` up in it.
/// `resource` is the resource's text, `None` where it could not be read.
pub fn get_proof(id: &str, resource: Option<&str>) -> (r: Result<String, ProofError>)
    ensures
        match r {
            Ok(doc) => proof_outcome(id@, resource_view(resource)) == Ok::<_, ProofError>(doc@),
            Err(e) => proof_outcome(id@, resource_view(resource)) == Err::<Seq<char>, _>(e),
        },
{
    let store = ProofStore::load(resource)?;
    store.lookup(id)
}

/// The proof for `secret` as JSON text, or the message of the failure.
pub fn generate_proof_of_secret(secret: &str, resource: Option<&str>) -> (r: Result<
    String,
    String,
>)
    ensures
        match proof_outcome(secret@, resource_view(resource)) {
            Ok(doc) => r is Ok && r->Ok_0@ == doc,
            Err(e) => r is Err && r->Err_0@ == message_of(e),
        },
{
    match get_proof(secret, resource) {
        Ok(doc) => Ok(doc),
        Err(e) => Err(e.message()),
    }
}

/// A response as the caller receives it.
pub struct ProofResponse {
    /// The HTTP status code.
    pub status: u16,
    /// The body: a JSON value on success, plain text on failure.
    pub body: String,
}

/// The response for the outcome of a proof request: status 200 with the
/// document encoded as a JSON string, or status 500 with the failure message.
pub fn respond(outcome: &Result<String, String>) -> (r: ProofResponse)
    ensures
        match outcome {
            Ok(doc) => r.status == 200 && r.body@ == json_string_literal(doc@),
            Err(msg) => r.status == 500 && r.body@ == "Error generating proof: "@ + msg@,
        },
{
    match outcome {
        Ok(doc) => ProofResponse { status: 200, body: quote_json_string(doc.as_str()) },
        Err(msg) => ProofResponse {
            status: 500,
            body: String::from_str("Error generating proof: ").concat(msg.as_str()),
        },
    }
}

/// An identifier present in the store yields its stored document; the
/// outcome depends on the identifier and the store alone, so asking again
/// while the store is unchanged yields the same document.
pub proof fn law_present_identifier_found(text: Seq<char>, id: Seq<char>)
    requires
        store_from_text(text) is Ok,
        store_from_text(text)->Ok_0.contains_key(id),
    ensures
        proof_outcome(id, Some(text)) == Ok::<_, ProofError>(store_from_text(text)->Ok_0[id]),
{
}

/// An identifier absent from a store that loaded yields `NotFound`, never a
/// failure of the store itself.
pub proof fn law_absent_identifier_not_found(text: Seq<char>, id: Seq<char>)
    requires
        store_from_text(text) is Ok,
        !store_from_text(text)->Ok_0.contains_key(id),
    ensures
        proof_outcome(id, Some(text)) == Err::<Seq<char>, _>(ProofError::NotFound),
{
}

/// A backing resource that could not be read makes every request fail with
/// `StoreUnavailable`, whatever the identifier.
pub proof fn law_unreadable_resource(id: Seq<char>)
    ensures
        proof_outcome(id, None) == Err::<Seq<char>, _>(ProofError::StoreUnavailable),
{
}

/// A backing resource that is not valid JSON makes every request fail with
/// `StoreCorrupt`, whatever the identifier.
pub proof fn law_malformed_resource(text: Seq<char>, id: Seq<char>)
    requires
        json_object_members(text) is Err,
    ensures
        proof_outcome(id, Some(text)) == Err::<Seq<char>, _>(ProofError::StoreCorrupt),
{
}

/// Requests for two identifiers on one resource, one present and one absent,
/// each get their own outcome: the document of the first, `NotFound` for the
/// second.
pub proof fn law_independent_outcomes(text: Seq<char>, present: Seq<char>, absent: Seq<char>)
    requires
        store_from_text(text) is Ok,
        store_from_text(text)->Ok_0.contains_key(present),
        !store_from_text(text)->Ok_0.contains_key(absent),
    ensures
        proof_outcome(present, Some(text)) == Ok::<_, ProofError>(
            store_from_text(text)->Ok_0[present],
        ),
        proof_outcome(absent, Some(text)) == Err::<Seq<char>, _>(ProofError::NotFound),
{
}

} // verus!

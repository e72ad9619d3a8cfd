//! The message envelope of an invocation and its scope.
//!
//! What counts as an envelope is decided by
//! `greentic_types::ChannelMessageEnvelope`: the JSON of the message is
//! decoded as one and encoded again, so that the context holds the envelope
//! as that type writes it, and `null` should it not encode. The scope is
//! then read from that JSON.

use crate::capabilities::Capabilities;
use crate::failure::{InvokeFailure, InvokeFailureView};
use crate::json::{Json, JsonView};
use crate::value::{from_value, json_error_message, json_error_text, to_value, value_tree};
use crate::views::result_view;
use greentic_types::ChannelMessageEnvelope;
use serde_json::Value;
use vstd::prelude::*;

verus! {

/// `greentic_types::ChannelMessageEnvelope`, opaque to the verifier; see
/// [`encoded_envelope`].
#[verifier::external_type_specification]
#[verifier::external_body]
pub struct ExChannelMessageEnvelope(greentic_types::ChannelMessageEnvelope);

/// What `serde_json::to_value` makes of an envelope: its JSON form, or
/// nothing where it refuses the envelope.
pub uninterp spec fn encoded_envelope(envelope: ChannelMessageEnvelope) -> Option<JsonView>;

/// What a JSON tree decodes to as an envelope (`serde_json::from_value`),
/// given by what that envelope encodes to; or the message of the decoding
/// error.
pub uninterp spec fn decoded_envelope(tree: JsonView) -> Result<Option<JsonView>, Seq<char>>;

/// `serde_json::from_value` for a `ChannelMessageEnvelope`.
#[verifier::external_body]
fn decode_envelope(value: Value) -> (decoded: Result<ChannelMessageEnvelope, serde_json::Error>)
    ensures
        match decoded {
            Ok(envelope) => decoded_envelope(value_tree(value)) == Ok::<
                Option<JsonView>,
                Seq<char>,
            >(encoded_envelope(envelope)),
            Err(error) => decoded_envelope(value_tree(value)) == Err::<
                Option<JsonView>,
                Seq<char>,
            >(json_error_text(error)),
        },
{
    serde_json::from_value::<ChannelMessageEnvelope>(value)
}

/// `serde_json::to_value` of an envelope.
#[verifier::external_body]
fn encode_envelope(envelope: &ChannelMessageEnvelope) -> (encoded: Result<
    Value,
    serde_json::Error,
>)
    ensures
        match encoded {
            Ok(value) => encoded_envelope(*envelope) == Some(value_tree(value)),
            Err(_) => encoded_envelope(*envelope) is None,
        },
{
    serde_json::to_value(envelope)
}

/// The JSON form of an envelope in the context: what it encodes to, and
/// `null` for an envelope that does not encode.
pub open spec fn envelope_json(encoded: Option<JsonView>) -> JsonView {
    match encoded {
        Some(tree) => tree,
        None => JsonView::Null,
    }
}

/// Whether `value` is there and is a string that is not empty.
pub open spec fn is_identifier(value: Option<JsonView>) -> bool {
    value matches Some(JsonView::String(text)) && text.len() > 0
}

/// The member `key` of the tenant context of an envelope.
pub open spec fn tenant_member(msg: JsonView, key: Seq<char>) -> Option<JsonView> {
    match msg.member("tenant"@) {
        Some(tenant) => tenant.member(key),
        None => None,
    }
}

/// An envelope is in scope where its tenant, its environment and its
/// session are all named: `tenant.tenant_id`, `tenant.env` and `session_id`
/// are strings, none of them empty.
pub open spec fn in_scope(msg: JsonView) -> bool {
    &&& is_identifier(tenant_member(msg, "tenant_id"@))
    &&& is_identifier(tenant_member(msg, "env"@))
    &&& is_identifier(msg.member("session_id"@))
}

/// The message of the failure for an envelope that is out of scope.
pub open spec fn scope_message() -> Seq<char> {
    "the message envelope must name its tenant, environment and session"@
}

/// What admitting a message gives: the envelope as JSON, or the failure.
/// A message that is no envelope is invalid input; an envelope out of scope
/// fails where the scope guard is in force.
pub open spec fn admitted(capabilities: Capabilities, msg: JsonView) -> Result<
    JsonView,
    InvokeFailureView,
> {
    match decoded_envelope(msg) {
        Err(message) => Err(InvokeFailureView::InvalidInput(message)),
        Ok(encoded) => if capabilities.enforces_scope && !in_scope(envelope_json(encoded)) {
            Err(InvokeFailureView::InvalidScope(scope_message()))
        } else {
            Ok(envelope_json(encoded))
        },
    }
}

/// Whether `value` is there and is a string that is not empty.
fn names_something(value: Option<&Json>) -> (answer: bool)
    ensures
        answer == is_identifier(
            match value {
                Some(json) => Some(json@),
                None => None,
            },
        ),
{
    match value {
        Some(Json::String(text)) => !text.as_str().is_empty(),
        _ => false,
    }
}

/// The scope guard: passes an envelope that names its tenant, its
/// environment and its session, and fails any other with `InvalidScope`.
pub fn check_scope(msg: &Json) -> (checked: Result<(), InvokeFailure>)
    ensures
        checked is Ok <==> in_scope(msg@),
        checked matches Err(failure) ==> failure@ == InvokeFailureView::InvalidScope(
            scope_message(),
        ),
{
    let (tenant_id, environment_id) = match msg.get("tenant") {
        Some(tenant) => (tenant.get("tenant_id"), tenant.get("env")),
        None => (None, None),
    };
    if names_something(tenant_id) && names_something(environment_id) && names_something(
        msg.get("session_id"),
    ) {
        Ok(())
    } else {
        Err(
            InvokeFailure::InvalidScope(
                "the message envelope must name its tenant, environment and session".to_owned(),
            ),
        )
    }
}

/// Admits the message of an invocation: decodes it as an envelope, which
/// fails with `InvalidInput` and the decoder's message, and then, where the
/// scope guard is in force, holds the envelope to it. The result is the
/// envelope as JSON.
pub fn admit_envelope(capabilities: &Capabilities, msg: &Json) -> (admission: Result<
    Json,
    InvokeFailure,
>)
    ensures
        result_view(admission) == admitted(*capabilities, msg@),
{
    let envelope = match decode_envelope(to_value(msg)) {
        Ok(envelope) => envelope,
        Err(error) => {
            return Err(InvokeFailure::InvalidInput(json_error_message(&error)));
        },
    };
    let encoded = match encode_envelope(&envelope) {
        Ok(value) => from_value(value),
        Err(_) => Json::Null,
    };
    if !capabilities.enforces_scope {
        return Ok(encoded);
    }
    match check_scope(&encoded) {
        Ok(_) => Ok(encoded),
        Err(failure) => Err(failure),
    }
}


/// An envelope whose session is the empty string is out of scope.
pub proof fn law_empty_session_is_out_of_scope(envelope: JsonView)
    requires
        envelope.member("session_id"@) == Some(JsonView::String(Seq::empty())),
    ensures
        !in_scope(envelope),
{
}

/// Where the scope guard is in force, a message that decodes to an
/// envelope out of scope is not admitted: it fails with `InvalidScope`.
pub proof fn law_out_of_scope_is_not_admitted(
    capabilities: Capabilities,
    msg: JsonView,
    envelope: JsonView,
)
    requires
        capabilities.enforces_scope,
        decoded_envelope(msg) == Ok::<Option<JsonView>, Seq<char>>(Some(envelope)),
        !in_scope(envelope),
    ensures
        admitted(capabilities, msg) == Err::<JsonView, InvokeFailureView>(
            InvokeFailureView::InvalidScope(scope_message()),
        ),
{
}

/// What is admitted under the scope guard is in scope.
pub proof fn law_admitted_is_in_scope(capabilities: Capabilities, msg: JsonView)
    requires
        capabilities.enforces_scope,
        admitted(capabilities, msg) is Ok,
    ensures
        in_scope(admitted(capabilities, msg)->Ok_0),
{
}

} // verus!

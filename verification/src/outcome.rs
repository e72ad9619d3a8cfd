//! What an invocation returns: the result and the error inside it.

use crate::json::{put_member, Json, JsonView};
use crate::views::option_view;
use vstd::prelude::*;

verus! {

/// An error inside a result.
#[derive(Debug)]
pub struct ComponentError {
    /// The name of the kind of error.
    pub kind: String,
    /// The message for the caller.
    pub message: String,
    /// More about the error, for a machine.
    pub details: Option<Json>,
}

/// A [`ComponentError`] as plain values.
pub struct ComponentErrorView {
    pub kind: Seq<char>,
    pub message: Seq<char>,
    pub details: Option<JsonView>,
}

impl View for ComponentError {
    type V = ComponentErrorView;

    open spec fn view(&self) -> ComponentErrorView {
        ComponentErrorView {
            kind: self.kind@,
            message: self.message@,
            details: option_view(self.details),
        }
    }
}

/// The result of an invocation.
#[derive(Debug)]
pub struct ComponentResult {
    /// The rendered text, bare or nested; `null` with an error.
    pub payload: Json,
    /// What the flow is to change in its state; always an empty object.
    pub state_updates: Json,
    /// Where the flow is to go on.
    pub control: Option<Json>,
    /// The error, where rendering failed or the configuration was refused.
    pub error: Option<ComponentError>,
}

/// A [`ComponentResult`] as plain values.
pub struct ComponentResultView {
    pub payload: JsonView,
    pub state_updates: JsonView,
    pub control: Option<JsonView>,
    pub error: Option<ComponentErrorView>,
}

impl View for ComponentResult {
    type V = ComponentResultView;

    open spec fn view(&self) -> ComponentResultView {
        ComponentResultView {
            payload: self.payload@,
            state_updates: self.state_updates@,
            control: option_view(self.control),
            error: option_view(self.error),
        }
    }
}

/// The JSON form of an error: `kind` and `message`, and `details` where
/// there are any.
pub open spec fn error_tree(error: ComponentErrorView) -> JsonView {
    let named = Map::empty().insert("kind"@, JsonView::String(error.kind)).insert(
        "message"@,
        JsonView::String(error.message),
    );
    match error.details {
        Some(details) => JsonView::Object(named.insert("details"@, details)),
        None => JsonView::Object(named),
    }
}

/// The JSON form of a result: `payload` and `state_updates`, and `control`
/// and `error` where there are any.
pub open spec fn result_tree(result: ComponentResultView) -> JsonView {
    let plain = Map::empty().insert("payload"@, result.payload).insert(
        "state_updates"@,
        result.state_updates,
    );
    let directed = match result.control {
        Some(control) => plain.insert("control"@, control),
        None => plain,
    };
    match result.error {
        Some(error) => JsonView::Object(directed.insert("error"@, error_tree(error))),
        None => JsonView::Object(directed),
    }
}

/// The keys of the JSON forms differ from each other.
proof fn lemma_outcome_keys()
    ensures
        "kind"@.len() == 4,
        "message"@.len() == 7,
        "details"@.len() == 7,
        "message"@ != "details"@,
        "payload"@.len() == 7,
        "state_updates"@.len() == 13,
        "control"@.len() == 7,
        "error"@.len() == 5,
        "payload"@ != "control"@,
{
    reveal_strlit("kind");
    reveal_strlit("message");
    reveal_strlit("details");
    reveal_strlit("payload");
    reveal_strlit("state_updates");
    reveal_strlit("control");
    reveal_strlit("error");
    assert("message"@[0] != "details"@[0]);
    assert("payload"@[0] != "control"@[0]);
}

impl ComponentError {
    /// The JSON form of the error.
    pub fn to_json(&self) -> (json: Json)
        ensures
            json@ == error_tree(self@),
    {
        proof {
            lemma_outcome_keys();
        }
        let mut members: Vec<(String, Json)> = Vec::new();
        put_member(&mut members, "kind", Json::String(self.kind.clone()));
        put_member(&mut members, "message", Json::String(self.message.clone()));
        match &self.details {
            Some(details) => {
                put_member(&mut members, "details", details.clone());
            },
            None => {},
        }
        Json::Object(members)
    }
}

impl ComponentResult {
    /// The JSON form of the result.
    pub fn to_json(&self) -> (json: Json)
        ensures
            json@ == result_tree(self@),
    {
        proof {
            lemma_outcome_keys();
        }
        let mut members: Vec<(String, Json)> = Vec::new();
        put_member(&mut members, "payload", self.payload.clone());
        put_member(&mut members, "state_updates", self.state_updates.clone());
        match &self.control {
            Some(control) => {
                put_member(&mut members, "control", control.clone());
            },
            None => {},
        }
        match &self.error {
            Some(error) => {
                put_member(&mut members, "error", error.to_json());
            },
            None => {},
        }
        Json::Object(members)
    }
}

} // verus!

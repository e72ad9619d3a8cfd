//! The entry point: from the text of an invocation to the text of its
//! result.
//!
//! An invocation goes through these steps, and the first that fails ends
//! it: the operation must be the one that is offered; the input must be
//! JSON and hold an invocation; its message must be an envelope, in scope.
//! From there on there is always a result: a configuration that is refused
//! and a template that does not render give a result with an error.

use crate::capabilities::Capabilities;
use crate::config::{config_of, parse_config, TemplateConfig, TemplateConfigView};
use crate::context::{build_context, context_for};
use crate::engine::{
    component_error_of, render_template, template_outcome, TemplateError, TemplateErrorView,
};
use crate::envelope::{admit_envelope, admitted, decoded_envelope, in_scope, scope_message};
use crate::failure::{InvokeFailure, InvokeFailureView};
use crate::invocation::{invocation_of, read_invocation, Invocation, InvocationView};
use crate::json::{put_member, Json, JsonView};
use crate::outcome::{
    result_tree, ComponentError, ComponentErrorView, ComponentResult, ComponentResultView,
};
use crate::payload::{build_payload, shaped};
use crate::text::{blank, is_blank};
use crate::value::{json_text, parse_json, parsed_json, to_json_text};
use crate::views::result_view;
use vstd::prelude::*;
use vstd::string::StringExecFns;

verus! {

/// The one operation that is offered: `invoke`.
pub open spec fn supported_operation() -> Seq<char> {
    "invoke"@
}

/// The message of the failure for another operation; it names the
/// operation that was asked for and the one that is offered.
pub open spec fn unsupported_message(operation: Seq<char>) -> Seq<char> {
    "unsupported operation `"@ + operation + "`; the supported operation is `invoke`"@
}

/// The route that a result names where the configuration names none: `out`.
pub open spec fn default_route() -> Seq<char> {
    "out"@
}

/// The route that a result names: the configured one, or the default where
/// none is configured or the configured one is blank.
pub open spec fn route_of(routing: Option<Seq<char>>) -> Seq<char> {
    match routing {
        Some(route) => if blank(route) {
            default_route()
        } else {
            route
        },
        None => default_route(),
    }
}

/// The control of a result: the route under `routing`.
pub open spec fn control_of(routing: Option<Seq<char>>) -> JsonView {
    JsonView::Object(Map::empty().insert("routing"@, JsonView::String(route_of(routing))))
}

/// The result for the outcome of rendering. Rendered text is shaped into
/// the payload and the route is set; a template error leaves the payload
/// `null` and the control out.
pub open spec fn assembled(
    outcome: Result<Seq<char>, TemplateErrorView>,
    config: TemplateConfigView,
) -> ComponentResultView {
    match outcome {
        Ok(text) => ComponentResultView {
            payload: shaped(text, config.wrap, config.output_path),
            state_updates: JsonView::Object(Map::empty()),
            control: Some(control_of(config.routing)),
            error: None,
        },
        Err(error) => ComponentResultView {
            payload: JsonView::Null,
            state_updates: JsonView::Object(Map::empty()),
            control: None,
            error: Some(component_error_of(error)),
        },
    }
}

/// The result for a configuration that was refused with `message`.
pub open spec fn refused(message: Seq<char>) -> ComponentResultView {
    ComponentResultView {
        payload: JsonView::Null,
        state_updates: JsonView::Object(Map::empty()),
        control: None,
        error: Some(
            ComponentErrorView { kind: "InvalidInput"@, message: message, details: None },
        ),
    }
}

/// The result of an invocation whose message was admitted.
pub open spec fn responded(
    capabilities: Capabilities,
    invocation: InvocationView,
) -> ComponentResultView {
    match config_of(invocation.config) {
        Err(message) => refused(message),
        Ok(config) => assembled(
            template_outcome(config.text, context_for(capabilities, invocation)),
            config,
        ),
    }
}

/// The invocation with the admitted envelope in place of its message.
pub open spec fn with_envelope(invocation: InvocationView, envelope: JsonView) -> InvocationView {
    InvocationView {
        config: invocation.config,
        msg: envelope,
        payload: invocation.payload,
        state: invocation.state,
        node_id: invocation.node_id,
        connections: invocation.connections,
    }
}

/// What invoking `operation` on the text `input` returns: the JSON text of
/// the result, or the failure that ended the invocation.
pub open spec fn invoked(
    capabilities: Capabilities,
    operation: Seq<char>,
    input: Seq<char>,
) -> Result<Seq<char>, InvokeFailureView> {
    if operation != supported_operation() {
        Err(InvokeFailureView::UnsupportedOperation(unsupported_message(operation)))
    } else {
        match parsed_json(input) {
            Err(message) => Err(InvokeFailureView::InvalidInput(message)),
            Ok(root) => match invocation_of(root) {
                Err(message) => Err(InvokeFailureView::InvalidInput(message)),
                Ok(invocation) => match admitted(capabilities, invocation.msg) {
                    Err(failure) => Err(failure),
                    Ok(envelope) => Ok(
                        json_text(
                            result_tree(
                                responded(capabilities, with_envelope(invocation, envelope)),
                            ),
                        ),
                    ),
                },
            },
        }
    }
}

/// The route that a result names for `config`.
pub fn route(config: &TemplateConfig) -> (route: String)
    ensures
        route@ == route_of(config@.routing),
{
    match &config.routing {
        Some(routing) => {
            if is_blank(routing.as_str()) {
                "out".to_owned()
            } else {
                routing.clone()
            }
        },
        None => "out".to_owned(),
    }
}

/// Makes the result for the outcome of rendering a template.
pub fn assemble_result(outcome: Result<String, TemplateError>, config: &TemplateConfig) -> (result:
    ComponentResult)
    ensures
        result@ == assembled(result_view(outcome), config@),
{
    match outcome {
        Ok(text) => {
            let mut control: Vec<(String, Json)> = Vec::new();
            put_member(&mut control, "routing", Json::String(route(config)));
            ComponentResult {
                payload: build_payload(text.as_str(), config),
                state_updates: Json::empty_object(),
                control: Some(Json::Object(control)),
                error: None,
            }
        },
        Err(error) => ComponentResult {
            payload: Json::Null,
            state_updates: Json::empty_object(),
            control: None,
            error: Some(error.into_component_error()),
        },
    }
}

/// Makes the result for a configuration that was refused with `message`.
pub fn refuse_config(message: String) -> (result: ComponentResult)
    ensures
        result@ == refused(message@),
{
    ComponentResult {
        payload: Json::Null,
        state_updates: Json::empty_object(),
        control: None,
        error: Some(
            ComponentError { kind: "InvalidInput".to_owned(), message: message, details: None },
        ),
    }
}

/// Answers an invocation whose message was admitted: reads the
/// configuration, builds the context, renders the template and makes the
/// result.
pub fn respond(capabilities: &Capabilities, invocation: &Invocation) -> (result: ComponentResult)
    ensures
        result@ == responded(*capabilities, invocation@),
{
    match parse_config(&invocation.config) {
        Err(message) => refuse_config(message),
        Ok(config) => {
            let context = build_context(capabilities, invocation);
            let outcome = render_template(&config, &context);
            assemble_result(outcome, &config)
        },
    }
}

/// Whether `operation` is the one that is offered.
pub fn is_supported(operation: &str) -> (answer: bool)
    ensures
        answer == (operation@ == supported_operation()),
{
    operation.to_owned() == "invoke".to_owned()
}

/// The failure for an operation that is not offered.
pub fn unsupported(operation: &str) -> (failure: InvokeFailure)
    ensures
        failure@ == InvokeFailureView::UnsupportedOperation(unsupported_message(operation@)),
{
    let mut message = "unsupported operation `".to_owned();
    message.append(operation);
    message.append("`; the supported operation is `invoke`");
    InvokeFailure::UnsupportedOperation(message)
}

/// Renders the template of one invocation, with all capabilities.
///
/// `operation` must be `invoke`. `input` is the JSON text of the
/// invocation. The answer is the JSON text of the result, or the failure
/// that ended the invocation before there was one.
pub fn invoke_template(operation: &str, input: &str) -> (invoking: Result<String, InvokeFailure>)
    ensures
        result_view(invoking) == invoked(Capabilities::all(), operation@, input@),
{
    invoke_with(&Capabilities::full(), operation, input)
}

/// Renders the template of one invocation for a pipeline with the given
/// capabilities.
pub fn invoke_with(capabilities: &Capabilities, operation: &str, input: &str) -> (invoking: Result<
    String,
    InvokeFailure,
>)
    ensures
        result_view(invoking) == invoked(*capabilities, operation@, input@),
{
    if !is_supported(operation) {
        return Err(unsupported(operation));
    }
    let root = match parse_json(input) {
        Ok(root) => root,
        Err(message) => {
            return Err(InvokeFailure::InvalidInput(message));
        },
    };
    let invocation = match read_invocation(&root) {
        Ok(invocation) => invocation,
        Err(message) => {
            return Err(InvokeFailure::InvalidInput(message));
        },
    };
    let envelope = match admit_envelope(capabilities, &invocation.msg) {
        Ok(envelope) => envelope,
        Err(failure) => {
            return Err(failure);
        },
    };
    let admitted_invocation = Invocation {
        config: invocation.config,
        msg: envelope,
        payload: invocation.payload,
        state: invocation.state,
        node_id: invocation.node_id,
        connections: invocation.connections,
    };
    let result = respond(capabilities, &admitted_invocation);
    Ok(to_json_text(&result.to_json()))
}


/// Where the scope guard is in force, an invocation whose envelope is out
/// of scope ends with `InvalidScope`: there is no result, so nothing was
/// rendered.
pub proof fn law_out_of_scope_fails(
    capabilities: Capabilities,
    input: Seq<char>,
    root: JsonView,
    invocation: InvocationView,
    envelope: JsonView,
)
    requires
        capabilities.enforces_scope,
        parsed_json(input) == Ok::<JsonView, Seq<char>>(root),
        invocation_of(root) == Ok::<InvocationView, Seq<char>>(invocation),
        decoded_envelope(invocation.msg) == Ok::<Option<JsonView>, Seq<char>>(Some(envelope)),
        !in_scope(envelope),
    ensures
        invoked(capabilities, supported_operation(), input) == Err::<Seq<char>, InvokeFailureView>(
            InvokeFailureView::InvalidScope(scope_message()),
        ),
{
}

/// An operation other than the one that is offered fails with
/// `UnsupportedOperation`, whatever the input.
pub proof fn law_other_operations_fail(
    capabilities: Capabilities,
    operation: Seq<char>,
    input: Seq<char>,
)
    requires
        operation != supported_operation(),
    ensures
        invoked(capabilities, operation, input) == Err::<Seq<char>, InvokeFailureView>(
            InvokeFailureView::UnsupportedOperation(unsupported_message(operation)),
        ),
{
}

/// An invocation that was admitted always has a result: where the template
/// does not render, the result holds an error of kind `TemplateError` and a
/// `null` payload.
pub proof fn law_template_errors_are_results(
    capabilities: Capabilities,
    invocation: InvocationView,
    config: TemplateConfigView,
    error: TemplateErrorView,
)
    requires
        config_of(invocation.config) == Ok::<TemplateConfigView, Seq<char>>(config),
        template_outcome(config.text, context_for(capabilities, invocation)) == Err::<
            Seq<char>,
            TemplateErrorView,
        >(error),
    ensures
        responded(capabilities, invocation).payload == JsonView::Null,
        responded(capabilities, invocation).control is None,
        responded(capabilities, invocation).error is Some,
        responded(capabilities, invocation).error->0.kind == "TemplateError"@,
        responded(capabilities, invocation).error->0.message == error.message,
{
}

/// Without `wrap`, the payload of a result is the rendered text as a bare
/// string.
pub proof fn law_unwrapped_result(text: Seq<char>, config: TemplateConfigView)
    requires
        !config.wrap,
    ensures
        assembled(Ok(text), config).payload == JsonView::String(text),
        assembled(Ok(text), config).error is None,
{
}

/// Every result of an admitted invocation has one of two shapes: rendered
/// text with the route and no error, or an error with a `null` payload and
/// no route. It never asks for a change of the state.
pub proof fn law_result_shape(capabilities: Capabilities, invocation: InvocationView)
    ensures
        responded(capabilities, invocation).state_updates == JsonView::Object(Map::empty()),
        responded(capabilities, invocation).error is Some <==> responded(
            capabilities,
            invocation,
        ).payload is Null,
        responded(capabilities, invocation).error is Some <==> responded(
            capabilities,
            invocation,
        ).control is None,
{
}

} // verus!

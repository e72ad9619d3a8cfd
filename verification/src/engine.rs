//! The template engine.
//!
//! Templates are rendered by `handlebars`. The engine is made anew for each
//! template and is not strict: a path of the template that the context does
//! not have renders as nothing.
//!
//! A template can define a partial with the `inline` decorator, and such a
//! partial can include itself. The engine follows that without end, so a
//! template that holds the opening of a decorator is not handed to the
//! engine: it fails as a template that does not render.

use crate::config::TemplateConfig;
use crate::json::{decimal_text, number_from_index, put_member, Json, JsonView};
use crate::normalize::{normalize_template, normalized};
use crate::outcome::{ComponentError, ComponentErrorView};
use crate::text::chars_of;
use crate::value::{to_value, value_tree};
use crate::views::{option_view, result_view};
use handlebars::{Handlebars, RenderError};
use serde_json::Value;
use vstd::prelude::*;

verus! {

/// Why the engine did not render a template.
#[derive(Debug)]
pub struct RenderFailure {
    /// The message of the engine.
    pub message: String,
    /// The line of the template at which it failed, from 1, where known.
    pub line: Option<usize>,
    /// The column in that line, from 1, where known.
    pub column: Option<usize>,
}

/// A [`RenderFailure`] as plain values.
pub struct RenderFailureView {
    pub message: Seq<char>,
    pub line: Option<nat>,
    pub column: Option<nat>,
}

/// The view of an optional position.
pub open spec fn optional_position(position: Option<usize>) -> Option<nat> {
    match position {
        Some(position) => Some(position as nat),
        None => None,
    }
}

impl View for RenderFailure {
    type V = RenderFailureView;

    open spec fn view(&self) -> RenderFailureView {
        RenderFailureView {
            message: self.message@,
            line: optional_position(self.line),
            column: optional_position(self.column),
        }
    }
}

/// A character that may stand between the braces that open a tag and the
/// sign of a decorator: the tilde, the hash and white space.
pub open spec fn is_filler(c: char) -> bool {
    c == '~' || c == '#' || c == ' ' || c == '\t' || c == '\n' || c == '\r'
}

/// A tag is open at `upto`: it begins with `{{` at `at`, and only filler
/// lies between the braces and `upto`.
pub open spec fn tag_open(template: Seq<char>, at: int, upto: int) -> bool {
    &&& 0 <= at
    &&& at + 2 <= upto <= template.len()
    &&& template[at] == '{'
    &&& template[at + 1] == '{'
    &&& forall|k: int| at + 2 <= k < upto ==> is_filler(#[trigger] template[k])
}

/// A decorator opens at `at`, with its sign at `star`: `{{`, filler, `*`.
pub open spec fn decorator_at(template: Seq<char>, at: int, star: int) -> bool {
    &&& tag_open(template, at, star)
    &&& star < template.len()
    &&& template[star] == '*'
}

/// Whether a template holds the opening of a decorator.
pub open spec fn has_decorator(template: Seq<char>) -> bool {
    exists|at: int, star: int| decorator_at(template, at, star)
}

/// Whether `template` holds the opening of a decorator.
pub fn holds_decorator(template: &str) -> (answer: bool)
    ensures
        answer == has_decorator(template@),
{
    let chars = chars_of(template);
    let mut armed = false;
    let mut i: usize = 0;
    while i < chars.len()
        invariant
            i <= chars.len(),
            chars@ == template@,
            armed <==> exists|at: int| tag_open(chars@, at, i as int),
            forall|at: int, star: int| star < i ==> !decorator_at(chars@, at, star),
        decreases chars.len() - i,
    {
        let c = chars[i];
        if armed && c == '*' {
            proof {
                let at: int = choose|at: int| tag_open(chars@, at, i as int);
                assert(decorator_at(chars@, at, i as int));
            }
            return true;
        }
        let opens = c == '{' && i > 0 && chars[i - 1] == '{';
        let filler = c == '~' || c == '#' || c == ' ' || c == '\t' || c == '\n' || c == '\r';
        let ghost was_armed = armed;
        armed = opens || (armed && filler);
        proof {
            let next: int = i as int + 1;
            if opens {
                assert(tag_open(chars@, i as int - 1, next));
            } else if was_armed && filler {
                let at: int = choose|at: int| tag_open(chars@, at, i as int);
                assert(tag_open(chars@, at, next));
            } else {
                assert forall|at: int| !tag_open(chars@, at, next) by {
                    if tag_open(chars@, at, next) {
                        if at + 2 == next {
                            assert(chars@[at + 1] == '{');
                        } else {
                            assert(is_filler(chars@[i as int]));
                            assert(tag_open(chars@, at, i as int));
                        }
                    }
                }
            }
            assert forall|at: int, star: int| star < next implies !decorator_at(
                chars@,
                at,
                star,
            ) by {
                if star == i && decorator_at(chars@, at, star) {
                    assert(tag_open(chars@, at, i as int));
                }
            }
        }
        i += 1;
    }
    false
}

/// `handlebars::RenderError`, opaque to the verifier; see
/// [`render_failure`].
#[verifier::external_type_specification]
#[verifier::external_body]
pub struct ExRenderError(handlebars::RenderError);

/// The message of an error of the engine (`Display` of `RenderError`).
pub uninterp spec fn render_error_text(error: RenderError) -> Seq<char>;

/// The line that an error of the engine names (`RenderError::line_no`).
pub uninterp spec fn render_error_line(error: RenderError) -> Option<usize>;

/// The column that an error of the engine names
/// (`RenderError::column_no`).
pub uninterp spec fn render_error_column(error: RenderError) -> Option<usize>;

/// What an error of the engine says, as plain values.
pub open spec fn render_failure(error: RenderError) -> RenderFailureView {
    RenderFailureView {
        message: render_error_text(error),
        line: optional_position(render_error_line(error)),
        column: optional_position(render_error_column(error)),
    }
}

/// What a fresh `handlebars` engine that is not strict makes of a template
/// and a context: the rendered text, or what its error says.
pub uninterp spec fn rendered(template: Seq<char>, context: JsonView) -> Result<
    Seq<char>,
    RenderFailureView,
>;

/// `Handlebars::render_template` on a new registry with strict mode off.
/// A template with a decorator is left out: `inline` is the one decorator
/// of a new registry, and a partial that it defines may include itself,
/// which the engine follows without end.
#[verifier::external_body]
fn engine_render(template: &str, context: &Value) -> (rendering: Result<String, RenderError>)
    requires
        !has_decorator(template@),
    ensures
        match rendering {
            Ok(text) => rendered(template@, value_tree(*context)) == Ok::<
                Seq<char>,
                RenderFailureView,
            >(text@),
            Err(error) => rendered(template@, value_tree(*context)) == Err::<
                Seq<char>,
                RenderFailureView,
            >(render_failure(error)),
        },
{
    let mut engine = Handlebars::new();
    engine.set_strict_mode(false);
    engine.render_template(template, context)
}

/// `Display` of a `RenderError`: its message.
#[verifier::external_body]
fn render_error_message(error: &RenderError) -> (message: String)
    ensures
        message@ == render_error_text(*error),
{
    error.to_string()
}

/// The field `line_no` of a `RenderError`.
#[verifier::external_body]
fn render_error_line_no(error: &RenderError) -> (line: Option<usize>)
    ensures
        line == render_error_line(*error),
{
    error.line_no
}

/// The field `column_no` of a `RenderError`.
#[verifier::external_body]
fn render_error_column_no(error: &RenderError) -> (column: Option<usize>)
    ensures
        column == render_error_column(*error),
{
    error.column_no
}

impl RenderFailure {
    /// What an error of the engine says.
    pub fn of(error: &RenderError) -> (failure: RenderFailure)
        ensures
            failure@ == render_failure(*error),
    {
        RenderFailure {
            message: render_error_message(error),
            line: render_error_line_no(error),
            column: render_error_column_no(error),
        }
    }
}

/// A template that did not render, as it is reported.
#[derive(Debug)]
pub struct TemplateError {
    /// The message of the engine.
    pub message: String,
    /// The message again, with the line and the column where known.
    pub details: Option<Json>,
}

/// A [`TemplateError`] as plain values.
pub struct TemplateErrorView {
    pub message: Seq<char>,
    pub details: Option<JsonView>,
}

impl View for TemplateError {
    type V = TemplateErrorView;

    open spec fn view(&self) -> TemplateErrorView {
        TemplateErrorView {
            message: self.message@,
            details: option_view(self.details),
        }
    }
}

/// The details of a failure: the message under `error`, and the line and
/// the column, where known, under `line` and `column`.
pub open spec fn details_of(failure: RenderFailureView) -> JsonView {
    let told = Map::empty().insert("error"@, JsonView::String(failure.message));
    let placed = match failure.line {
        Some(line) => told.insert("line"@, JsonView::Number(decimal_text(line))),
        None => told,
    };
    match failure.column {
        Some(column) => JsonView::Object(
            placed.insert("column"@, JsonView::Number(decimal_text(column))),
        ),
        None => JsonView::Object(placed),
    }
}

/// The template error that reports a failure.
pub open spec fn template_error_of(failure: RenderFailureView) -> TemplateErrorView {
    TemplateErrorView { message: failure.message, details: Some(details_of(failure)) }
}

/// The error inside a result that reports a template error.
pub open spec fn component_error_of(error: TemplateErrorView) -> ComponentErrorView {
    ComponentErrorView { kind: "TemplateError"@, message: error.message, details: error.details }
}

/// The keys of the details differ from each other.
proof fn lemma_detail_keys()
    ensures
        "error"@.len() == 5,
        "line"@.len() == 4,
        "column"@.len() == 6,
{
    reveal_strlit("error");
    reveal_strlit("line");
    reveal_strlit("column");
}

impl TemplateError {
    /// Reports an error of the engine.
    pub fn from_render_error(error: RenderError) -> (reported: TemplateError)
        ensures
            reported@ == template_error_of(render_failure(error)),
    {
        TemplateError::from_failure(RenderFailure::of(&error))
    }

    /// Reports a failure to render.
    pub fn from_failure(failure: RenderFailure) -> (error: TemplateError)
        ensures
            error@ == template_error_of(failure@),
    {
        proof {
            lemma_detail_keys();
        }
        let mut details: Vec<(String, Json)> = Vec::new();
        put_member(&mut details, "error", Json::String(failure.message.clone()));
        if let Some(line) = failure.line {
            put_member(&mut details, "line", Json::Number(number_from_index(line)));
        }
        if let Some(column) = failure.column {
            put_member(&mut details, "column", Json::Number(number_from_index(column)));
        }
        TemplateError { message: failure.message, details: Some(Json::Object(details)) }
    }

    /// The error inside a result, of kind `TemplateError`.
    pub fn into_component_error(self) -> (error: ComponentError)
        ensures
            error@ == component_error_of(self@),
    {
        ComponentError {
            kind: "TemplateError".to_owned(),
            message: self.message,
            details: self.details,
        }
    }
}

/// The failure for a template that holds a decorator.
pub open spec fn decorator_failure() -> RenderFailureView {
    RenderFailureView {
        message: "templates with decorators are not rendered"@,
        line: None,
        column: None,
    }
}

/// What rendering a template against a context gives: the bare
/// placeholders are rewritten; a template that then holds a decorator
/// fails; any other is rendered by the engine.
pub open spec fn template_outcome(template: Seq<char>, context: JsonView) -> Result<
    Seq<char>,
    TemplateErrorView,
> {
    if has_decorator(normalized(template)) {
        Err(template_error_of(decorator_failure()))
    } else {
        match rendered(normalized(template), context) {
            Ok(text) => Ok(text),
            Err(failure) => Err(template_error_of(failure)),
        }
    }
}

/// Renders the template of `config` against `context`: rewrites the bare
/// placeholders, then hands the template to the engine, unless it holds a
/// decorator.
pub fn render_template(config: &TemplateConfig, context: &Json) -> (outcome: Result<
    String,
    TemplateError,
>)
    ensures
        result_view(outcome) == template_outcome(config@.text, context@),
{
    let template = normalize_template(config.text.as_str());
    if holds_decorator(template.as_str()) {
        return Err(
            TemplateError::from_failure(
                RenderFailure {
                    message: "templates with decorators are not rendered".to_owned(),
                    line: None,
                    column: None,
                },
            ),
        );
    }
    let data = to_value(context);
    match engine_render(template.as_str(), &data) {
        Ok(text) => Ok(text),
        Err(error) => Err(TemplateError::from_render_error(error)),
    }
}

} // verus!

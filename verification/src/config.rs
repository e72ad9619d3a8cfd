//! The configuration of the template operation, read from JSON.

use crate::json::{Json, JsonView};
use crate::views::{option_view, result_view};
use vstd::prelude::*;

verus! {

/// What the operation is configured with.
#[derive(Debug)]
pub struct TemplateConfig {
    /// The template; never empty in a configuration that was accepted.
    pub text: String,
    /// Where in the payload the rendered text goes, as a dotted path.
    pub output_path: Option<String>,
    /// Whether the rendered text is nested under the output path.
    pub wrap: bool,
    /// The route that the result names.
    pub routing: Option<String>,
}

/// A [`TemplateConfig`] as plain values.
pub struct TemplateConfigView {
    pub text: Seq<char>,
    pub output_path: Option<Seq<char>>,
    pub wrap: bool,
    pub routing: Option<Seq<char>>,
}

impl View for TemplateConfig {
    type V = TemplateConfigView;

    open spec fn view(&self) -> TemplateConfigView {
        TemplateConfigView {
            text: self.text@,
            output_path: option_view(self.output_path),
            wrap: self.wrap,
            routing: option_view(self.routing),
        }
    }
}

/// Whether rendered text is nested under the output path when the
/// configuration does not say.
pub fn default_wrap() -> (wrap: bool)
    ensures
        wrap,
{
    true
}

/// The member of a configuration that holds the template: `text`, or
/// `template` where there is no `text`.
pub open spec fn template_member(config: JsonView) -> Option<JsonView> {
    match config.member("text"@) {
        Some(template) => Some(template),
        None => config.member("template"@),
    }
}

/// The `wrap` member: absent is the default; anything but a boolean is
/// refused.
pub open spec fn wrap_member(config: JsonView) -> Result<bool, ()> {
    match config.member("wrap"@) {
        None => Ok(true),
        Some(JsonView::Bool(wrap)) => Ok(wrap),
        Some(_) => Err(()),
    }
}

/// The configuration that a JSON value holds, or why it holds none.
pub open spec fn config_of(config: JsonView) -> Result<TemplateConfigView, Seq<char>> {
    if !(config is Object) {
        Err("config must be an object"@)
    } else if template_member(config) is None {
        Err("config is missing the template text"@)
    } else if template_member(config)->0.text() is None {
        Err("the template text must be a string"@)
    } else if template_member(config)->0.text()->0.len() == 0 {
        Err("the template text must not be empty"@)
    } else if config.optional_member("output_path"@) is Err {
        Err("output_path must be a string"@)
    } else if wrap_member(config) is Err {
        Err("wrap must be a boolean"@)
    } else if config.optional_member("routing"@) is Err {
        Err("routing must be a string"@)
    } else {
        Ok(
            TemplateConfigView {
                text: template_member(config)->0.text()->0,
                output_path: config.optional_member("output_path"@)->Ok_0,
                wrap: wrap_member(config)->Ok_0,
                routing: config.optional_member("routing"@)->Ok_0,
            },
        )
    }
}

/// Reads the configuration from its JSON form.
///
/// The template is the string under `text`, or under `template` where there
/// is no `text`, and must not be empty. `output_path` and `routing` are
/// optional strings, `wrap` is an optional boolean that defaults to `true`.
/// The error is the reason for which the value is refused.
pub fn parse_config(config: &Json) -> (parsed: Result<TemplateConfig, String>)
    ensures
        result_view(parsed) == config_of(config@),
{
    if !config.is_object() {
        return Err("config must be an object".to_owned());
    }
    let template = match config.get("text") {
        Some(template) => Some(template),
        None => config.get("template"),
    };
    let text = match template {
        None => {
            return Err("config is missing the template text".to_owned());
        },
        Some(template) => match template.as_text() {
            None => {
                return Err("the template text must be a string".to_owned());
            },
            Some(text) => text,
        },
    };
    if text.as_str().is_empty() {
        return Err("the template text must not be empty".to_owned());
    }
    let output_path = match config.optional_member("output_path") {
        Ok(output_path) => output_path,
        Err(_) => {
            return Err("output_path must be a string".to_owned());
        },
    };
    let wrap = match config.get("wrap") {
        None => default_wrap(),
        Some(Json::Bool(wrap)) => *wrap,
        Some(_) => {
            return Err("wrap must be a boolean".to_owned());
        },
    };
    let routing = match config.optional_member("routing") {
        Ok(routing) => routing,
        Err(_) => {
            return Err("routing must be a string".to_owned());
        },
    };
    Ok(TemplateConfig { text: text.clone(), output_path, wrap, routing })
}

/// A configuration that is accepted has a template, and the template is
/// not empty; without a `wrap` member it wraps.
pub proof fn law_accepted_config(config: JsonView)
    requires
        config_of(config) is Ok,
    ensures
        config_of(config)->Ok_0.text.len() > 0,
        config.member("wrap"@) is None ==> config_of(config)->Ok_0.wrap,
{
}

} // verus!

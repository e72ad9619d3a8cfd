use component_templates::config::TemplateConfig;
use component_templates::json::Json;
use component_templates::normalize::normalize_template;
use component_templates::payload::{build_payload, nest_payload};
use component_templates::text::{chars_of, is_blank, replace_all, split_path};
use component_templates::value::to_value;
use serde_json::Value;

fn json(text: &str) -> Value {
    serde_json::from_str(text).expect("json")
}

fn config(output_path: Option<&str>, wrap: bool) -> TemplateConfig {
    TemplateConfig {
        text: "Hi".to_string(),
        output_path: output_path.map(|path| path.to_string()),
        wrap,
        routing: None,
    }
}

fn replace(text: &str, from: &str, to: &str) -> String {
    replace_all(&chars_of(text), &chars_of(from), &chars_of(to))
        .iter()
        .collect()
}

fn split(path: &str) -> Vec<String> {
    split_path(&chars_of(path))
        .iter()
        .map(|part| part.iter().collect())
        .collect()
}

#[test]
fn chars_of_keeps_every_character() {
    assert_eq!(chars_of("a.é{"), vec!['a', '.', 'é', '{']);
    assert!(chars_of("").is_empty());
}

#[test]
fn replace_all_replaces_from_the_left() {
    assert_eq!(replace("aaa", "aa", "b"), "ba");
    assert_eq!(replace("abcabc", "bc", "X"), "aXaX");
    assert_eq!(replace("abc", "abcd", "X"), "abc");
    assert_eq!(replace("abc", "", "X"), "abc");
    assert_eq!(replace("", "a", "X"), "");
    assert_eq!(replace("xax", "a", ""), "xx");
}

#[test]
fn replace_all_does_not_rescan_what_it_wrote() {
    assert_eq!(replace("ab", "a", "aa"), "aab");
}

#[test]
fn split_path_drops_empty_segments() {
    assert_eq!(split("reply.body"), vec!["reply", "body"]);
    assert_eq!(split("a..b"), vec!["a", "b"]);
    assert_eq!(split(".a."), vec!["a"]);
    assert_eq!(split("..."), Vec::<String>::new());
    assert_eq!(split(""), Vec::<String>::new());
    assert_eq!(split("text"), vec!["text"]);
}

#[test]
fn blank_is_only_white_space() {
    assert!(is_blank(""));
    assert!(is_blank(" \t\r\n"));
    assert!(!is_blank(" out "));
}

#[test]
fn normalizer_rewrites_bare_payload_and_state() {
    assert_eq!(normalize_template("{{payload}}"), "{{payload_json}}");
    assert_eq!(normalize_template("{{ payload }}"), "{{ payload_json }}");
    assert_eq!(normalize_template("{{{payload}}}"), "{{{payload_json}}}");
    assert_eq!(normalize_template("{{{ payload }}}"), "{{{ payload_json }}}");
    assert_eq!(normalize_template("{{state}}"), "{{state_json}}");
    assert_eq!(normalize_template("{{ state }}"), "{{ state_json }}");
    assert_eq!(normalize_template("{{{state}}}"), "{{{state_json}}}");
    assert_eq!(normalize_template("{{{ state }}}"), "{{{ state_json }}}");
    assert_eq!(
        normalize_template("p={{payload}} s={{state}} p={{payload}}"),
        "p={{payload_json}} s={{state_json}} p={{payload_json}}"
    );
}

#[test]
fn normalizer_leaves_other_spellings() {
    assert_eq!(normalize_template("{{payload.text}}"), "{{payload.text}}");
    assert_eq!(
        normalize_template("{{#each payload}}x{{/each}}"),
        "{{#each payload}}x{{/each}}"
    );
    assert_eq!(normalize_template("{{  payload  }}"), "{{  payload  }}");
    assert_eq!(normalize_template("payload"), "payload");
    assert_eq!(normalize_template("{{state.user.name}}"), "{{state.user.name}}");
    assert_eq!(normalize_template(""), "");
}

#[test]
fn wrap_false_gives_the_bare_string() {
    let payload = build_payload("Hi", &config(Some("reply.body"), false));
    assert_eq!(to_value(&payload), json(r#""Hi""#));
    let payload = build_payload("Hi", &config(None, false));
    assert_eq!(to_value(&payload), Value::String("Hi".to_string()));
}

#[test]
fn wrap_true_nests_under_the_output_path() {
    let payload = build_payload("Hi", &config(Some("reply.body"), true));
    assert_eq!(to_value(&payload), json(r#"{"reply":{"body":"Hi"}}"#));
    let payload = build_payload("done", &config(Some("a.b.c"), true));
    assert_eq!(to_value(&payload), json(r#"{"a":{"b":{"c":"done"}}}"#));
}

#[test]
fn absent_or_empty_output_path_nests_under_text() {
    let payload = build_payload("Hi", &config(None, true));
    assert_eq!(to_value(&payload), json(r#"{"text":"Hi"}"#));
    let payload = build_payload("Hi", &config(Some(""), true));
    assert_eq!(to_value(&payload), json(r#"{"text":"Hi"}"#));
}

#[test]
fn nest_payload_skips_empty_segments() {
    assert_eq!(to_value(&nest_payload("a..b.", "x")), json(r#"{"a":{"b":"x"}}"#));
    assert_eq!(to_value(&nest_payload("..", "x")), json(r#""x""#));
    assert!(matches!(nest_payload("", "x"), Json::String(text) if text == "x"));
}

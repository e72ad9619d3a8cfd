use core::convert::TryFrom;

use component_templates::{describe_payload, invoke_template};
use greentic_types::{ChannelMessageEnvelope, EnvId, TenantCtx, TenantId};
use serde_json::Value;

fn json(text: &str) -> Value {
    serde_json::from_str(text).expect("json")
}

fn sample_msg() -> ChannelMessageEnvelope {
    let mut tenant = TenantCtx::new(
        EnvId::try_from("dev").unwrap(),
        TenantId::try_from("tenant").unwrap(),
    );
    tenant.session_id = Some("session-1".to_string());
    tenant.attempt = 1;

    ChannelMessageEnvelope {
        id: "msg-1".to_string(),
        tenant,
        channel: "chat".to_string(),
        session_id: "session-1".to_string(),
        reply_scope: None,
        from: None,
        to: Vec::new(),
        correlation_id: None,
        text: Some("hello".to_string()),
        attachments: Vec::new(),
        metadata: Default::default(),
        extensions: Default::default(),
    }
}

fn invocation(config: Value, payload: Value, state: Value) -> Value {
    let mut invocation = serde_json::Map::new();
    invocation.insert("config".to_string(), config);
    invocation.insert("msg".to_string(), serde_json::to_value(sample_msg()).expect("msg"));
    invocation.insert("payload".to_string(), payload);
    invocation.insert("state".to_string(), state);
    invocation.insert("connections".to_string(), Value::Array(Vec::new()));
    Value::Object(invocation)
}

#[test]
fn describe_mentions_world() {
    let payload = describe_payload();
    let json: Value = serde_json::from_str(&payload).expect("describe should be json");
    assert_eq!(
        json["component"]["world"],
        "greentic:component/component@0.5.0"
    );
}

#[test]
fn renders_template_into_payload() {
    let invocation = invocation(
        json(r#"{ "template": "Hi {{payload.text}}", "output_path": "reply.text" }"#),
        json(r#"{ "text": "there" }"#),
        json(r#"{ "user": { "name": "alice" } }"#),
    );

    let result = invoke_template("invoke", &invocation.to_string()).expect("invoke");
    let json_result: Value = serde_json::from_str(&result).expect("result json");

    assert_eq!(json_result["payload"], json(r#"{ "reply": { "text": "Hi there" } }"#));
    assert!(json_result["error"].is_null());
}

#[test]
fn template_error_returns_component_error() {
    let invocation = invocation(json(r#"{ "template": "{{#if}}" }"#), json("{}"), json("{}"));

    let result = invoke_template("invoke", &invocation.to_string()).expect("invoke");
    let json_result: Value = serde_json::from_str(&result).expect("result json");

    assert_eq!(json_result["error"]["kind"], "TemplateError");
    assert!(json_result["payload"].is_null());
}

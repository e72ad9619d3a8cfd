use component_templates::capabilities::Capabilities;
use component_templates::config::{default_wrap, parse_config};
use component_templates::context::{assemble_context, build_context, is_reserved_key};
use component_templates::invocation::{read_invocation, Invocation};
use component_templates::json::Json;
use component_templates::value::{from_value, to_value};
use serde_json::Value;

fn json(text: &str) -> Value {
    serde_json::from_str(text).expect("json")
}

fn tree(text: &str) -> Json {
    from_value(json(text))
}

fn context(payload: &str, state: &str, node_id: Option<&str>) -> Value {
    context_with(Capabilities::full(), payload, state, node_id)
}

fn context_with(
    capabilities: Capabilities,
    payload: &str,
    state: &str,
    node_id: Option<&str>,
) -> Value {
    let payload = tree(payload);
    let state = tree(state);
    let context = assemble_context(
        &capabilities,
        &tree(r#"{"id":"m"}"#),
        &payload,
        "PAYLOAD",
        &state,
        "STATE",
        &node_id.map(|id| id.to_string()),
    );
    to_value(&context)
}

#[test]
fn context_holds_the_structure() {
    let context = context(r#"{"text":"hi"}"#, r#"{"user":{"name":"Alice"}}"#, None);
    assert_eq!(
        context,
        json(
            r#"{
                "msg": {"id":"m"},
                "payload": {"text":"hi"},
                "payload_json": "PAYLOAD",
                "state": {"user":{"name":"Alice"}},
                "state_json": "STATE",
                "user": {"name":"Alice"}
            }"#
        )
    );
}

#[test]
fn reserved_keys_of_the_state_are_dropped() {
    let context = context(
        r#"{"text":"hi"}"#,
        r#"{"payload":"fake","msg":1,"state":2,"config":3,"templates":4,"routing":5,
            "state_json":6,"payload_json":7,"node":8,"node_id":9,"node_payload":10,"kept":11}"#,
        None,
    );
    assert_eq!(context["payload"], json(r#"{"text":"hi"}"#));
    assert_eq!(context["msg"], json(r#"{"id":"m"}"#));
    assert_eq!(context["payload_json"], "PAYLOAD");
    assert_eq!(context["state_json"], "STATE");
    assert_eq!(context["state"]["payload"], "fake");
    assert_eq!(context["kept"], 11);
    for key in ["config", "templates", "routing", "node", "node_id", "node_payload"] {
        assert!(context.get(key).is_none(), "{key} is in the context");
    }
    assert_eq!(context.as_object().unwrap().len(), 6);
}

#[test]
fn reserved_keys_of_the_input_are_dropped() {
    let context = context(
        "{}",
        r#"{"input":{"payload":"fake","routing":"x","name":"n"}}"#,
        None,
    );
    assert_eq!(context["payload"], json("{}"));
    assert!(context.get("routing").is_none());
    assert_eq!(context["name"], "n");
}

#[test]
fn input_comes_before_state() {
    let context = context(
        "{}",
        r#"{"name":"from state","only_state":1,"input":{"name":"from input","only_input":2}}"#,
        None,
    );
    assert_eq!(context["name"], "from input");
    assert_eq!(context["only_state"], 1);
    assert_eq!(context["only_input"], 2);
    assert!(context.get("input").is_none());
    assert_eq!(context["state"]["input"]["name"], "from input");
}

#[test]
fn input_that_is_no_object_is_passed_over() {
    let context = context("{}", r#"{"input":[1,2],"a":1}"#, None);
    assert!(context.get("input").is_none());
    assert_eq!(context["a"], 1);
    assert_eq!(context.as_object().unwrap().len(), 6);
}

#[test]
fn state_that_is_no_object_has_no_shortcuts() {
    let context = context("{}", r#"[{"a":1}]"#, Some("n1"));
    assert_eq!(context["state"], json(r#"[{"a":1}]"#));
    assert_eq!(context.as_object().unwrap().len(), 5);
}

#[test]
fn addressed_node_is_exposed() {
    let context = context(
        "{}",
        r#"{"nodes":{"n1":{"payload":{"x":1},"status":"ok"},"n2":{"status":"idle"}}}"#,
        Some("n1"),
    );
    assert_eq!(context["node"], json(r#"{"payload":{"x":1},"status":"ok"}"#));
    assert_eq!(context["node_id"], "n1");
    assert_eq!(context["node_payload"], json(r#"{"x":1}"#));
    assert_eq!(context["nodes"]["n2"]["status"], "idle");
}

#[test]
fn node_without_payload_has_no_node_payload() {
    let context = context("{}", r#"{"nodes":{"n2":{"status":"idle"}}}"#, Some("n2"));
    assert_eq!(context["node"], json(r#"{"status":"idle"}"#));
    assert_eq!(context["node_id"], "n2");
    assert!(context.get("node_payload").is_none());
}

#[test]
fn missing_or_wrong_node_is_no_error() {
    for state in [
        r#"{"nodes":{"n1":{}}}"#,
        r#"{"nodes":{"gone":"text"}}"#,
        r#"{"nodes":[1]}"#,
        r#"{}"#,
    ] {
        let context = context("{}", state, Some("gone"));
        assert!(context.get("node").is_none());
        assert!(context.get("node_id").is_none());
        assert!(context.get("node_payload").is_none());
    }
    let context = context("{}", r#"{"nodes":{"n1":{"payload":1}}}"#, None);
    assert!(context.get("node").is_none());
    assert!(context.get("node_id").is_none());
}

#[test]
fn build_context_writes_the_json_texts() {
    let invocation = Invocation {
        config: Json::Null,
        msg: tree(r#"{"id":"m"}"#),
        payload: tree(r#"{"foo":"bar","count":2}"#),
        state: tree(r#"{"k":[1,2]}"#),
        node_id: None,
        connections: Vec::new(),
    };
    let context = to_value(&build_context(&Capabilities::full(), &invocation));
    assert_eq!(context["payload_json"], r#"{"count":2,"foo":"bar"}"#);
    assert_eq!(context["state_json"], r#"{"k":[1,2]}"#);
    assert_eq!(context["k"], json("[1,2]"));
}

#[test]
fn reserved_keys_are_the_eleven() {
    for key in [
        "state", "payload", "msg", "config", "templates", "routing", "state_json",
        "payload_json", "node", "node_id", "node_payload",
    ] {
        assert!(is_reserved_key(&key.to_string()), "{key}");
    }
    for key in ["input", "nodes", "State", "payloads", "", "text"] {
        assert!(!is_reserved_key(&key.to_string()), "{key}");
    }
}

#[test]
fn config_is_read_with_its_defaults() {
    let config = parse_config(&tree(r#"{"text":"Hi"}"#)).expect("config");
    assert_eq!(config.text, "Hi");
    assert_eq!(config.output_path, None);
    assert!(config.wrap);
    assert_eq!(config.routing, None);
    assert!(default_wrap());

    let config = parse_config(&tree(
        r#"{"template":"Yo","output_path":"a.b","wrap":false,"routing":"next","more":1}"#,
    ))
    .expect("config");
    assert_eq!(config.text, "Yo");
    assert_eq!(config.output_path, Some("a.b".to_string()));
    assert!(!config.wrap);
    assert_eq!(config.routing, Some("next".to_string()));

    let config = parse_config(&tree(
        r#"{"text":"first","template":"second","output_path":null,"routing":null}"#,
    ))
    .expect("config");
    assert_eq!(config.text, "first");
    assert_eq!(config.output_path, None);
    assert_eq!(config.routing, None);
}

#[test]
fn config_is_refused_with_a_reason() {
    let refused = |text: &str| parse_config(&tree(text)).expect_err("refused");
    assert_eq!(refused(r#"["Hi"]"#), "config must be an object");
    assert_eq!(refused(r#"null"#), "config must be an object");
    assert_eq!(refused(r#"{}"#), "config is missing the template text");
    assert_eq!(refused(r#"{"text":1}"#), "the template text must be a string");
    assert_eq!(
        refused(r#"{"text":null,"template":"x"}"#),
        "the template text must be a string"
    );
    assert_eq!(refused(r#"{"text":""}"#), "the template text must not be empty");
    assert_eq!(refused(r#"{"template":""}"#), "the template text must not be empty");
    assert_eq!(refused(r#"{"text":"x","output_path":1}"#), "output_path must be a string");
    assert_eq!(refused(r#"{"text":"x","wrap":"yes"}"#), "wrap must be a boolean");
    assert_eq!(refused(r#"{"text":"x","wrap":null}"#), "wrap must be a boolean");
    assert_eq!(refused(r#"{"text":"x","routing":[]}"#), "routing must be a string");
}

#[test]
fn invocation_is_read_with_its_defaults() {
    let invocation =
        read_invocation(&tree(r#"{"config":{"text":"x"},"msg":{"id":1},"payload":[1]}"#))
            .expect("invocation");
    assert_eq!(to_value(&invocation.config), json(r#"{"text":"x"}"#));
    assert_eq!(to_value(&invocation.msg), json(r#"{"id":1}"#));
    assert_eq!(to_value(&invocation.payload), json("[1]"));
    assert_eq!(to_value(&invocation.state), json("{}"));
    assert_eq!(invocation.node_id, None);
    assert!(invocation.connections.is_empty());

    let invocation = read_invocation(&tree(
        r#"{"config":1,"msg":2,"payload":3,"state":{"a":1},"node_id":"n1","connections":["a","b"]}"#,
    ))
    .expect("invocation");
    assert_eq!(to_value(&invocation.state), json(r#"{"a":1}"#));
    assert_eq!(invocation.node_id, Some("n1".to_string()));
    assert_eq!(invocation.connections, vec!["a".to_string(), "b".to_string()]);

    let invocation =
        read_invocation(&tree(r#"{"config":1,"msg":2,"payload":3,"state":null,"node_id":null}"#))
            .expect("invocation");
    assert_eq!(to_value(&invocation.state), Value::Null);
    assert_eq!(invocation.node_id, None);
}

#[test]
fn invocation_is_refused_with_a_reason() {
    let refused = |text: &str| read_invocation(&tree(text)).expect_err("refused");
    assert_eq!(refused("[]"), "the invocation must be an object");
    assert_eq!(refused(r#"{"msg":1,"payload":1}"#), "the invocation is missing `config`");
    assert_eq!(refused(r#"{"config":1,"payload":1}"#), "the invocation is missing `msg`");
    assert_eq!(refused(r#"{"config":1,"msg":1}"#), "the invocation is missing `payload`");
    assert_eq!(
        refused(r#"{"config":1,"msg":1,"payload":1,"node_id":7}"#),
        "`node_id` must be a string"
    );
    assert_eq!(
        refused(r#"{"config":1,"msg":1,"payload":1,"connections":["a",1]}"#),
        "`connections` must be a list of strings"
    );
    assert_eq!(
        refused(r#"{"config":1,"msg":1,"payload":1,"connections":"a"}"#),
        "`connections` must be a list of strings"
    );
}

#[test]
fn full_capabilities_switch_everything_on() {
    let capabilities = Capabilities::full();
    assert!(capabilities.supports_state);
    assert!(capabilities.supports_node_addressing);
    assert!(capabilities.enforces_scope);
}

#[test]
fn without_state_the_context_is_message_and_payload() {
    let capabilities = Capabilities {
        supports_state: false,
        supports_node_addressing: true,
        enforces_scope: true,
    };
    let context = context_with(
        capabilities,
        r#"{"text":"hi"}"#,
        r#"{"a":1,"input":{"b":2},"nodes":{"n1":{"payload":3}}}"#,
        Some("n1"),
    );
    assert_eq!(
        context,
        json(r#"{"msg":{"id":"m"},"payload":{"text":"hi"},"payload_json":"PAYLOAD"}"#)
    );
}

#[test]
fn without_node_addressing_the_node_is_left_out() {
    let capabilities = Capabilities {
        supports_state: true,
        supports_node_addressing: false,
        enforces_scope: true,
    };
    let context = context_with(
        capabilities,
        "{}",
        r#"{"a":1,"nodes":{"n1":{"payload":3}}}"#,
        Some("n1"),
    );
    assert!(context.get("node").is_none());
    assert!(context.get("node_id").is_none());
    assert!(context.get("node_payload").is_none());
    assert_eq!(context["a"], 1);
    assert_eq!(context["state_json"], "STATE");
}

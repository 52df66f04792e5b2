use pi_grok::custom_bridges::{
    bridge_details, is_bridge_message, parse_workflow_bridge, workflow_failure_payload,
    workflow_failure_text, WorkflowBridgeEvent, GOAL_BRIDGE_TYPE, LOOP_BRIDGE_TYPE,
    WORKFLOW_BRIDGE_TYPE,
};
use pi_grok::json::Json;

fn from_value(v: &serde_json::Value) -> Json {
    match v {
        serde_json::Value::Null => Json::Null,
        serde_json::Value::Bool(b) => Json::Bool(*b),
        serde_json::Value::Number(n) => match n.as_i64() {
            Some(i) => Json::Int(i as i128),
            None => match n.as_u64() {
                Some(u) => Json::Int(u as i128),
                None => Json::Float(n.to_string()),
            },
        },
        serde_json::Value::String(s) => Json::Str(s.clone()),
        serde_json::Value::Array(items) => Json::Array(items.iter().map(from_value).collect()),
        serde_json::Value::Object(map) => {
            Json::Object(map.iter().map(|(k, v)| (k.clone(), from_value(v))).collect())
        }
    }
}

fn j(text: &str) -> Json {
    from_value(&serde_json::from_str(text).expect("valid JSON"))
}

#[test]
fn bridge_messages_are_found_in_message_entry_or_the_event() {
    let direct = j(r#"{"customType":"pi-grok-goal/v1"}"#);
    let nested = j(r#"{"message":{"type":"pi-grok-goal/v1"}}"#);
    let entry = j(r#"{"entry":{"customType":"pi-grok-loop/v1","details":{"x":1}}}"#);
    assert!(is_bridge_message(&direct, GOAL_BRIDGE_TYPE));
    assert!(is_bridge_message(&nested, GOAL_BRIDGE_TYPE));
    assert!(!is_bridge_message(&entry, GOAL_BRIDGE_TYPE));
    assert!(is_bridge_message(&entry, LOOP_BRIDGE_TYPE));
    let details = bridge_details(&entry, LOOP_BRIDGE_TYPE).unwrap();
    assert_eq!(details.get("x").and_then(Json::as_u64), Some(1));
    // No payload reads as null.
    assert_eq!(bridge_details(&direct, GOAL_BRIDGE_TYPE), Some(Json::Null));
    assert_eq!(bridge_details(&direct, LOOP_BRIDGE_TYPE), None);
}

#[test]
fn custom_type_falls_back_to_type_when_not_a_string() {
    let odd = j(r#"{"customType":7,"type":"pi-grok-workflow/v1","data":{"kind":"state"}}"#);
    assert_eq!(parse_workflow_bridge(&odd), Some(WorkflowBridgeEvent::Refresh));
}

#[test]
fn workflow_tool_requests_are_read_with_defaults() {
    let event = j(
        r#"{"message":{"customType":"pi-grok-workflow/v1","details":{"kind":"tool_request","name":"run","args":"{\"a\":1}","response_path":"/tmp/r.json"}}}"#,
    );
    assert_eq!(
        parse_workflow_bridge(&event),
        Some(WorkflowBridgeEvent::ToolRequest {
            name: "run".into(),
            args: "{\"a\":1}".into(),
            response_path: Some("/tmp/r.json".into()),
        })
    );
    let bare = j(r#"{"customType":"pi-grok-workflow/v1","details":{"kind":"tool_request"}}"#);
    assert_eq!(
        parse_workflow_bridge(&bare),
        Some(WorkflowBridgeEvent::ToolRequest {
            name: String::new(),
            args: String::new(),
            response_path: None,
        })
    );
    assert_eq!(parse_workflow_bridge(&j(r#"{"customType":"other"}"#)), None);
    assert_eq!(WORKFLOW_BRIDGE_TYPE, "pi-grok-workflow/v1");
}

#[test]
fn workflow_failures_are_reported_in_words() {
    assert_eq!(workflow_failure_text("boom"), "Workflow request failed: boom");
    let payload = workflow_failure_payload("boom");
    assert_eq!(payload.get("error").and_then(Json::as_str), Some("boom"));
    assert_eq!(
        payload.get("text").and_then(Json::as_str),
        Some("Workflow request failed: boom")
    );
}

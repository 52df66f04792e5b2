use pi_grok::json::Json;
use pi_grok::subagent_projection::{
    bridge_parent_session_id, parse_bridge_message, parse_child_update, BridgeError,
    BridgeOperation, ChildUpdate, ToolStatus,
};
use pi_grok::tool_projection::{EditDiff, ToolContent, ToolKind};

fn from_value(v: &serde_json::Value) -> Json {
    match v {
        serde_json::Value::Null => Json::Null,
        serde_json::Value::Bool(b) => Json::Bool(*b),
        serde_json::Value::Number(n) => {
            if let Some(i) = n.as_i64() {
                Json::Int(i as i128)
            } else if let Some(u) = n.as_u64() {
                Json::Int(u as i128)
            } else {
                Json::Float(n.to_string())
            }
        }
        serde_json::Value::String(s) => Json::Str(s.clone()),
        serde_json::Value::Array(items) => Json::Array(items.iter().map(from_value).collect()),
        serde_json::Value::Object(map) => Json::Object(
            map.iter().map(|(k, v)| (k.clone(), from_value(v))).collect(),
        ),
    }
}

fn j(text: &str) -> Json {
    from_value(&serde_json::from_str(text).expect("valid JSON"))
}

fn at<'a>(value: &'a Json, path: &[&str]) -> Option<&'a Json> {
    let mut cur = value;
    for key in path {
        cur = cur.get(key)?;
    }
    Some(cur)
}

fn text_at<'a>(value: &'a Json, path: &[&str]) -> Option<&'a str> {
    at(value, path).and_then(Json::as_str)
}

fn bridge_message(kind: &str, payload: &str) -> Json {
    j(&format!(
        r#"{{
            "message": {{
                "role": "custom",
                "customType": "pi-grok-subagent/v1",
                "display": false,
                "details": {{
                    "version": 1,
                    "sequence": 7,
                    "replay": false,
                    "kind": "{kind}",
                    "parentSessionId": "parent-1",
                    "subagentId": "subagent-1",
                    "childSessionId": "child-1",
                    "payload": {payload}
                }}
            }}
        }}"#
    ))
}

#[test]
fn spawned_projection_stamps_native_task_metadata_before_lifecycle() {
    let event = bridge_message(
        "spawned",
        r#"{
            "parentToolCallId": "call-1",
            "description": "Inspect auth",
            "subagentType": "explore",
            "background": true,
            "capabilityMode": "execute",
            "model": "test-model",
            "prompt": "Inspect authentication."
        }"#,
    );
    let projection = parse_bridge_message(&event, "parent-1")
        .unwrap()
        .expect("bridge event");
    assert_eq!(projection.sequence, 7);
    assert_eq!(projection.operations.len(), 2);
    let BridgeOperation::ParentTaskMetadata {
        tool_call_id,
        raw_input,
    } = &projection.operations[0]
    else {
        panic!("spawn must start with parent task metadata");
    };
    assert_eq!(tool_call_id, "call-1");
    assert_eq!(text_at(raw_input, &["variant"]), Some("Task"));
    assert_eq!(text_at(raw_input, &["task_id"]), Some("subagent-1"));
    assert_eq!(at(raw_input, &["run_in_background"]), Some(&Json::Bool(true)));
    let BridgeOperation::ParentLifecycle(lifecycle) = &projection.operations[1] else {
        panic!("spawn must project a parent lifecycle event");
    };
    assert_eq!(text_at(lifecycle, &["sessionId"]), Some("parent-1"));
    assert_eq!(
        text_at(lifecycle, &["update", "sessionUpdate"]),
        Some("subagent_spawned")
    );
    assert_eq!(
        text_at(lifecycle, &["update", "child_session_id"]),
        Some("child-1")
    );
    assert_eq!(
        at(lifecycle, &["_meta", "subagentBackground"]),
        Some(&Json::Bool(true))
    );
}

#[test]
fn appended_bridge_entry_is_projected_like_a_live_custom_message() {
    let event = j(r#"{
        "type": "entry_appended",
        "entry": {
            "type": "custom",
            "customType": "pi-grok-subagent/v1",
            "data": {
                "version": 1,
                "sequence": 7,
                "replay": false,
                "kind": "child_update",
                "parentSessionId": "parent-1",
                "subagentId": "subagent-1",
                "childSessionId": "child-1",
                "payload": { "update": { "type": "assistant_delta", "text": "hello" } }
            }
        }
    }"#);
    let projection = parse_bridge_message(&event, "parent-1")
        .unwrap()
        .expect("bridge entry");
    assert_eq!(projection.sequence, 7);
    assert!(matches!(
        projection.operations.as_slice(),
        [BridgeOperation::ChildUpdate { .. }]
    ));
}

#[test]
fn child_text_delta_targets_the_declared_child_session() {
    let event = bridge_message(
        "child_update",
        r#"{ "update": { "type": "assistant_delta", "text": "hello" } }"#,
    );
    let projection = parse_bridge_message(&event, "parent-1")
        .unwrap()
        .expect("bridge event");
    let [BridgeOperation::ChildUpdate {
        child_session_id,
        update,
    }] = projection.operations.as_slice()
    else {
        panic!("expected one child update");
    };
    assert_eq!(child_session_id, "child-1");
    let ChildUpdate::AgentMessageChunk(text) = update else {
        panic!("expected an assistant chunk");
    };
    assert_eq!(text, "hello");
}

#[test]
fn child_find_tool_projects_native_search_input_and_output() {
    let start = bridge_message(
        "child_update",
        r#"{
            "update": {
                "type": "tool_call",
                "toolCallId": "tool-1",
                "toolName": "find",
                "args": { "pattern": "README.md", "path": ".", "limit": 20 }
            }
        }"#,
    );
    let projection = parse_bridge_message(&start, "parent-1")
        .unwrap()
        .expect("bridge event");
    let [BridgeOperation::ChildUpdate { update, .. }] = projection.operations.as_slice() else {
        panic!("expected one child update");
    };
    let ChildUpdate::ToolCall { name, kind, status, args, .. } = update else {
        panic!("expected a tool call");
    };
    assert_eq!(name, "find");
    assert_eq!(*kind, ToolKind::Search);
    assert_eq!(*status, ToolStatus::InProgress);
    assert_eq!(
        text_at(args.as_ref().unwrap(), &["output_mode"]),
        Some("files_with_matches")
    );

    let end = bridge_message(
        "child_update",
        r#"{
            "update": {
                "type": "tool_result",
                "toolCallId": "tool-1",
                "toolName": "find",
                "args": { "pattern": "README.md", "path": ".", "limit": 20 },
                "result": { "content": [{ "type": "text", "text": "README.md\n" }] },
                "isError": false
            }
        }"#,
    );
    let projection = parse_bridge_message(&end, "parent-1")
        .unwrap()
        .expect("bridge event");
    let [BridgeOperation::ChildUpdate { update, .. }] = projection.operations.as_slice() else {
        panic!("expected one child update");
    };
    let ChildUpdate::ToolResult { id, result, is_error, status, content, raw_output, .. } = update
    else {
        panic!("expected a tool result");
    };
    assert_eq!(id, "tool-1");
    assert!(!is_error);
    assert_eq!(*status, ToolStatus::Completed);
    assert!(result.get("content").is_some());
    assert_eq!(
        content.as_deref(),
        Some(&[ToolContent::Text("README.md\n".to_owned())][..])
    );
    assert_eq!(text_at(raw_output, &["type"]), Some("GrepSearch"));
    assert_eq!(at(raw_output, &["match_count"]), Some(&Json::Int(1)));
}

#[test]
fn replay_complete_projects_an_adapter_barrier_marker() {
    let event = bridge_message("replay_complete", r#"{ "requestId": "replay-1" }"#);
    let projection = parse_bridge_message(&event, "parent-1")
        .unwrap()
        .expect("bridge event");
    assert!(matches!(
        projection.operations.as_slice(),
        [BridgeOperation::ReplayComplete { request_id }] if request_id == "replay-1"
    ));
}

#[test]
fn bridge_parent_session_id_identifies_only_subagent_events() {
    let event = bridge_message("progress", "{}");
    assert_eq!(bridge_parent_session_id(&event).unwrap(), Some("parent-1"));
    assert_eq!(
        bridge_parent_session_id(&j(r#"{ "type": "turn_end" }"#)).unwrap(),
        None
    );
}

#[test]
fn parent_session_mismatch_is_rejected() {
    let event = bridge_message(
        "progress",
        r#"{
            "durationMs": 1,
            "turnCount": 0,
            "toolCallCount": 0,
            "errorCount": 0
        }"#,
    );
    assert!(parse_bridge_message(&event, "another-parent").is_err());
}

#[test]
fn progress_defaults_optional_counters_and_names_the_event() {
    let event = bridge_message(
        "progress",
        r#"{ "durationMs": 5, "turnCount": 2, "toolCallCount": 3, "errorCount": 1 }"#,
    );
    let projection = parse_bridge_message(&event, "parent-1").unwrap().unwrap();
    let [BridgeOperation::ParentLifecycle(lifecycle)] = projection.operations.as_slice() else {
        panic!("expected one lifecycle event");
    };
    assert_eq!(at(lifecycle, &["update", "duration_ms"]), Some(&Json::Int(5)));
    assert_eq!(at(lifecycle, &["update", "tokens_used"]), Some(&Json::Int(0)));
    assert_eq!(
        at(lifecycle, &["update", "tools_used"]),
        Some(&Json::Array(Vec::new()))
    );
    assert_eq!(
        text_at(lifecycle, &["_meta", "eventId"]),
        Some("pi-grok-subagent:subagent-1:7")
    );
    assert_eq!(at(lifecycle, &["_meta", "isReplay"]), Some(&Json::Bool(false)));
}

#[test]
fn malformed_bridge_events_report_what_is_wrong() {
    let missing = bridge_message("progress", r#"{ "durationMs": 5 }"#);
    let err = parse_bridge_message(&missing, "parent-1").unwrap_err();
    assert_eq!(err, BridgeError::PayloadRequired("turnCount".into()));
    assert_eq!(err.message(), "subagent bridge payload.turnCount is required");

    let status = bridge_message(
        "finished",
        r#"{ "status": "exploded", "toolCalls": 1, "turns": 1, "durationMs": 1 }"#,
    );
    assert_eq!(
        parse_bridge_message(&status, "parent-1").unwrap_err().message(),
        "invalid subagent terminal status: exploded"
    );

    let unknown = bridge_message("teleported", "{}");
    assert_eq!(
        parse_bridge_message(&unknown, "parent-1").unwrap_err(),
        BridgeError::UnknownEvent("teleported".into())
    );

    let no_payload = j(r#"{"message": {"role": "custom", "customType": "pi-grok-subagent/v1",
        "details": {"version": 1, "sequence": 1, "kind": "progress", "parentSessionId": "parent-1",
        "subagentId": "s", "childSessionId": "c", "payload": []}}}"#);
    assert_eq!(
        parse_bridge_message(&no_payload, "parent-1").unwrap_err(),
        BridgeError::PayloadNotObject
    );

    let no_details = j(r#"{"message": {"role": "custom", "customType": "pi-grok-subagent/v1"}}"#);
    assert_eq!(
        parse_bridge_message(&no_details, "parent-1").unwrap_err().message(),
        "subagent bridge custom message has no details"
    );

    let v2 = j(r#"{"entry": {"type": "custom", "customType": "pi-grok-subagent/v1", "data": {"version": 2}}}"#);
    assert_eq!(
        parse_bridge_message(&v2, "parent-1").unwrap_err(),
        BridgeError::UnsupportedVersion
    );
}

#[test]
fn finished_copies_error_and_output_when_present() {
    let event = bridge_message(
        "finished",
        r#"{ "status": "failed", "toolCalls": 1, "turns": 2, "durationMs": 3, "error": "boom", "output": null }"#,
    );
    let projection = parse_bridge_message(&event, "parent-1").unwrap().unwrap();
    let [BridgeOperation::ParentLifecycle(lifecycle)] = projection.operations.as_slice() else {
        panic!("expected one lifecycle event");
    };
    assert_eq!(text_at(lifecycle, &["update", "status"]), Some("failed"));
    assert_eq!(text_at(lifecycle, &["update", "error"]), Some("boom"));
    assert!(at(lifecycle, &["update", "output"]).is_none());
    assert_eq!(at(lifecycle, &["update", "will_wake"]), Some(&Json::Bool(false)));
}

#[test]
fn child_updates_validate_their_shape() {
    assert_eq!(
        parse_child_update(None).unwrap_err(),
        BridgeError::ChildUpdateNotObject
    );
    assert_eq!(
        parse_child_update(Some(&j(r#"{"type": "dance"}"#))).unwrap_err(),
        BridgeError::UnknownChildUpdate("dance".into())
    );
    assert_eq!(
        parse_child_update(Some(&j(r#"{"type": "tool_update", "toolCallId": "t"}"#))).unwrap_err(),
        BridgeError::PayloadRequired("toolName".into())
    );
    let update = parse_child_update(Some(&j(
        r#"{"type": "tool_update", "toolCallId": "t", "toolName": "bash", "args": {"task_name": "x"}}"#,
    )))
    .unwrap();
    let ChildUpdate::ToolUpdate { args, partial_result, kind, status, raw_output, .. } = update
    else {
        panic!("expected a tool update");
    };
    assert_eq!(partial_result, Json::Null);
    assert_eq!(kind, ToolKind::Execute);
    assert_eq!(status, ToolStatus::InProgress);
    assert_eq!(text_at(&raw_output, &["type"]), Some("Bash"));
    assert_eq!(text_at(args.as_ref().unwrap(), &["description"]), Some("x"));
    assert_eq!(
        parse_child_update(Some(&j(r#"{"type": "user", "text": "hi"}"#))).unwrap(),
        ChildUpdate::UserMessageChunk("hi".into())
    );
}

#[test]
fn failed_child_tool_results_are_marked_failed() {
    let update = parse_child_update(Some(&j(
        r#"{"type": "tool_result", "toolCallId": "t", "toolName": "read", "args": {"path": "a"},
            "result": {"content": [{"type": "text", "text": "no such file"}]}, "isError": true}"#,
    )))
    .unwrap();
    let ChildUpdate::ToolResult { kind, status, is_error, raw_output, .. } = update else {
        panic!("expected a tool result");
    };
    assert_eq!(kind, ToolKind::Read);
    assert_eq!(status, ToolStatus::Failed);
    assert!(is_error);
    assert!(raw_output.get("FileContent").is_none());

    let update = parse_child_update(Some(&j(
        r#"{"type": "tool_result", "toolCallId": "t", "toolName": "edit",
            "args": {"path": "a", "oldText": "x", "newText": "y"}, "result": {}}"#,
    )))
    .unwrap();
    let ChildUpdate::ToolResult { kind, status, content, .. } = update else {
        panic!("expected a tool result");
    };
    assert_eq!(kind, ToolKind::Edit);
    assert_eq!(status, ToolStatus::Completed);
    assert_eq!(
        content,
        Some(vec![ToolContent::Diff(EditDiff {
            path: "a".into(),
            old_text: Some("x".into()),
            new_text: "y".into(),
            new_line: None,
        })])
    );

    let update = parse_child_update(Some(&j(
        r#"{"type": "tool_call", "toolCallId": "t", "toolName": "write",
            "args": {"path": "a", "content": "new"}}"#,
    )))
    .unwrap();
    let ChildUpdate::ToolCall { kind, content, .. } = update else {
        panic!("expected a tool call");
    };
    assert_eq!(kind, ToolKind::Edit);
    assert_eq!(
        content,
        vec![ToolContent::Diff(EditDiff {
            path: "a".into(),
            old_text: None,
            new_text: "new".into(),
            new_line: None,
        })]
    );
}

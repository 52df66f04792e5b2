use pi_grok::ext_requests::{
    apply_queue_notification, decode_ext_method, ExtCall, ExtMethodError, EDIT_WARNING,
    REMOVE_WARNING,
};
use pi_grok::json::Json;
use pi_grok::queue_bridge::{QueueLane, QueueMirror, QueueOrigin};

fn from_value(v: &serde_json::Value) -> Json {
    match v {
        serde_json::Value::Null => Json::Null,
        serde_json::Value::Bool(b) => Json::Bool(*b),
        serde_json::Value::Number(n) => {
            if let Some(i) = n.as_i64() {
                Json::Int(i as i128)
            } else if let Some(u) = n.as_u64() {
                Json::Int(u as i128)
            } else {
                Json::Float(n.to_string())
            }
        }
        serde_json::Value::String(s) => Json::Str(s.clone()),
        serde_json::Value::Array(items) => Json::Array(items.iter().map(from_value).collect()),
        serde_json::Value::Object(map) => Json::Object(
            map.iter().map(|(k, v)| (k.clone(), from_value(v))).collect(),
        ),
    }
}

fn j(text: &str) -> Json {
    from_value(&serde_json::from_str(text).expect("valid JSON"))
}

fn decode(method: &str, params: &str) -> Result<ExtCall, ExtMethodError> {
    let value = j(params);
    decode_ext_method(method, Some(&value))
}

#[test]
fn scheduler_delete_needs_a_task_id() {
    assert_eq!(
        decode("x.ai/scheduler/delete", r#"{"task_id": "  t-1 "}"#),
        Ok(ExtCall::SchedulerDelete { task_id: "t-1".into() })
    );
    let err = decode("x.ai/scheduler/delete", r#"{"taskId": "  "}"#).unwrap_err();
    assert_eq!(err.message(), "taskId is required");
    assert_eq!(
        decode_ext_method("x.ai/scheduler/delete", None),
        Err(ExtMethodError::MalformedParams)
    );
}

#[test]
fn lenient_methods_read_bad_params_as_null() {
    assert_eq!(
        decode_ext_method("pi/session/search", None),
        Ok(ExtCall::SessionSearch { query: "".into(), cwd: None, limit: 20 })
    );
    assert_eq!(
        decode_ext_method("pi/session/messages", None),
        Ok(ExtCall::SessionMessages { session_path: "".into(), session_id: "".into(), limit: 200 })
    );
    assert_eq!(
        decode_ext_method("x.ai/compact_conversation", None),
        Ok(ExtCall::CompactConversation { custom_instructions: None })
    );
}

#[test]
fn session_and_tree_requests_decode_their_parameters() {
    assert_eq!(
        decode("pi/session/list", r#"{"cwd": " /repo ", "scope": "all", "usePsmIndex": true}"#),
        Ok(ExtCall::SessionList { cwd: Some(" /repo ".into()), all: true, use_psm_index: true })
    );
    assert_eq!(
        decode("pi/session/search", r#"{"query": " fix bug ", "cwd": "  ", "limit": 5}"#),
        Ok(ExtCall::SessionSearch { query: "fix bug".into(), cwd: None, limit: 5 })
    );
    assert_eq!(
        decode("pi/session/navigate_tree", r#"{"targetId": "e1", "summarize": true, "instructions": "short"}"#),
        Ok(ExtCall::NavigateTree {
            entry_id: "e1".into(),
            summarize: true,
            custom_instructions: Some("short".into()),
        })
    );
    assert_eq!(
        decode("pi/session/tree_label", r#"{"id": "e2", "clear": true, "label": "x"}"#),
        Ok(ExtCall::TreeLabel { entry_id: "e2".into(), label: None })
    );
    assert_eq!(
        decode("pi/session/tree_label", r#"{"entryId": "e2", "text": "keep"}"#),
        Ok(ExtCall::TreeLabel { entry_id: "e2".into(), label: Some("keep".into()) })
    );
    assert_eq!(
        decode("pi/session/fork", "{}").unwrap_err().message(),
        "entryId is required"
    );
    assert_eq!(
        decode("x.ai/compact_conversation", r#"{"context": "focus on tests"}"#),
        Ok(ExtCall::CompactConversation { custom_instructions: Some("focus on tests".into()) })
    );
}

#[test]
fn queue_mode_accepts_only_known_modes() {
    assert_eq!(
        decode("pi/queue/mode", r#"{"mode": " all ", "steering": true}"#),
        Ok(ExtCall::QueueMode { mode: "all".into(), steering: true })
    );
    assert_eq!(
        decode("pi/queue/mode", r#"{"mode": "one-at-a-time"}"#),
        Ok(ExtCall::QueueMode { mode: "one-at-a-time".into(), steering: false })
    );
    assert_eq!(
        decode("pi/queue/mode", r#"{"mode": "some"}"#).unwrap_err().message(),
        "mode must be 'all' or 'one-at-a-time'"
    );
}

#[test]
fn workflow_and_subagent_requests_require_ids() {
    assert_eq!(
        decode("x.ai/workflow/launch", r#"{"workflow": "ship", "input": "now"}"#),
        Ok(ExtCall::WorkflowLaunch { name: "ship".into(), args: "now".into() })
    );
    assert_eq!(
        decode("x.ai/workflow/launch", r#"{"name": "ship"}"#),
        Ok(ExtCall::WorkflowLaunch { name: "ship".into(), args: "".into() })
    );
    assert_eq!(
        decode("x.ai/workflow/stop", r#"{"name": "r9"}"#),
        Ok(ExtCall::WorkflowStop { run_id: "r9".into() })
    );
    assert_eq!(
        decode("x.ai/subagent/cancel", r#"{"subagent_id": "s1"}"#),
        Ok(ExtCall::SubagentCancel { subagent_id: "s1".into() })
    );
    assert_eq!(
        decode("x.ai/session/rename", r#"{"title": " "}"#).unwrap_err().message(),
        "session title is empty"
    );
}

#[test]
fn unknown_methods_are_not_found() {
    let err = decode("x.ai/teleport", "{}").unwrap_err();
    assert_eq!(err, ExtMethodError::MethodNotFound("x.ai/teleport".into()));
    assert_eq!(err.message(), "Method not found: x.ai/teleport");
    assert_eq!(decode("x.ai/btw", "{}"), Ok(ExtCall::Btw));
}

fn mirror_with(ids: &[&str]) -> QueueMirror {
    let mut mirror = QueueMirror::default();
    for id in ids {
        mirror.enqueue_local(
            Some(id.to_string()),
            id.to_string(),
            id.to_string(),
            Vec::new(),
            QueueLane::FollowUp,
            QueueOrigin::Client,
        );
    }
    mirror
}

fn local_ids(mirror: &QueueMirror) -> Vec<String> {
    mirror.local_entries().iter().map(|e| e.id.clone()).collect()
}

#[test]
fn queue_notifications_edit_the_local_queue() {
    let mut mirror = mirror_with(&["a", "b", "c"]);
    let removed = apply_queue_notification(&mut mirror, "x.ai/queue/remove", &j(r#"{"id": "b", "version": 0}"#)).unwrap();
    assert_eq!(removed.finished.len(), 1);
    assert_eq!(removed.finished[0].id, "b");
    assert_eq!(removed.warning, None);

    let missing = apply_queue_notification(&mut mirror, "x.ai/queue/remove", &j(r#"{"id": "b"}"#)).unwrap();
    assert!(missing.finished.is_empty());
    assert_eq!(missing.warning.as_deref(), Some(REMOVE_WARNING));

    let edit = apply_queue_notification(&mut mirror, "x.ai/queue/edit", &j(r#"{"id": "a", "newText": " new "}"#)).unwrap();
    assert_eq!(edit.warning, None);
    assert_eq!(mirror.local_entries()[0].display_text, "new");
    assert_eq!(mirror.local_entries()[0].version, 1);

    let blank = apply_queue_notification(&mut mirror, "x.ai/queue/edit", &j(r#"{"id": "a", "text": "  "}"#)).unwrap();
    assert_eq!(blank.warning.as_deref(), Some(EDIT_WARNING));

    apply_queue_notification(&mut mirror, "x.ai/queue/reorder", &j(r#"{"ids": ["c", 7, "a"]}"#)).unwrap();
    assert_eq!(local_ids(&mirror), vec!["c", "a"]);

    let cleared = apply_queue_notification(&mut mirror, "x.ai/queue/clear", &Json::Null).unwrap();
    assert_eq!(cleared.finished.len(), 2);
    assert!(mirror.local_entries().is_empty());

    assert!(apply_queue_notification(&mut mirror, "x.ai/queue/interject", &Json::Null).is_none());
}

#[test]
fn stale_version_keeps_the_row() {
    let mut mirror = mirror_with(&["a"]);
    let notice = apply_queue_notification(&mut mirror, "x.ai/queue/remove", &j(r#"{"id": "a", "expectedVersion": 3}"#)).unwrap();
    assert!(notice.finished.is_empty());
    assert_eq!(local_ids(&mirror), vec!["a"]);
}

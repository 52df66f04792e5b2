use pi_grok::json::Json;
use pi_grok::pi_host::path_search_names;
use pi_grok::queue_runtime::{note_context_tokens, refresh_context_tokens};
use pi_grok::subagent_bridge::{plan_subagent_bridge, BridgeStep, SubagentSessions};
use pi_grok::subagent_projection::{BridgeOperation, BridgeProjection, ChildUpdate};

fn projection(kind: &str, replay: bool) -> BridgeProjection {
    BridgeProjection {
        sequence: 7,
        replay,
        kind: kind.to_string(),
        subagent_id: "sa-1".to_string(),
        child_session_id: "child-1".to_string(),
        operations: vec![
            BridgeOperation::ParentTaskMetadata {
                tool_call_id: "call-1".to_string(),
                raw_input: Json::Object(vec![("reconcile".to_string(), Json::Bool(false))]),
            },
            BridgeOperation::ParentLifecycle(Json::Null),
            BridgeOperation::ChildUpdate {
                child_session_id: "child-1".to_string(),
                update: ChildUpdate::AgentMessageChunk("hi".to_string()),
            },
            BridgeOperation::ReplayComplete { request_id: "r-1".to_string() },
        ],
    }
}

#[test]
fn spawned_events_register_the_child_and_keep_operation_order() {
    let mut sessions = SubagentSessions::new();
    let plan = plan_subagent_bridge(&mut sessions, projection("spawned", false), true).unwrap();
    assert_eq!(plan.event_id, "pi-grok-subagent:sa-1:7");
    assert_eq!(sessions.subagent_for("child-1"), Some("sa-1".to_string()));
    assert_eq!(plan.steps.len(), 4);
    assert!(matches!(plan.steps[0], BridgeStep::TaskMetadata { in_progress: true, .. }));
    assert!(matches!(plan.steps[1], BridgeStep::Lifecycle { method: "x.ai/session_notification", .. }));
    assert!(matches!(plan.steps[2], BridgeStep::Child { .. }));
    assert!(matches!(plan.steps[3], BridgeStep::ReplayComplete { .. }));
}

#[test]
fn replays_are_not_marked_in_progress_and_use_session_update() {
    let mut sessions = SubagentSessions::new();
    let plan = plan_subagent_bridge(&mut sessions, projection("progress", true), true).unwrap();
    assert!(matches!(plan.steps[0], BridgeStep::TaskMetadata { in_progress: false, .. }));
    assert!(matches!(plan.steps[1], BridgeStep::Lifecycle { method: "x.ai/session/update", .. }));
    assert_eq!(sessions.subagent_for("child-1"), None);
}

#[test]
fn unaccepted_sequences_are_dropped() {
    let mut sessions = SubagentSessions::new();
    assert!(plan_subagent_bridge(&mut sessions, projection("spawned", false), false).is_none());
    assert_eq!(sessions.subagent_for("child-1"), None);
}

#[test]
fn context_estimates_are_remembered() {
    let mut last = None;
    note_context_tokens(&mut last, 0);
    assert_eq!(last, None);
    note_context_tokens(&mut last, 120);
    assert_eq!(last, Some(120));
    assert!(!refresh_context_tokens(&mut last, 120));
    assert!(refresh_context_tokens(&mut last, 130));
    assert_eq!(last, Some(130));
}

#[test]
fn windows_path_search_prefers_shims() {
    assert_eq!(path_search_names("pi"), vec!["pi.cmd", "pi.exe", "pi.bat", "pi"]);
    assert_eq!(path_search_names("pi.exe"), vec!["pi.exe"]);
}

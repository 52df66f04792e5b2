use pi_grok::ext_handlers::{
    bash_background_response, bash_kill_response, btw_answer_response, btw_payload,
    plan_bash_background, plan_bash_kill, plan_steer, recap_auto, recap_payload, recap_response,
    BTW_DISABLED_MESSAGE,
};
use pi_grok::ext_handlers::{
    queue_mode_request, queue_mode_response, session_messages_response, session_search_response,
    session_search_row, SessionHit,
};
use pi_grok::ext_notices::{
    extension_command, remote_tui_cancel_event, remote_tui_input_event, shortcut_dispatch_key,
};
use pi_grok::json::Json;
use pi_grok::queue_bridge::QueueMirror;

fn from_value(v: &serde_json::Value) -> Json {
    match v {
        serde_json::Value::Null => Json::Null,
        serde_json::Value::Bool(b) => Json::Bool(*b),
        serde_json::Value::Number(n) => match n.as_i64() {
            Some(i) => Json::Int(i as i128),
            None => match n.as_u64() {
                Some(u) => Json::Int(u as i128),
                None => Json::Float(n.to_string()),
            },
        },
        serde_json::Value::String(s) => Json::Str(s.clone()),
        serde_json::Value::Array(items) => Json::Array(items.iter().map(from_value).collect()),
        serde_json::Value::Object(map) => {
            Json::Object(map.iter().map(|(k, v)| (k.clone(), from_value(v))).collect())
        }
    }
}

fn j(text: &str) -> Json {
    from_value(&serde_json::from_str(text).expect("valid JSON"))
}

fn text<'a>(v: &'a Json, key: &str) -> Option<&'a str> {
    v.get(key).and_then(Json::as_str)
}

#[test]
fn bash_controls_need_an_id_then_an_enabled_channel() {
    assert_eq!(
        plan_bash_background(&j(r#"{"terminalId":"  t1 "}"#), true).unwrap(),
        "t1"
    );
    assert_eq!(
        plan_bash_background(&j(r#"{"toolCallId":"call-9"}"#), true).unwrap(),
        "call-9"
    );
    let missing = plan_bash_background(&j(r#"{"terminalId":"  "}"#), false).unwrap_err();
    assert_eq!(missing.message(), "terminalId is required");
    let off = plan_bash_background(&j(r#"{"terminalId":"t1"}"#), false).unwrap_err();
    assert_eq!(off.message(), "Pi Bash background control is disabled");
    assert_eq!(plan_bash_kill(&j(r#"{"task_id":"k"}"#), true).unwrap(), "k");
    assert_eq!(
        plan_bash_kill(&j(r#"{}"#), true).unwrap_err().message(),
        "taskId is required"
    );
    let reply = bash_background_response("t1");
    assert_eq!(reply.get("accepted").and_then(Json::as_bool), Some(true));
    assert_eq!(text(&reply, "terminalId"), Some("t1"));
    let killed = bash_kill_response("k", Json::Str("killed".into()));
    assert_eq!(text(&killed, "taskId"), Some("k"));
    assert_eq!(text(&killed, "outcome"), Some("killed"));
}

#[test]
fn recap_payload_fills_defaults() {
    let params = j(r#"{"auto":true,"modelId":"  grok-4 ","terminal_width":120,"instructions":"  be brief "}"#);
    assert!(recap_auto(&params));
    let payload = recap_payload(&params, Vec::new(), Some("en".into()));
    assert_eq!(payload.get("auto").and_then(Json::as_bool), Some(true));
    assert_eq!(text(&payload, "model"), Some("grok-4"));
    assert_eq!(payload.get("models").and_then(Json::as_array).map(Vec::len), Some(0));
    assert_eq!(payload.get("thinkingLevel"), Some(&Json::Null));
    assert_eq!(payload.get("recapMermaid").and_then(Json::as_bool), Some(false));
    assert_eq!(payload.get("terminalWidth").and_then(Json::as_u64), Some(120));
    assert_eq!(text(&payload, "language"), Some("en"));
    assert_eq!(text(&payload, "customInstructions"), Some("be brief"));
    let chained = recap_payload(&params, vec!["a".into(), "b".into()], None);
    assert_eq!(text(&chained, "model"), Some("a"));
    assert_eq!(chained.get("language"), Some(&Json::Null));
    assert!(!recap_auto(&j("{}")));
}

#[test]
fn recap_replies_mark_a_skipped_request() {
    let skipped = recap_response(true, true);
    assert_eq!(text(&skipped, "skipped"), Some("in_flight"));
    let done = recap_response(false, false);
    assert_eq!(done.get("ok").and_then(Json::as_bool), Some(true));
    assert!(done.get("skipped").is_none());
}

#[test]
fn side_questions_need_the_feature_and_a_question() {
    let off = btw_payload(&j(r#"{"question":"why?"}"#), Vec::new(), "btw-1", false).unwrap_err();
    assert!(off.message().contains(BTW_DISABLED_MESSAGE));
    let empty = btw_payload(&j(r#"{"question":"  "}"#), Vec::new(), "btw-1", true).unwrap_err();
    assert_eq!(empty.message(), "question is required");
    let ok = btw_payload(&j(r#"{"q":" why? ","thinking_level":"high"}"#), vec!["m".into()], "btw-1", true)
        .unwrap();
    assert_eq!(text(&ok, "requestId"), Some("btw-1"));
    assert_eq!(text(&ok, "question"), Some("why?"));
    assert_eq!(text(&ok, "thinkingLevel"), Some("high"));
    let answer = btw_answer_response("because");
    assert_eq!(text(&answer, "answer"), Some("because"));
}

#[test]
fn interjections_reserve_the_client_id() {
    let mut mirror = QueueMirror::new();
    let empty = plan_steer(&mut mirror, &j(r#"{"text":"   "}"#), None).unwrap_err();
    assert_eq!(empty.message(), "Pi interjection is empty");
    let plan = plan_steer(&mut mirror, &j(r#"{"text":"stop that","interjectionId":" i-1 "}"#), None)
        .unwrap();
    assert_eq!(plan.client_id.as_deref(), Some("i-1"));
    assert_eq!(text(&plan.request, "message"), Some("stop that"));
    assert_eq!(text(&plan.request, "streamingBehavior"), Some("steer"));
    // Pi lists the steer: the row keeps the client's id.
    mirror.apply_queue_update(&["stop that".to_string()], &[]);
    let snapshot = mirror.snapshot();
    assert!(snapshot.entries.iter().any(|row| text(row, "id") == Some("i-1")));
    let from_blocks = plan_steer(
        &mut mirror,
        &j(r#"{"text":"ignored"}"#),
        Some((String::new(), vec![Json::Str("img".into())])),
    )
    .unwrap();
    assert!(from_blocks.client_id.is_none());
    assert!(from_blocks.request.get("images").is_some());
}

#[test]
fn queue_mode_and_session_replies() {
    let steer = queue_mode_request("all", true);
    assert_eq!(text(&steer, "type"), Some("set_steering_mode"));
    assert_eq!(text(&steer, "mode"), Some("all"));
    let follow = queue_mode_request("one-at-a-time", false);
    assert_eq!(text(&follow, "type"), Some("set_follow_up_mode"));
    assert_eq!(text(&queue_mode_response("all"), "mode"), Some("all"));
    let empty = session_search_response(Vec::new());
    assert_eq!(empty.get("total").and_then(Json::as_u64), Some(0));
    let two = session_messages_response(vec![Json::Null, Json::Null]);
    assert_eq!(two.get("total").and_then(Json::as_u64), Some(2));
    assert_eq!(two.get("messages").and_then(Json::as_array).map(Vec::len), Some(2));
}

#[test]
fn extension_notifications_are_read() {
    assert_eq!(
        extension_command(&j(r#"{"command":"  /BTW-History recent "}"#)),
        Some(("/BTW-History recent".to_string(), true))
    );
    assert_eq!(
        extension_command(&j(r#"{"command":"/todo add x"}"#)),
        Some(("/todo add x".to_string(), false))
    );
    assert_eq!(extension_command(&j(r#"{"command":"todo"}"#)), None);
    let input = remote_tui_input_event(&j(r#"{"data":"q"}"#)).unwrap();
    assert_eq!(text(&input, "op"), Some("input"));
    assert_eq!(text(&input, "data"), Some("q"));
    assert!(remote_tui_input_event(&j("{}")).is_none());
    assert_eq!(text(&remote_tui_cancel_event(), "op"), Some("cancel"));
    assert_eq!(shortcut_dispatch_key(&j(r#"{"key":" ctrl+k "}"#)), Some("ctrl+k".to_string()));
    assert_eq!(shortcut_dispatch_key(&j(r#"{"key":"  "}"#)), None);
}

#[test]
fn blank_session_searches_are_answered_without_searching() {
    let reply = pi_grok::ext_handlers::session_search_without_query("   ").unwrap();
    assert_eq!(reply.get("total").and_then(Json::as_u64), Some(0));
    assert_eq!(reply.get("results").and_then(Json::as_array).map(Vec::len), Some(0));
    assert!(pi_grok::ext_handlers::session_search_without_query(" rust ").is_none());
}

#[test]
fn search_rows_carry_every_field_of_the_hit() {
    let row = session_search_row(SessionHit {
        session_id: Json::Str("s-1".into()),
        cwd: Json::Str("/w".into()),
        summary: Json::Str("fix build".into()),
        snippet: Json::Str("…cargo…".into()),
        score: Json::Float("0.75".into()),
        matched_fields: Json::Array(vec![Json::Str("summary".into())]),
        updated_at: Json::Str("2024-01-01".into()),
    });
    assert_eq!(row.get("sessionId").and_then(Json::as_str), Some("s-1"));
    assert_eq!(row.get("score"), Some(&Json::Float("0.75".into())));
    assert_eq!(row.get("updatedAt").and_then(Json::as_str), Some("2024-01-01"));
    let reply = session_search_response(vec![row]);
    assert_eq!(reply.get("total").and_then(Json::as_u64), Some(1));
}

use pi_grok::btw_bridge::{
    btw_answer_payload, parse_btw_history_entry, parse_btw_message, BtwHistoryEntry,
    BtwProjection,
};
use pi_grok::json::Json;
use pi_grok::recap_bridge::{parse_recap_message, session_recap_notification, RecapProjection};

fn from_value(v: &serde_json::Value) -> Json {
    match v {
        serde_json::Value::Null => Json::Null,
        serde_json::Value::Bool(b) => Json::Bool(*b),
        serde_json::Value::Number(n) => {
            if let Some(i) = n.as_i64() {
                Json::Int(i as i128)
            } else if let Some(u) = n.as_u64() {
                Json::Int(u as i128)
            } else {
                Json::Float(n.to_string())
            }
        }
        serde_json::Value::String(s) => Json::Str(s.clone()),
        serde_json::Value::Array(items) => Json::Array(items.iter().map(from_value).collect()),
        serde_json::Value::Object(map) => Json::Object(
            map.iter().map(|(k, v)| (k.clone(), from_value(v))).collect(),
        ),
    }
}

fn j(text: &str) -> Json {
    from_value(&serde_json::from_str(text).expect("valid JSON"))
}

fn text_at<'a>(value: &'a Json, path: &[&str]) -> Option<&'a str> {
    let mut cur = value;
    for key in path {
        cur = cur.get(key)?;
    }
    cur.as_str()
}

#[test]
fn parses_success() {
    let event = j(r#"{
        "message": {
            "role": "custom",
            "customType": "pi-grok-btw/v1",
            "content": "42",
            "details": {
                "ok": true,
                "requestId": "r1",
                "answer": "42",
                "modelUsed": "openai::gpt"
            }
        }
    }"#);
    let p = parse_btw_message(&event).expect("projection");
    assert_eq!(
        p,
        BtwProjection::Complete {
            request_id: "r1".into(),
            result: Ok("42".into()),
            model_used: Some("openai::gpt".into()),
        }
    );
}

#[test]
fn parses_delta() {
    let event = j(r#"{
        "message": {
            "customType": "pi-grok-btw/v1",
            "details": {
                "ok": true,
                "phase": "delta",
                "requestId": "r1",
                "delta": "partial"
            }
        }
    }"#);
    assert_eq!(
        parse_btw_message(&event),
        Some(BtwProjection::Delta {
            request_id: "r1".into(),
            delta: "partial".into(),
        })
    );
}

#[test]
fn parses_error() {
    let event = j(r#"{
        "message": {
            "customType": "pi-grok-btw/v1",
            "details": {
                "ok": false,
                "requestId": "r2",
                "error": "All /btw models failed"
            }
        }
    }"#);
    let p = parse_btw_message(&event).expect("projection");
    assert!(matches!(
        p,
        BtwProjection::Complete {
            request_id,
            result: Err(error),
            ..
        } if request_id == "r2" && error.contains("failed")
    ));
}

#[test]
fn parses_delta_from_append_entry() {
    let event = j(r#"{
        "type": "entry_appended",
        "entry": {
            "id": "e1",
            "type": "custom",
            "customType": "pi-grok-btw/v1",
            "data": {
                "version": 1,
                "requestId": "r1",
                "ok": true,
                "phase": "delta",
                "delta": "partial"
            },
            "timestamp": "2026-08-21T00:00:00.000Z"
        }
    }"#);
    assert_eq!(
        parse_btw_message(&event),
        Some(BtwProjection::Delta {
            request_id: "r1".into(),
            delta: "partial".into(),
        })
    );
}

#[test]
fn parses_complete_from_append_entry() {
    let event = j(r#"{
        "type": "entry_appended",
        "entry": {
            "type": "custom",
            "customType": "pi-grok-btw/v1",
            "data": {
                "version": 1,
                "requestId": "r3",
                "ok": true,
                "phase": "complete",
                "answer": "42",
                "modelUsed": "openai::gpt"
            }
        }
    }"#);
    assert_eq!(
        parse_btw_message(&event),
        Some(BtwProjection::Complete {
            request_id: "r3".into(),
            result: Ok("42".into()),
            model_used: Some("openai::gpt".into()),
        })
    );
}

#[test]
fn ignores_history_and_other_custom_entries() {
    // /btw-history entries use a dedicated custom type.
    let history = j(r#"{
        "type": "entry_appended",
        "entry": {
            "type": "custom",
            "customType": "pi-grok-btw/history/v1",
            "data": { "version": 1, "answer": "saved" }
        }
    }"#);
    assert!(parse_btw_message(&history).is_none());

    let other = j(r#"{
        "type": "entry_appended",
        "entry": {
            "type": "custom",
            "customType": "pi-grok-recap/v1",
            "data": { "version": 1 }
        }
    }"#);
    assert!(parse_btw_message(&other).is_none());
}

#[test]
fn ignores_other_types() {
    let event = j(r#"{ "message": { "customType": "pi-grok-recap/v1" } }"#);
    assert!(parse_btw_message(&event).is_none());
}

#[test]
fn empty_answer_and_missing_error_have_fixed_texts() {
    let empty = j(r#"{"message": {"customType": "pi-grok-btw/v1", "details": {"ok": true, "request_id": "r9"}}}"#);
    assert_eq!(
        parse_btw_message(&empty),
        Some(BtwProjection::Complete {
            request_id: "r9".into(),
            result: Err("Empty side question response".into()),
            model_used: None,
        })
    );
    let failed = j(r#"{"message": {"custom_type": "pi-grok-btw/v1"}}"#);
    assert_eq!(
        parse_btw_message(&failed),
        Some(BtwProjection::Complete {
            request_id: "".into(),
            result: Err("side question failed".into()),
            model_used: None,
        })
    );
    let empty_delta = j(r#"{"message": {"customType": "pi-grok-btw/v1", "details": {"phase": "delta", "delta": ""}}}"#);
    assert_eq!(parse_btw_message(&empty_delta), None);
}

#[test]
fn history_entries_need_version_one_and_text() {
    let entry = j(r#"{"entry": {"id": "e7", "type": "custom", "customType": "pi-grok-btw/history/v1",
        "data": {"version": 1, "question": "why?", "answer": "because", "createdAt": 1700000000000, "modelUsed": "m"}}}"#);
    assert_eq!(
        parse_btw_history_entry(&entry),
        Some(BtwHistoryEntry {
            id: "e7".into(),
            question: "why?".into(),
            answer: "because".into(),
            created_at_ms: Some(1_700_000_000_000),
            model_used: Some("m".into()),
        })
    );
    let by_request = j(r#"{"type": "custom", "customType": "pi-grok-btw/history/v1",
        "data": {"version": 1, "question": "q", "answer": "a", "requestId": "r5", "createdAt": 18446744073709551615}}"#);
    let parsed = parse_btw_history_entry(&by_request).unwrap();
    assert_eq!(parsed.id, "r5");
    assert_eq!(parsed.created_at_ms, Some(-1));
    let blank = j(r#"{"type": "custom", "customType": "pi-grok-btw/history/v1",
        "data": {"version": 1, "question": "  ", "answer": "a", "requestId": "r5"}}"#);
    assert_eq!(parse_btw_history_entry(&blank), None);
    let v2 = j(r#"{"type": "custom", "customType": "pi-grok-btw/history/v1",
        "data": {"version": 2, "question": "q", "answer": "a", "requestId": "r5"}}"#);
    assert_eq!(parse_btw_history_entry(&v2), None);
}

#[test]
fn answer_payload_carries_model_only_with_an_answer() {
    let ok = btw_answer_payload(&BtwProjection::Complete {
        request_id: "r".into(),
        result: Ok("42".into()),
        model_used: Some("m".into()),
    });
    assert_eq!(text_at(&ok, &["answer"]), Some("42"));
    assert_eq!(text_at(&ok, &["modelUsed"]), Some("m"));
    let err = btw_answer_payload(&BtwProjection::Complete {
        request_id: "r".into(),
        result: Err("boom".into()),
        model_used: Some("m".into()),
    });
    assert_eq!(text_at(&err, &["error"]), Some("boom"));
    assert!(err.get("modelUsed").is_none());
    let delta = btw_answer_payload(&BtwProjection::Delta {
        request_id: "r".into(),
        delta: "d".into(),
    });
    assert_eq!(text_at(&delta, &["delta"]), Some("d"));
}

#[test]
fn parses_success_recap() {
    let event = j(r#"{
        "message": {
            "role": "custom",
            "customType": "pi-grok-recap/v1",
            "content": "ignored body",
            "details": {
                "version": 1,
                "ok": true,
                "auto": false,
                "summary": "We fixed the recap bridge."
            }
        }
    }"#);
    assert_eq!(
        parse_recap_message(&event),
        Some(RecapProjection::Available {
            summary: "We fixed the recap bridge.".into(),
            auto: false,
        })
    );
}

#[test]
fn parses_unavailable_recap() {
    let event = j(r#"{
        "message": {
            "role": "custom",
            "customType": "pi-grok-recap/v1",
            "details": {
                "ok": false,
                "auto": true,
                "reason": "no main turns yet"
            }
        }
    }"#);
    assert_eq!(
        parse_recap_message(&event),
        Some(RecapProjection::Unavailable { auto: true })
    );
}

#[test]
fn parses_success_recap_from_append_entry() {
    let event = j(r#"{
        "type": "entry_appended",
        "entry": {
            "id": "e1",
            "type": "custom",
            "customType": "pi-grok-recap/v1",
            "data": {
                "version": 1,
                "ok": true,
                "auto": true,
                "summary": "We fixed the recap bridge via appendEntry."
            },
            "timestamp": "2026-08-21T00:00:00.000Z"
        }
    }"#);
    assert_eq!(
        parse_recap_message(&event),
        Some(RecapProjection::Available {
            summary: "We fixed the recap bridge via appendEntry.".into(),
            auto: true,
        })
    );
}

#[test]
fn ignores_other_custom_entries() {
    let event = j(r#"{
        "type": "entry_appended",
        "entry": {
            "type": "custom",
            "customType": "pi-grok-btw/v1",
            "data": { "version": 1, "answer": "side answer" }
        }
    }"#);
    assert!(parse_recap_message(&event).is_none());
}

#[test]
fn ignores_other_custom_messages() {
    let event = j(r#"{
        "message": {
            "role": "custom",
            "customType": "pi-grok-subagent/v1",
            "details": { "version": 1 }
        }
    }"#);
    assert!(parse_recap_message(&event).is_none());
}

#[test]
fn builds_session_recap_payloads() {
    let ok = session_recap_notification(
        "sess-1",
        &RecapProjection::Available {
            summary: "hello".into(),
            auto: true,
        },
    );
    assert_eq!(text_at(&ok, &["sessionId"]), Some("sess-1"));
    assert_eq!(text_at(&ok, &["update", "sessionUpdate"]), Some("session_recap"));
    assert_eq!(text_at(&ok, &["update", "summary"]), Some("hello"));
    assert_eq!(
        ok.get("update").and_then(|u| u.get("auto")),
        Some(&Json::Bool(true))
    );

    let miss = session_recap_notification("sess-1", &RecapProjection::Unavailable { auto: false });
    assert_eq!(
        text_at(&miss, &["update", "sessionUpdate"]),
        Some("session_recap_unavailable")
    );
}

#[test]
fn recap_falls_back_to_message_text() {
    let event = j(r#"{"message": {"role": "custom", "customType": "pi-grok-recap/v1",
        "content": [{"type": "text", "text": ""}, {"type": "image"}, {"type": "text", "text": " a "}, {"type": "text", "text": "b"}],
        "details": {"ok": true, "summary": "   "}}}"#);
    assert_eq!(
        parse_recap_message(&event),
        Some(RecapProjection::Available {
            summary: "a \nb".into(),
            auto: false,
        })
    );
}

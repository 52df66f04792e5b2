use pi_grok::background_bash_bridge::{
    background_bash_notification, background_bash_output_update,
    drain_running_background_bash, orphaned_background_bash_completion,
    parse_background_bash_message, parse_background_bash_status,
    parse_background_bash_tool_result, record_background_bash, BackgroundBashProjection,
    BackgroundBashTask, BackgroundBashTasks, WireTime, BRIDGE_TYPE, ORPHANED_SIGNAL,
};
use pi_grok::json::Json;

fn s(text: &str) -> Json {
    Json::Str(text.to_string())
}

fn obj(members: Vec<(&str, Json)>) -> Json {
    Json::Object(members.into_iter().map(|(k, v)| (k.to_string(), v)).collect())
}

fn at<'a>(value: &'a Json, path: &[&str]) -> Option<&'a Json> {
    let mut cur = value;
    for key in path {
        cur = cur.get(key)?;
    }
    Some(cur)
}

fn text_at<'a>(value: &'a Json, path: &[&str]) -> Option<&'a str> {
    at(value, path).and_then(Json::as_str)
}

const T0: WireTime = WireTime { secs: 1_700_000_000, nanos: 5 };

#[test]
fn parses_started_task() {
    let event = obj(vec![(
        "message",
        obj(vec![
            ("role", s("custom")),
            ("customType", s(BRIDGE_TYPE)),
            (
                "details",
                obj(vec![
                    ("event", s("started")),
                    ("taskId", s("bash-1")),
                    ("toolCallId", s("call-1")),
                    ("command", s("cargo test")),
                    ("cwd", s("/repo")),
                    ("outputFile", s("/tmp/task.log")),
                    ("description", s("Run tests")),
                ]),
            ),
        ]),
    )]);
    assert_eq!(
        parse_background_bash_message(&event),
        Some(BackgroundBashProjection::Started {
            task_id: "bash-1".into(),
            tool_call_id: "call-1".into(),
            command: "cargo test".into(),
            cwd: "/repo".into(),
            output_file: "/tmp/task.log".into(),
            description: Some("Run tests".into()),
        })
    );
}

#[test]
fn parses_background_tool_result_for_initial_or_promoted_bash() {
    let result = obj(vec![(
        "details",
        obj(vec![
            ("background", Json::Bool(true)),
            ("taskId", s("bash-1")),
            ("command", s("cargo test")),
            ("cwd", s("/repo")),
            ("outputFile", s("/tmp/task.log")),
        ]),
    )]);
    assert_eq!(
        parse_background_bash_tool_result("bash", "call-1", None, &result),
        Some(BackgroundBashProjection::Started {
            task_id: "bash-1".into(),
            tool_call_id: "call-1".into(),
            command: "cargo test".into(),
            cwd: "/repo".into(),
            output_file: "/tmp/task.log".into(),
            description: None,
        })
    );

    // When details omit description, fall back to pi-grok-bash task_name.
    let args = obj(vec![("command", s("cargo test")), ("task_name", s("运行测试"))]);
    assert_eq!(
        parse_background_bash_tool_result("bash", "call-1", Some(&args), &result),
        Some(BackgroundBashProjection::Started {
            task_id: "bash-1".into(),
            tool_call_id: "call-1".into(),
            command: "cargo test".into(),
            cwd: "/repo".into(),
            output_file: "/tmp/task.log".into(),
            description: Some("运行测试".into()),
        })
    );
}

#[test]
fn parses_completed_task() {
    let event = obj(vec![(
        "message",
        obj(vec![
            ("role", s("custom")),
            ("customType", s(BRIDGE_TYPE)),
            (
                "details",
                obj(vec![
                    ("event", s("completed")),
                    ("toolCallId", s("call-1")),
                    (
                        "taskSnapshot",
                        obj(vec![("task_id", s("bash-1")), ("completed", Json::Bool(true))]),
                    ),
                ]),
            ),
        ]),
    )]);
    assert_eq!(
        parse_background_bash_message(&event),
        Some(BackgroundBashProjection::Completed {
            tool_call_id: "call-1".into(),
            task_snapshot: obj(vec![("task_id", s("bash-1")), ("completed", Json::Bool(true))]),
        })
    );
}

#[test]
fn ignores_non_bridge_messages() {
    assert!(parse_background_bash_message(&obj(vec![(
        "message",
        obj(vec![("role", s("custom")), ("customType", s("pi-grok-recap/v1"))]),
    )]))
    .is_none());
}

#[test]
fn builds_pager_task_notifications() {
    let (method, started) = background_bash_notification(
        "session-1",
        &BackgroundBashProjection::Started {
            task_id: "bash-1".into(),
            tool_call_id: "call-1".into(),
            command: "cargo test".into(),
            cwd: "/repo".into(),
            output_file: "/tmp/task.log".into(),
            description: None,
        },
    );
    assert_eq!(method, "x.ai/task_backgrounded");
    assert_eq!(text_at(&started, &["sessionId"]), Some("session-1"));
    assert_eq!(
        text_at(&started, &["update", "sessionUpdate"]),
        Some("task_backgrounded")
    );
    assert_eq!(text_at(&started, &["update", "task_id"]), Some("bash-1"));

    let (method, completed) = background_bash_notification(
        "session-1",
        &BackgroundBashProjection::Completed {
            tool_call_id: "call-1".into(),
            task_snapshot: obj(vec![("task_id", s("bash-1")), ("completed", Json::Bool(true))]),
        },
    );
    assert_eq!(method, "x.ai/task_completed");
    assert_eq!(
        text_at(&completed, &["update", "sessionUpdate"]),
        Some("task_completed")
    );
    assert_eq!(
        at(&completed, &["update", "will_wake"]),
        Some(&Json::Bool(false))
    );
}

#[test]
fn builds_cumulative_output_update_before_completion() {
    let update = background_bash_output_update(&BackgroundBashProjection::Completed {
        tool_call_id: "call-1".into(),
        task_snapshot: obj(vec![
            ("task_id", s("bash-1")),
            ("output", s("test output\n")),
            ("truncated", Json::Bool(true)),
        ]),
    })
    .expect("completed projection creates output update");
    assert_eq!(text_at(&update, &["toolCallId"]), Some("call-1"));
    assert_eq!(text_at(&update, &["rawOutput", "type"]), Some("Bash"));
    assert_eq!(
        text_at(&update, &["rawOutput", "output_for_prompt"]),
        Some("test output\n")
    );
    assert_eq!(
        at(&update, &["rawOutput", "truncated"]),
        Some(&Json::Bool(true))
    );
}

#[test]
fn skips_output_update_when_the_task_produced_nothing() {
    assert!(background_bash_output_update(&BackgroundBashProjection::Completed {
        tool_call_id: "call-1".into(),
        task_snapshot: obj(vec![("task_id", s("bash-1")), ("output", s(""))]),
    })
    .is_none());
}

#[test]
fn parses_the_out_of_band_status_payload() {
    let snapshot = || {
        obj(vec![
            ("task_id", s("bash-1")),
            ("completed", Json::Bool(true)),
            ("exit_code", Json::Int(0)),
        ])
    };
    let payload = obj(vec![
        ("version", Json::Int(1)),
        ("event", s("completed")),
        ("taskId", s("bash-1")),
        ("toolCallId", s("call-1")),
        ("taskSnapshot", snapshot()),
    ]);
    assert_eq!(
        parse_background_bash_status(&payload),
        Some(BackgroundBashProjection::Completed {
            tool_call_id: "call-1".into(),
            task_snapshot: snapshot(),
        })
    );
    assert!(parse_background_bash_status(&obj(vec![("event", s("unknown"))])).is_none());
}

fn started(task_id: &str) -> BackgroundBashProjection {
    BackgroundBashProjection::Started {
        task_id: task_id.into(),
        tool_call_id: "call-1".into(),
        command: "just desktop-test".into(),
        cwd: "/repo".into(),
        output_file: "/tmp/task.log".into(),
        description: Some("运行完整桌面回归".into()),
    }
}

fn completed(task_id: &str) -> BackgroundBashProjection {
    BackgroundBashProjection::Completed {
        tool_call_id: "call-1".into(),
        task_snapshot: obj(vec![
            ("task_id", s(task_id)),
            ("completed", Json::Bool(true)),
            ("exit_code", Json::Int(0)),
        ]),
    }
}

#[test]
fn terminal_state_is_projected_once_across_both_channels() {
    let mut tasks = BackgroundBashTasks::new();
    assert!(record_background_bash(&mut tasks, &started("bash-1"), T0));
    // Pi re-announces the same start on tool_execution_end and the bridge
    // message; the row must not be recreated as running.
    assert!(record_background_bash(&mut tasks, &started("bash-1"), T0));
    assert!(!tasks.get("bash-1").unwrap().completed);

    assert!(record_background_bash(&mut tasks, &completed("bash-1"), T0));
    assert!(tasks.get("bash-1").unwrap().completed);
    assert!(!record_background_bash(&mut tasks, &completed("bash-1"), T0));
}

#[test]
fn a_completion_without_a_start_is_still_deduplicated() {
    let mut tasks = BackgroundBashTasks::new();
    assert!(record_background_bash(&mut tasks, &completed("bash-1"), T0));
    assert!(!record_background_bash(&mut tasks, &completed("bash-1"), T0));
    // A start arriving late must not resurrect the running state.
    assert!(record_background_bash(&mut tasks, &started("bash-1"), T0));
    assert!(tasks.get("bash-1").unwrap().completed);
}

#[test]
fn draining_settles_only_the_still_running_tasks() {
    let mut tasks = BackgroundBashTasks::new();
    record_background_bash(&mut tasks, &started("bash-1"), T0);
    record_background_bash(&mut tasks, &started("bash-2"), T0);
    record_background_bash(&mut tasks, &completed("bash-2"), T0);

    let orphans = drain_running_background_bash(&mut tasks, T0);
    assert_eq!(orphans.len(), 1);
    let BackgroundBashProjection::Completed { task_snapshot, .. } = &orphans[0] else {
        panic!("orphan projection must be a completion");
    };
    assert_eq!(text_at(task_snapshot, &["task_id"]), Some("bash-1"));
    assert_eq!(text_at(task_snapshot, &["signal"]), Some(ORPHANED_SIGNAL));
    assert!(drain_running_background_bash(&mut tasks, T0).is_empty());
}

#[test]
fn orphan_completion_carries_every_required_snapshot_field() {
    let task = BackgroundBashTask {
        tool_call_id: "call-1".into(),
        command: "just desktop-test".into(),
        cwd: "/repo".into(),
        output_file: "/tmp/task.log".into(),
        started_at: T0,
        completed: false,
    };
    let BackgroundBashProjection::Completed {
        tool_call_id,
        task_snapshot,
    } = orphaned_background_bash_completion("bash-1", &task, WireTime { secs: 1_700_000_100, nanos: 0 })
    else {
        panic!("orphan projection must be a completion");
    };
    assert_eq!(tool_call_id, "call-1");
    assert_eq!(text_at(&task_snapshot, &["task_id"]), Some("bash-1"));
    assert_eq!(text_at(&task_snapshot, &["command"]), Some("just desktop-test"));
    assert_eq!(text_at(&task_snapshot, &["signal"]), Some(ORPHANED_SIGNAL));
    assert_eq!(at(&task_snapshot, &["exit_code"]), Some(&Json::Null));
    assert_eq!(at(&task_snapshot, &["completed"]), Some(&Json::Bool(true)));
    for field in [
        "task_id",
        "command",
        "cwd",
        "start_time",
        "end_time",
        "output",
        "output_file",
        "truncated",
        "exit_code",
        "signal",
        "completed",
    ] {
        assert!(
            task_snapshot.get(field).is_some(),
            "orphan snapshot must carry {field}"
        );
    }
    assert!(at(&task_snapshot, &["start_time", "secs_since_epoch"])
        .and_then(Json::as_u64)
        .is_some());
}

#[test]
fn blank_required_fields_reject_a_start() {
    let details = obj(vec![
        ("event", s("started")),
        ("taskId", s("  ")),
        ("toolCallId", s("call-1")),
        ("command", s("x")),
        ("cwd", s("/")),
        ("outputFile", s("/tmp/o")),
    ]);
    assert!(parse_background_bash_status(&details).is_none());
    let trimmed = obj(vec![
        ("event", s("started")),
        ("taskId", s(" bash-9 ")),
        ("toolCallId", s("call-1")),
        ("command", s("x")),
        ("cwd", s("/")),
        ("outputFile", s("/tmp/o")),
    ]);
    match parse_background_bash_status(&trimmed) {
        Some(BackgroundBashProjection::Started { task_id, description, .. }) => {
            assert_eq!(task_id, "bash-9");
            assert_eq!(description, None);
        }
        other => panic!("unexpected {other:?}"),
    }
}

#[test]
fn completion_without_task_id_is_not_recorded() {
    let mut tasks = BackgroundBashTasks::new();
    let p = BackgroundBashProjection::Completed {
        tool_call_id: "call-1".into(),
        task_snapshot: obj(vec![("completed", Json::Bool(true))]),
    };
    assert!(!record_background_bash(&mut tasks, &p, T0));
    assert_eq!(tasks.len(), 0);
}

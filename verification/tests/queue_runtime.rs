use pi_grok::json::Json;
use pi_grok::queue_bridge::{QueueLane, QueueMirror, QueueOrigin};
use pi_grok::queue_runtime::{
    adapter_busy, enqueue_extension_message, next_prompt_id, next_steering_to_flush, plan_cancel,
    plan_dispatch, plan_interject, plan_prompt, prepare_execution_text, prompt_request,
    push_active_prompt, queue_status_texts, take_active_prompt, ActivePrompt, InterjectPlan, PromptError, PromptPlan, RunFlags,
};

fn idle_flags() -> RunFlags {
    RunFlags { agent_running: false, cancelling: false, bash_running: false, active_prompts: 0 }
}

fn running_flags() -> RunFlags {
    RunFlags { agent_running: true, ..idle_flags() }
}

fn enqueue(mirror: &mut QueueMirror, id: &str, text: &str, lane: QueueLane) {
    mirror.enqueue_local(Some(id.into()), text.into(), text.into(), Vec::new(), lane, QueueOrigin::Client);
}

fn local_ids(mirror: &QueueMirror) -> Vec<String> {
    mirror.local_entries().iter().map(|e| e.id.clone()).collect()
}

fn text_of<'a>(j: &'a Json, key: &str) -> Option<&'a str> {
    j.get(key).and_then(Json::as_str)
}

#[test]
fn busy_when_anything_runs_or_waits() {
    let mut mirror = QueueMirror::new();
    assert!(!adapter_busy(idle_flags(), &mirror));
    assert!(adapter_busy(running_flags(), &mirror));
    assert!(adapter_busy(RunFlags { cancelling: true, ..idle_flags() }, &mirror));
    assert!(adapter_busy(RunFlags { bash_running: true, ..idle_flags() }, &mirror));
    assert!(adapter_busy(RunFlags { active_prompts: 1, ..idle_flags() }, &mirror));
    mirror.set_running_primary("p".into(), "t".into(), "t".into(), Vec::new(), QueueOrigin::Client);
    assert!(adapter_busy(idle_flags(), &mirror));
}

#[test]
fn reminder_goes_in_front_of_the_prompt() {
    assert_eq!(prepare_execution_text(None, "hi".into()), "hi");
    assert_eq!(prepare_execution_text(Some("PLAN".into()), String::new()), "PLAN");
    assert_eq!(prepare_execution_text(Some("PLAN".into()), "hi".into()), "PLAN\n\nhi");
}

#[test]
fn prompt_requests_carry_steer_and_images_only_when_needed() {
    let plain = prompt_request("go", &Vec::new(), false);
    assert_eq!(text_of(&plain, "type"), Some("prompt"));
    assert_eq!(text_of(&plain, "message"), Some("go"));
    assert!(plain.get("streamingBehavior").is_none());
    assert!(plain.get("images").is_none());
    let steer = prompt_request("go", &vec![Json::Str("img".into())], true);
    assert_eq!(text_of(&steer, "streamingBehavior"), Some("steer"));
    let images = steer.get("images").and_then(Json::as_array).unwrap();
    assert_eq!(images.len(), 1);
    assert_eq!(images[0].as_str(), Some("img"));
}

#[test]
fn interject_during_cancel_holds_the_row_at_the_head() {
    let mut mirror = QueueMirror::new();
    enqueue(&mut mirror, "a", "one", QueueLane::FollowUp);
    enqueue(&mut mirror, "b", "two", QueueLane::FollowUp);
    let plan = plan_interject(&mut mirror, "b", Some(0), None, true, false, None);
    assert!(matches!(plan, InterjectPlan::Held));
    assert_eq!(local_ids(&mirror), vec!["b".to_string(), "a".to_string()]);
}

#[test]
fn interject_when_idle_asks_for_a_dispatch() {
    let mut mirror = QueueMirror::new();
    enqueue(&mut mirror, "a", "one", QueueLane::FollowUp);
    enqueue(&mut mirror, "b", "two", QueueLane::FollowUp);
    let plan = plan_interject(&mut mirror, "b", None, Some("edited".into()), false, true, None);
    assert!(matches!(plan, InterjectPlan::DispatchIdle));
    assert_eq!(local_ids(&mirror), vec!["b".to_string(), "a".to_string()]);
    let head = &mirror.local_entries()[0];
    assert_eq!(head.display_text, "edited");
    assert_eq!(head.execution_text, "edited");
    assert_eq!(head.version, 1);
}

#[test]
fn interject_during_a_run_reserves_a_steer() {
    let mut mirror = QueueMirror::new();
    enqueue(&mut mirror, "a", "one", QueueLane::FollowUp);
    enqueue(&mut mirror, "b", "two", QueueLane::Steering);
    let plan = plan_interject(&mut mirror, "b", Some(0), None, false, false, Some("PLAN".into()));
    match plan {
        InterjectPlan::Steer { id, request } => {
            assert_eq!(id, "b");
            assert_eq!(text_of(&request, "message"), Some("PLAN\n\ntwo"));
            assert_eq!(text_of(&request, "streamingBehavior"), Some("steer"));
        }
        other => panic!("expected a steer, got {other:?}"),
    }
    assert_eq!(local_ids(&mirror), vec!["a".to_string()]);
    // Pi lists the steer: the reservation keeps the row's id.
    mirror.apply_queue_update(&["PLAN\n\ntwo".to_string()], &[]);
    let snapshot = mirror.snapshot();
    assert!(snapshot
        .entries
        .iter()
        .any(|row| text_of(row, "id") == Some("b")));
}

#[test]
fn interject_with_a_stale_version_finds_nothing() {
    let mut mirror = QueueMirror::new();
    enqueue(&mut mirror, "a", "one", QueueLane::FollowUp);
    let plan = plan_interject(&mut mirror, "a", Some(7), None, false, false, None);
    assert!(matches!(plan, InterjectPlan::NotFound));
    assert_eq!(local_ids(&mirror), vec!["a".to_string()]);
}

#[test]
fn dispatch_starts_the_oldest_row_only_when_idle() {
    let mut mirror = QueueMirror::new();
    enqueue(&mut mirror, "a", "one", QueueLane::FollowUp);
    enqueue(&mut mirror, "b", "two", QueueLane::FollowUp);
    assert!(plan_dispatch(&mut mirror, running_flags(), None).is_none());
    assert_eq!(local_ids(&mirror).len(), 2);
    let d = plan_dispatch(&mut mirror, idle_flags(), Some("PLAN".into())).unwrap();
    assert_eq!(d.id, "a");
    assert_eq!(text_of(&d.request, "message"), Some("PLAN\n\none"));
    assert!(d.request.get("streamingBehavior").is_none());
    assert_eq!(mirror.running().map(|e| e.id.as_str()), Some("a"));
    assert_eq!(local_ids(&mirror), vec!["b".to_string()]);
    // The running slot is occupied now: nothing else starts.
    assert!(plan_dispatch(&mut mirror, idle_flags(), None).is_none());
    assert_eq!(mirror.running().map(|e| e.id.as_str()), Some("a"));
}

#[test]
fn dispatch_of_an_empty_queue_is_nothing() {
    let mut mirror = QueueMirror::new();
    assert!(plan_dispatch(&mut mirror, idle_flags(), None).is_none());
    assert!(mirror.running().is_none());
}

#[test]
fn extension_messages_are_queued_unless_blank_or_cancelling() {
    let mut mirror = QueueMirror::new();
    assert!(enqueue_extension_message(&mut mirror, "  ".into(), Vec::new(), None, false).is_none());
    assert!(enqueue_extension_message(&mut mirror, "go".into(), Vec::new(), None, true).is_none());
    assert!(mirror.local_entries().is_empty());
    let steer =
        enqueue_extension_message(&mut mirror, "now".into(), Vec::new(), Some("steer"), false).unwrap();
    let follow =
        enqueue_extension_message(&mut mirror, "later".into(), Vec::new(), Some("followUp"), false)
            .unwrap();
    assert!(steer.starts_with("pi-extension-queue-"));
    assert_ne!(steer, follow);
    let rows = mirror.local_entries();
    assert_eq!(rows[0].lane, QueueLane::Steering);
    assert_eq!(rows[1].lane, QueueLane::FollowUp);
    assert_eq!(rows[1].origin, QueueOrigin::Extension);
    // Images alone are a message too.
    assert!(enqueue_extension_message(&mut mirror, String::new(), vec![Json::Null], None, false)
        .is_some());
}

#[test]
fn steering_flushes_only_during_a_run() {
    let mut mirror = QueueMirror::new();
    enqueue(&mut mirror, "f", "later", QueueLane::FollowUp);
    enqueue(&mut mirror, "s", "now", QueueLane::Steering);
    assert!(next_steering_to_flush(idle_flags(), &mirror).is_none());
    assert!(next_steering_to_flush(RunFlags { cancelling: true, ..running_flags() }, &mirror).is_none());
    assert_eq!(next_steering_to_flush(running_flags(), &mirror), Some(("s".to_string(), 0)));
}

#[test]
fn prompt_ids_wrap_past_zero() {
    assert_eq!(next_prompt_id(1), 2);
    assert_eq!(next_prompt_id(u64::MAX), 1);
}

#[test]
fn queue_status_lines_name_nonempty_lanes() {
    assert_eq!(queue_status_texts(0, 0), (None, None));
    assert_eq!(
        queue_status_texts(3, 12),
        (Some("3 steering".to_string()), Some("12 follow-up".to_string()))
    );
}

#[test]
fn empty_prompts_are_refused() {
    let mut mirror = QueueMirror::new();
    let r = plan_prompt(&mut mirror, "   ".into(), Vec::new(), Some("p1"), None, None);
    assert_eq!(r.unwrap_err(), PromptError::Empty);
    assert_eq!(PromptError::Empty.message(), "Pi prompt is empty");
    assert!(mirror.running().is_none());
}

#[test]
fn busy_prompts_are_held_locally_under_the_client_id() {
    let mut mirror = QueueMirror::new();
    let plan = plan_prompt(&mut mirror, "next".into(), Vec::new(), Some("  c-1 "), Some("steer"), None)
        .unwrap();
    match plan {
        PromptPlan::Queued { id } => assert_eq!(id, "c-1"),
        other => panic!("expected a queued prompt, got {other:?}"),
    }
    let plan = plan_prompt(&mut mirror, "after".into(), Vec::new(), Some(" "), Some("followUp"), None)
        .unwrap();
    let generated = match plan {
        PromptPlan::Queued { id } => id,
        other => panic!("expected a queued prompt, got {other:?}"),
    };
    assert!(generated.starts_with("pi-client-queue-"));
    let rows = mirror.local_entries();
    assert_eq!(rows[0].lane, QueueLane::Steering);
    assert_eq!(rows[1].lane, QueueLane::FollowUp);
    assert!(mirror.running().is_none());
}

#[test]
fn idle_prompts_go_straight_to_pi_and_pin_the_running_slot() {
    let mut mirror = QueueMirror::new();
    let plan = plan_prompt(&mut mirror, "hello".into(), Vec::new(), Some("c-9"), None, Some("PLAN".into()))
        .unwrap();
    match plan {
        PromptPlan::Direct { request, pin_primary_running } => {
            assert!(pin_primary_running);
            assert_eq!(text_of(&request, "message"), Some("PLAN\n\nhello"));
        }
        other => panic!("expected a direct prompt, got {other:?}"),
    }
    let running = mirror.running().unwrap();
    assert_eq!(running.id, "c-9");
    assert_eq!(running.display_text, "hello");
    let mut unnamed = QueueMirror::new();
    match plan_prompt(&mut unnamed, "hi".into(), Vec::new(), None, None, None).unwrap() {
        PromptPlan::Direct { pin_primary_running, .. } => assert!(!pin_primary_running),
        other => panic!("expected a direct prompt, got {other:?}"),
    }
    assert!(unnamed.running().is_none());
}

#[test]
fn cancel_empties_the_mirror_and_reports_what_it_held() {
    let mut mirror = QueueMirror::new();
    enqueue(&mut mirror, "a", "one", QueueLane::FollowUp);
    enqueue(&mut mirror, "b", "two", QueueLane::Steering);
    let d = plan_dispatch(&mut mirror, idle_flags(), None).unwrap();
    assert_eq!(d.id, "a");
    let mut flags = RunFlags { bash_running: true, active_prompts: 1, ..running_flags() };
    let mut prompts = vec![ActivePrompt {
        id: 7,
        client_prompt_id: Some("a".into()),
        agent_started: true,
        cancelled: false,
    }];
    let plan = plan_cancel(&mut mirror, &mut flags, &mut prompts);
    assert_eq!(plan.command, "abort_bash");
    assert!(flags.cancelling);
    assert!(flags.bash_running && flags.agent_running);
    assert_eq!(
        prompts,
        vec![ActivePrompt {
            id: 7,
            client_prompt_id: Some("a".into()),
            agent_started: true,
            cancelled: true,
        }]
    );
    assert_eq!(plan.queued.len(), 1);
    assert_eq!(plan.queued[0].id, "b");
    assert_eq!(plan.running.as_ref().map(|e| e.id.as_str()), Some("a"));
    assert!(!plan.notify_running);
    assert!(mirror.local_entries().is_empty());
    assert!(mirror.running().is_none());
    let mut idle = idle_flags();
    let mut none: Vec<ActivePrompt> = Vec::new();
    assert_eq!(plan_cancel(&mut mirror, &mut idle, &mut none).command, "abort");
    assert!(idle.cancelling);
    assert!(none.is_empty());
}

#[test]
fn goal_continuations_wait_for_an_empty_queue() {
    let mut mirror = QueueMirror::new();
    assert!(!pi_grok::queue_runtime::queue_has_work(&mirror.snapshot()));
    enqueue(&mut mirror, "a", "one", QueueLane::FollowUp);
    assert!(pi_grok::queue_runtime::queue_has_work(&mirror.snapshot()));
    let _ = plan_dispatch(&mut mirror, idle_flags(), None);
    assert!(pi_grok::queue_runtime::queue_has_work(&mirror.snapshot()));
}

#[test]
fn active_prompts_take_ids_in_turn_and_leave_by_id() {
    let mut next = u64::MAX;
    let mut prompts: Vec<ActivePrompt> = Vec::new();
    assert_eq!(push_active_prompt(&mut next, &mut prompts, Some("c-1".into())), u64::MAX);
    assert_eq!(next, 1);
    assert_eq!(push_active_prompt(&mut next, &mut prompts, None), 1);
    assert_eq!(next, 2);
    assert_eq!(prompts.len(), 2);
    assert!(prompts.iter().all(|p| !p.agent_started && !p.cancelled));
    let mut flags = idle_flags();
    let mut mirror = QueueMirror::new();
    plan_cancel(&mut mirror, &mut flags, &mut prompts);
    let taken = take_active_prompt(&mut prompts, u64::MAX).unwrap();
    assert_eq!(taken.client_prompt_id.as_deref(), Some("c-1"));
    assert!(taken.cancelled);
    assert!(take_active_prompt(&mut prompts, 7).is_none());
    assert_eq!(prompts.len(), 1);
    assert_eq!(prompts[0].id, 1);
}

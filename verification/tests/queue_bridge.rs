use pi_grok::json::Json;
use pi_grok::queue_bridge::{
    queue_changed_params, string_list, QueueLane, QueueMirror, QueueOrigin,
};

fn enqueue(mirror: &mut QueueMirror, id: &str, text: &str) {
    mirror.enqueue_local(
        Some(id.into()),
        text.into(),
        text.into(),
        Vec::new(),
        QueueLane::FollowUp,
        QueueOrigin::Client,
    );
}

fn row_field<'a>(row: &'a Json, key: &str) -> Option<&'a str> {
    row.get(key).and_then(Json::as_str)
}

#[test]
fn local_queue_supports_edit_reorder_remove_and_clear() {
    let mut mirror = QueueMirror::default();
    enqueue(&mut mirror, "a", "one");
    enqueue(&mut mirror, "b", "two");
    enqueue(&mut mirror, "c", "three");
    assert!(mirror.edit_local("b", "two edited".into()));
    assert_eq!(
        mirror
            .local_entries()
            .iter()
            .find(|e| e.id == "b")
            .unwrap()
            .version,
        1
    );
    assert!(mirror.reorder_local(&["c".into(), "b".into(), "a".into()]));
    assert_eq!(row_field(&mirror.snapshot().entries[0], "id"), Some("c"));
    let removed = mirror.take_local("b", Some(1)).unwrap();
    assert_eq!(removed.display_text, "two edited");
    assert_eq!(mirror.clear_local().len(), 2);
    assert!(mirror.snapshot().entries.is_empty());
}

#[test]
fn running_entry_carries_text_for_pager_adoption() {
    let mut mirror = QueueMirror::default();
    enqueue(&mut mirror, "client-1", "hello");
    let entry = mirror.pop_next_local().unwrap();
    mirror.set_running(entry);
    let snapshot = mirror.snapshot();
    assert_eq!(snapshot.running_prompt_id.as_deref(), Some("client-1"));
    assert_eq!(snapshot.running_text.as_deref(), Some("hello"));
    let params = queue_changed_params("session", snapshot);
    assert_eq!(params.get("runningText").and_then(Json::as_str), Some("hello"));
}

#[test]
fn pi_updates_do_not_erase_local_queue() {
    let mut mirror = QueueMirror::default();
    enqueue(&mut mirror, "local", "later");
    mirror.apply_queue_update(&["steer".into()], &["external".into()]);
    let snapshot = mirror.snapshot();
    assert_eq!(snapshot.entries.len(), 3);
    assert_eq!(row_field(&snapshot.entries[2], "id"), Some("local"));
}

#[test]
fn transformed_pi_text_keeps_reserved_id_and_display() {
    let mut mirror = QueueMirror::default();
    mirror.reserve(
        "client-1".into(),
        "raw input".into(),
        "raw input".into(),
        Vec::new(),
        QueueLane::Steering,
        QueueOrigin::Client,
    );
    let snapshot = mirror.apply_queue_update(&["expanded input".into()], &[]);
    assert_eq!(row_field(&snapshot.entries[0], "id"), Some("client-1"));
    assert_eq!(row_field(&snapshot.entries[0], "text"), Some("raw input"));
}

#[test]
fn held_steering_rows_are_cancellable_and_lane_scoped() {
    let mut mirror = QueueMirror::default();
    mirror.enqueue_local(
        Some("s1".into()),
        "steer one".into(),
        "steer one".into(),
        Vec::new(),
        QueueLane::Steering,
        QueueOrigin::Client,
    );
    mirror.enqueue_local(
        Some("f1".into()),
        "follow".into(),
        "follow".into(),
        Vec::new(),
        QueueLane::FollowUp,
        QueueOrigin::Client,
    );
    // Flush picks the oldest steering row, ignoring the follow-up lane.
    assert_eq!(
        mirror.next_local_in_lane(QueueLane::Steering),
        Some(("s1".into(), 0))
    );
    // Cancel = atomic take; version mismatch must reject.
    assert!(mirror.take_local("s1", Some(1)).is_none());
    let cancelled = mirror.take_local("s1", Some(0)).unwrap();
    assert_eq!(cancelled.lane, QueueLane::Steering);
    assert_eq!(mirror.next_local_in_lane(QueueLane::Steering), None);
    assert_eq!(mirror.next_local_in_lane(QueueLane::FollowUp).unwrap().0, "f1");
}

#[test]
fn external_follow_up_dequeue_becomes_running() {
    let mut mirror = QueueMirror::default();
    mirror.apply_queue_update(&[], &["one".into(), "two".into()]);
    let first_ids: Vec<String> = mirror
        .pi_entries()
        .iter()
        .map(|entry| entry.id.clone())
        .collect();
    mirror.apply_queue_update(&[], &["two".into()]);
    assert_eq!(mirror.running().unwrap().id, first_ids[0]);
    assert_eq!(mirror.running().unwrap().origin, QueueOrigin::Pi);
}

#[test]
fn steering_dequeue_preserves_primary_running_entry() {
    let mut mirror = QueueMirror::default();
    mirror.set_running_primary(
        "primary".into(),
        "primary".into(),
        "primary".into(),
        Vec::new(),
        QueueOrigin::Client,
    );
    mirror.apply_queue_update(&["change".into()], &[]);
    mirror.apply_queue_update(&[], &[]);
    assert_eq!(mirror.running().unwrap().id, "primary");
}

/// A Pi-queued follow-up that starts executing while a client prompt owns the
/// running slot must not steal the slot.
#[test]
fn follow_up_dequeue_never_steals_a_live_running_slot() {
    let mut mirror = QueueMirror::default();
    mirror.set_running_primary(
        "client-1".into(),
        "/goal ship it".into(),
        "/goal ship it".into(),
        Vec::new(),
        QueueOrigin::Client,
    );
    mirror.apply_queue_update(&[], &["GOAL reminder".into()]);
    mirror.apply_queue_update(&[], &[]);

    assert_eq!(mirror.running().unwrap().id, "client-1");
    assert_eq!(mirror.running().unwrap().origin, QueueOrigin::Client);
    // Slot occupied: parked entries stay parked…
    assert!(!mirror.promote_parked_running());
    assert_eq!(mirror.running().unwrap().id, "client-1");
    // …but still count as pending work for continuation guards.
    assert_eq!(mirror.snapshot().follow_up_count, 1);
    assert!(mirror.snapshot().entries.is_empty());
}

#[test]
fn parked_follow_up_promotes_once_the_running_slot_frees() {
    let mut mirror = QueueMirror::default();
    mirror.set_running_primary(
        "client-1".into(),
        "cmd".into(),
        "cmd".into(),
        Vec::new(),
        QueueOrigin::Client,
    );
    mirror.apply_queue_update(&[], &["reminder".into()]);
    mirror.apply_queue_update(&[], &[]);
    mirror.clear_running();

    assert!(mirror.promote_parked_running());
    let snapshot = mirror.snapshot();
    assert_eq!(snapshot.running_prompt_id.as_deref(), Some("pi-queue-1"));
    assert_eq!(mirror.running().unwrap().origin, QueueOrigin::Pi);
    // Claimed entry keeps its 1:1 pairing: one clear_running → one
    // prompt_complete at settle.
    let claimed = mirror.clear_running().unwrap();
    assert_eq!(claimed.id, "pi-queue-1");
    assert!(!mirror.promote_parked_running());
}

#[test]
fn generated_extension_ids_are_stable_and_distinct() {
    let mut mirror = QueueMirror::default();
    let first = mirror.enqueue_local(
        None,
        "one".into(),
        "one".into(),
        Vec::new(),
        QueueLane::FollowUp,
        QueueOrigin::Extension,
    );
    let second = mirror.enqueue_local(
        None,
        "two".into(),
        "two".into(),
        Vec::new(),
        QueueLane::FollowUp,
        QueueOrigin::Extension,
    );
    assert!(first.starts_with("pi-extension-queue-"));
    assert_ne!(first, second);
}

#[test]
fn blank_id_is_replaced_by_a_generated_client_id() {
    let mut mirror = QueueMirror::default();
    let id = mirror.enqueue_local(
        Some("   ".into()),
        "x".into(),
        "x".into(),
        Vec::new(),
        QueueLane::FollowUp,
        QueueOrigin::Client,
    );
    assert_eq!(id, "pi-client-queue-1");
}

#[test]
fn re_enqueue_with_same_id_updates_in_place() {
    let mut mirror = QueueMirror::default();
    enqueue(&mut mirror, "a", "one");
    enqueue(&mut mirror, "b", "two");
    assert!(mirror.edit_local("a", "edited".into()));
    enqueue(&mut mirror, "a", "again");
    let rows = mirror.local_entries();
    assert_eq!(rows.len(), 2);
    assert_eq!(rows[0].id, "a");
    assert_eq!(rows[0].display_text, "again");
    assert_eq!(rows[0].version, 1);
}

#[test]
fn reapplying_the_same_pi_queue_keeps_ids() {
    let mut mirror = QueueMirror::default();
    mirror.apply_queue_update(&["s".into()], &["f".into(), "f".into()]);
    let before: Vec<String> = mirror.pi_entries().iter().map(|e| e.id.clone()).collect();
    assert_eq!(before, vec!["pi-queue-1", "pi-queue-2", "pi-queue-3"]);
    mirror.apply_queue_update(&["s".into()], &["f".into(), "f".into()]);
    let after: Vec<String> = mirror.pi_entries().iter().map(|e| e.id.clone()).collect();
    assert_eq!(before, after);
    assert!(mirror.running().is_none());
}

#[test]
fn reorder_with_fewer_than_two_rows_is_refused() {
    let mut mirror = QueueMirror::default();
    enqueue(&mut mirror, "a", "one");
    assert!(!mirror.reorder_local(&["a".into()]));
    enqueue(&mut mirror, "b", "two");
    assert!(!mirror.reorder_local(&["a".into(), "b".into()]));
    assert!(mirror.reorder_local(&["b".into()]));
    let ids: Vec<&str> = mirror.local_entries().iter().map(|e| e.id.as_str()).collect();
    assert_eq!(ids, vec!["b", "a"]);
}

#[test]
fn push_front_replaces_rows_with_the_same_id() {
    let mut mirror = QueueMirror::default();
    enqueue(&mut mirror, "a", "one");
    enqueue(&mut mirror, "b", "two");
    let b = mirror.take_local("b", None).unwrap();
    enqueue(&mut mirror, "b", "stale");
    mirror.push_front_local(b);
    let ids: Vec<&str> = mirror.local_entries().iter().map(|e| e.id.as_str()).collect();
    assert_eq!(ids, vec!["b", "a"]);
    assert_eq!(mirror.local_entries()[0].display_text, "two");
}

#[test]
fn snapshot_counts_lanes_and_positions() {
    let mut mirror = QueueMirror::default();
    mirror.enqueue_local(
        Some("s".into()),
        "s".into(),
        "s".into(),
        Vec::new(),
        QueueLane::Steering,
        QueueOrigin::Client,
    );
    mirror.apply_queue_update(&["p".into()], &["q".into()]);
    let snap = mirror.snapshot();
    assert_eq!(snap.steering_count, 2);
    assert_eq!(snap.follow_up_count, 1);
    assert_eq!(snap.entries[2].get("position"), Some(&Json::Int(2)));
    assert_eq!(row_field(&snap.entries[2], "kind"), Some("prompt"));
    let cleared = mirror.clear();
    assert!(cleared.entries.is_empty());
    assert_eq!(cleared.follow_up_count, 0);
}

#[test]
fn string_list_keeps_only_strings() {
    let value = Json::Array(vec![
        Json::Str("a".into()),
        Json::Int(1),
        Json::Str("b".into()),
    ]);
    assert_eq!(string_list(Some(&value)), vec!["a".to_string(), "b".to_string()]);
    assert!(string_list(None).is_empty());
    assert!(string_list(Some(&Json::Null)).is_empty());
}

#[test]
fn reservation_is_released_once_its_row_appears() {
    let mut mirror = QueueMirror::default();
    mirror.reserve(
        "client-9".into(),
        "go".into(),
        "go".into(),
        Vec::new(),
        QueueLane::FollowUp,
        QueueOrigin::Client,
    );
    mirror.apply_queue_update(&[], &["go".into()]);
    mirror.apply_queue_update(&[], &["go".into(), "go".into()]);
    let ids: Vec<String> = mirror.pi_entries().iter().map(|e| e.id.clone()).collect();
    assert_eq!(ids, vec!["client-9", "pi-queue-1"]);
}

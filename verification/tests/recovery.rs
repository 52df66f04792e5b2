use pi_grok::recovery::{
    heartbeat_step, restart_backoff_ms, restart_progress_message, restart_result_message,
    rpc_watchdog_enabled, HeartbeatOutcome, RpcRecoveryTracker, HEARTBEAT_MAX_MISSES,
    RECOVERY_WINDOW_MS, RESTART_ATTEMPTS,
};

const SECOND_MS: u64 = 1_000;

#[test]
fn storm_guard_allows_a_burst_then_pauses() {
    let mut tracker = RpcRecoveryTracker::default();
    let start = 5 * SECOND_MS;
    assert!(tracker.try_begin(start));
    assert!(tracker.try_begin(start + 10 * SECOND_MS));
    assert!(tracker.try_begin(start + 20 * SECOND_MS));
    assert!(
        !tracker.try_begin(start + 30 * SECOND_MS),
        "fourth crash inside the window must pause automatic recovery"
    );
}

#[test]
fn storm_guard_recovers_after_the_window_expires() {
    let mut tracker = RpcRecoveryTracker::default();
    let start = 5 * SECOND_MS;
    for offset in [0, 10, 20] {
        assert!(tracker.try_begin(start + offset * SECOND_MS));
    }
    assert!(tracker.try_begin(start + RECOVERY_WINDOW_MS + 21 * SECOND_MS));
}

#[test]
fn refused_rounds_are_not_recorded() {
    let mut tracker = RpcRecoveryTracker::new();
    for t in [0, 1, 2] {
        assert!(tracker.try_begin(t * SECOND_MS));
    }
    assert!(!tracker.try_begin(3 * SECOND_MS));
    assert!(!tracker.try_begin(299 * SECOND_MS));
    // The first start left the window; refused rounds never took a slot.
    assert!(tracker.try_begin(300 * SECOND_MS));
    assert!(!tracker.try_begin(300 * SECOND_MS));
}

#[test]
fn no_window_ever_holds_more_than_three_accepted_rounds() {
    let mut tracker = RpcRecoveryTracker::new();
    let times: Vec<u64> = (0..40).map(|k| k * 45 * SECOND_MS).collect();
    let mut accepted: Vec<u64> = Vec::new();
    for &t in &times {
        if tracker.try_begin(t) {
            let in_window = accepted
                .iter()
                .filter(|&&s| t - s < RECOVERY_WINDOW_MS)
                .count();
            assert!(in_window + 1 <= 3, "round at {t} would be the fourth in its window");
            accepted.push(t);
        }
    }
    assert!(accepted.len() > 3);
}

#[test]
fn watchdog_kills_only_after_four_consecutive_misses() {
    let mut misses = 0u32;
    let mut kills = Vec::new();
    let outcomes = [
        HeartbeatOutcome::DeadlineMissed,
        HeartbeatOutcome::DeadlineMissed,
        HeartbeatOutcome::DeadlineMissed,
        HeartbeatOutcome::Answered,
        HeartbeatOutcome::DeadlineMissed,
        HeartbeatOutcome::DeadlineMissed,
        HeartbeatOutcome::Failed,
        HeartbeatOutcome::DeadlineMissed,
        HeartbeatOutcome::DeadlineMissed,
        HeartbeatOutcome::DeadlineMissed,
        HeartbeatOutcome::DeadlineMissed,
        HeartbeatOutcome::DeadlineMissed,
    ];
    for outcome in outcomes {
        let (next, kill) = heartbeat_step(misses, outcome);
        misses = next;
        kills.push(kill);
    }
    assert_eq!(kills.iter().filter(|k| **k).count(), 1);
    assert!(kills[10]);
    assert_eq!(misses, 1);
    assert_eq!(HEARTBEAT_MAX_MISSES, 4);
    assert_eq!(heartbeat_step(3, HeartbeatOutcome::DeadlineMissed), (0, true));
    assert_eq!(heartbeat_step(2, HeartbeatOutcome::Failed), (0, false));
}

#[test]
fn watchdog_switch_reads_only_exact_off_words() {
    assert!(rpc_watchdog_enabled(None));
    assert!(rpc_watchdog_enabled(Some("1")));
    assert!(rpc_watchdog_enabled(Some("FALSE")));
    assert!(rpc_watchdog_enabled(Some(" off")));
    assert!(!rpc_watchdog_enabled(Some("0")));
    assert!(!rpc_watchdog_enabled(Some("false")));
    assert!(!rpc_watchdog_enabled(Some("off")));
}

#[test]
fn restart_round_messages_and_backoff() {
    assert_eq!(RESTART_ATTEMPTS, 3);
    assert_eq!(restart_backoff_ms(1), Some(500));
    assert_eq!(restart_backoff_ms(2), Some(1000));
    assert_eq!(restart_backoff_ms(3), Some(2000));
    assert_eq!(restart_backoff_ms(4), None);
    assert_eq!(
        restart_progress_message(2, 3),
        "Pi RPC exited unexpectedly; restarting (2/3)\u{2026}"
    );
    assert_eq!(restart_result_message(true), "Pi RPC restarted; session restored.");
    assert!(restart_result_message(false).contains("fresh session"));
}

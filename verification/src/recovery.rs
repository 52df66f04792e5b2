//! Crash-storm guard for automatic Pi RPC recovery.
//!
//! Times are milliseconds on a monotonic clock (the caller measures them
//! from a fixed process-local origin).
use vstd::prelude::*;

verus! {

/// Length of the sliding window, in milliseconds (five minutes).
pub const RECOVERY_WINDOW_MS: u64 = 300_000;

/// Automatic recoveries allowed per window before the adapter stops
/// respawning and asks for a manual restart.
pub const MAX_RECOVERIES_PER_WINDOW: usize = 3;

/// Elapsed time from `started` to `now`, zero when `started` is later
/// (`Instant::duration_since` saturates).
pub open spec fn elapsed(now: u64, started: u64) -> int {
    if now >= started {
        now - started
    } else {
        0
    }
}

/// The start times of `recent` that are still inside the window at `now`.
pub open spec fn within_window(recent: Seq<u64>, now: u64) -> Seq<u64>
    decreases recent.len(),
{
    if recent.len() == 0 {
        Seq::empty()
    } else {
        let rest = within_window(recent.drop_last(), now);
        if elapsed(now, recent.last()) < RECOVERY_WINDOW_MS {
            rest.push(recent.last())
        } else {
            rest
        }
    }
}

/// One decision of the guard on the remembered starts `memory` at `now`:
/// the starts still in the window are kept; the round is accepted (and
/// remembered) when fewer than `MAX_RECOVERIES_PER_WINDOW` of them remain.
pub open spec fn guard_step(memory: Seq<u64>, now: u64) -> (Seq<u64>, bool) {
    let w = within_window(memory, now);
    if w.len() < MAX_RECOVERIES_PER_WINDOW {
        (w.push(now), true)
    } else {
        (w, false)
    }
}

/// The memory and the decisions of a fresh guard asked at each of `times`
/// in turn.
pub open spec fn replay(times: Seq<u64>) -> (Seq<u64>, Seq<bool>)
    decreases times.len(),
{
    if times.len() == 0 {
        (Seq::empty(), Seq::empty())
    } else {
        let prev = replay(times.drop_last());
        let step = guard_step(prev.0, times.last());
        (step.0, prev.1.push(step.1))
    }
}

/// The start times of the rounds that a fresh guard accepted over `times`.
pub open spec fn accepted_starts(times: Seq<u64>) -> Seq<u64>
    decreases times.len(),
{
    if times.len() == 0 {
        Seq::empty()
    } else if guard_step(replay(times.drop_last()).0, times.last()).1 {
        accepted_starts(times.drop_last()).push(times.last())
    } else {
        accepted_starts(times.drop_last())
    }
}

/// Times read from a monotonic clock: never decreasing.
pub open spec fn nondecreasing(times: Seq<u64>) -> bool {
    forall|i: int, j: int| 0 <= i <= j < times.len() ==> times[i] <= times[j]
}

proof fn lemma_accepted_not_later(times: Seq<u64>)
    requires
        nondecreasing(times),
        times.len() > 0,
    ensures
        forall|i: int|
            0 <= i < accepted_starts(times).len() ==> #[trigger] accepted_starts(times)[i]
                <= times.last(),
    decreases times.len(),
{
    let prev = times.drop_last();
    let acc = accepted_starts(prev);
    if times.len() > 1 {
        assert(nondecreasing(prev));
        lemma_accepted_not_later(prev);
        assert(prev.last() == times[times.len() - 2]);
    } else {
        assert(acc == Seq::<u64>::empty());
    }
    assert forall|i: int|
        0 <= i < accepted_starts(times).len() implies #[trigger] accepted_starts(times)[i]
        <= times.last() by {
        if guard_step(replay(prev).0, times.last()).1 {
            assert(accepted_starts(times) == acc.push(times.last()));
            if i < acc.len() {
                assert(accepted_starts(times)[i] == acc[i]);
            }
        } else {
            assert(accepted_starts(times) == acc);
        }
    }
}

proof fn lemma_window_narrows(s: Seq<u64>, a: u64, b: u64)
    requires
        a <= b,
        forall|i: int| 0 <= i < s.len() ==> #[trigger] s[i] <= a,
    ensures
        within_window(within_window(s, a), b) == within_window(s, b),
    decreases s.len(),
{
    if s.len() > 0 {
        let rest = s.drop_last();
        let x = s.last();
        assert forall|i: int| 0 <= i < rest.len() implies #[trigger] rest[i] <= a by {
            assert(rest[i] == s[i]);
        }
        lemma_window_narrows(rest, a, b);
        assert(x == s[s.len() - 1]);
        let inner = within_window(rest, a);
        if elapsed(a, x) < RECOVERY_WINDOW_MS {
            assert(within_window(s, a) == inner.push(x));
            assert(inner.push(x).drop_last() =~= inner);
            assert(inner.push(x).last() == x);
        } else {
            assert(within_window(s, a) == inner);
        }
    }
}

/// Storm-guard memory law: over non-decreasing times, the guard remembers
/// exactly the accepted starts that are still inside the window of the
/// latest call.
pub proof fn lemma_replay_memory(times: Seq<u64>)
    requires
        nondecreasing(times),
        times.len() > 0,
    ensures
        replay(times).0 == within_window(accepted_starts(times), times.last()),
    decreases times.len(),
{
    let prev = times.drop_last();
    let t = times.last();
    if prev.len() == 0 {
        assert(within_window(Seq::<u64>::empty(), t) == Seq::<u64>::empty());
        assert(accepted_starts(prev) == Seq::<u64>::empty());
        assert(within_window(seq![t], t) =~= seq![t]) by {
            assert(seq![t].drop_last() =~= Seq::<u64>::empty());
        }
        assert(Seq::<u64>::empty().push(t) =~= seq![t]);
    } else {
        assert(nondecreasing(prev));
        lemma_replay_memory(prev);
        lemma_accepted_not_later(prev);
        assert(prev.last() == times[times.len() - 2]);
        assert(prev.last() <= t);
        lemma_window_narrows(accepted_starts(prev), prev.last(), t);
        let acc = accepted_starts(prev);
        if guard_step(replay(prev).0, t).1 {
            assert(accepted_starts(times) == acc.push(t));
            assert(acc.push(t).drop_last() =~= acc);
        }
    }
}

/// Storm-guard decision law: over non-decreasing times, a round is accepted
/// exactly when fewer than `MAX_RECOVERIES_PER_WINDOW` of the earlier
/// accepted rounds started within the window that ends at its start.
pub proof fn lemma_storm_guard_decision(times: Seq<u64>)
    requires
        nondecreasing(times),
        times.len() > 0,
    ensures
        replay(times).1.last() == (within_window(accepted_starts(times.drop_last()), times.last()).len()
            < MAX_RECOVERIES_PER_WINDOW),
{
    let prev = times.drop_last();
    let t = times.last();
    if prev.len() == 0 {
        assert(accepted_starts(prev) == Seq::<u64>::empty());
        assert(replay(prev).0 == Seq::<u64>::empty());
    } else {
        assert(nondecreasing(prev));
        lemma_replay_memory(prev);
        lemma_accepted_not_later(prev);
        assert(prev.last() == times[times.len() - 2]);
        lemma_window_narrows(accepted_starts(prev), prev.last(), t);
    }
}

/// Crash-storm law: over recovery rounds asked at non-decreasing times, a
/// round is accepted only when, counting it, at most
/// `MAX_RECOVERIES_PER_WINDOW` accepted rounds started within the window
/// that ends at its start.
pub proof fn lemma_storm_guard_caps_window(times: Seq<u64>)
    requires
        nondecreasing(times),
        times.len() > 0,
        replay(times).1.last(),
    ensures
        within_window(accepted_starts(times), times.last()).len() <= MAX_RECOVERIES_PER_WINDOW,
{
    lemma_replay_memory(times);
}

/// Sliding-window counter for automatic RPC recoveries. Purely local policy:
/// it never touches Pi state.
pub struct RpcRecoveryTracker {
    recent: Vec<u64>,
}

impl View for RpcRecoveryTracker {
    type V = Seq<u64>;

    /// The start times of the recoveries still remembered, oldest first.
    closed spec fn view(&self) -> Seq<u64> {
        self.recent@
    }
}

impl Default for RpcRecoveryTracker {
    fn default() -> (r: Self)
        ensures
            r@ == Seq::<u64>::empty(),
    {
        RpcRecoveryTracker { recent: Vec::new() }
    }
}

proof fn lemma_within_window_len(recent: Seq<u64>, now: u64)
    ensures
        within_window(recent, now).len() <= recent.len(),
    decreases recent.len(),
{
    if recent.len() > 0 {
        lemma_within_window_len(recent.drop_last(), now);
    }
}

impl RpcRecoveryTracker {
    /// A tracker that remembers no recovery.
    pub fn new() -> (r: Self)
        ensures
            r@ == Seq::<u64>::empty(),
    {
        RpcRecoveryTracker { recent: Vec::new() }
    }

    /// Register a recovery round starting at `now`. Starts that left the
    /// window are forgotten; the round is refused (`false`) when the window
    /// already holds `MAX_RECOVERIES_PER_WINDOW` starts, and recorded
    /// otherwise.
    pub fn try_begin(&mut self, now: u64) -> (b: bool)
        ensures
            (final(self)@, b) == guard_step(old(self)@, now),
    {
        let mut kept: Vec<u64> = Vec::new();
        let mut i: usize = 0;
        assert(self.recent@.take(0) =~= Seq::<u64>::empty());
        while i < self.recent.len()
            invariant
                i <= self.recent@.len(),
                self.recent@ == old(self)@,
                kept@ == within_window(self.recent@.take(i as int), now),
            decreases self.recent.len() - i,
        {
            let started = self.recent[i];
            let age = if now >= started {
                now - started
            } else {
                0
            };
            proof {
                let t = self.recent@.take(i + 1);
                assert(t.drop_last() =~= self.recent@.take(i as int));
                assert(t.last() == started);
            }
            if age < RECOVERY_WINDOW_MS {
                kept.push(started);
            }
            i = i + 1;
        }
        assert(self.recent@.take(i as int) =~= self.recent@);
        self.recent = kept;
        if self.recent.len() >= MAX_RECOVERIES_PER_WINDOW {
            return false;
        }
        self.recent.push(now);
        true
    }
}

/// Consecutive heartbeat deadline misses after which the child is declared
/// hung (about two minutes of sustained unresponsiveness).
pub const HEARTBEAT_MAX_MISSES: u32 = 4;

/// Seconds between heartbeats, and the deadline of each.
pub const HEARTBEAT_INTERVAL_SECS: u64 = 15;

pub const HEARTBEAT_DEADLINE_SECS: u64 = 15;

/// What one heartbeat `get_state` request came back with.
#[derive(Clone, Copy, Debug, PartialEq, Eq)]
pub enum HeartbeatOutcome {
    /// Pi answered in time.
    Answered,
    /// The request missed its deadline.
    DeadlineMissed,
    /// Any other failure: a closed writer (the exit event owns recovery) or
    /// an error response (which proves the process is responsive).
    Failed,
}

/// The watchdog's decision on `outcome` after `misses` consecutive misses:
/// the new miss count, and whether to kill the child now.
pub open spec fn heartbeat_next(misses: nat, outcome: HeartbeatOutcome) -> (nat, bool) {
    match outcome {
        HeartbeatOutcome::DeadlineMissed => if misses + 1 >= HEARTBEAT_MAX_MISSES {
            (0, true)
        } else {
            ((misses + 1) as nat, false)
        },
        _ => (0, false),
    }
}

/// One watchdog decision: an answer or another failure resets the count; a
/// missed deadline counts, and the count reaching `HEARTBEAT_MAX_MISSES`
/// resets it and asks for the unresponsive child to be killed.
pub fn heartbeat_step(misses: u32, outcome: HeartbeatOutcome) -> (r: (u32, bool))
    requires
        misses < u32::MAX,
    ensures
        (r.0 as nat, r.1) == heartbeat_next(misses as nat, outcome),
{
    match outcome {
        HeartbeatOutcome::DeadlineMissed => {
            let next = misses + 1;
            if next >= HEARTBEAT_MAX_MISSES {
                (0, true)
            } else {
                (next, false)
            }
        },
        _ => (0, false),
    }
}

/// The miss count and the kill decisions of a watchdog that starts with no
/// miss and sees `outcomes` in turn.
pub open spec fn watch(outcomes: Seq<HeartbeatOutcome>) -> (nat, Seq<bool>)
    decreases outcomes.len(),
{
    if outcomes.len() == 0 {
        (0, Seq::empty())
    } else {
        let prev = watch(outcomes.drop_last());
        let step = heartbeat_next(prev.0, outcomes.last());
        (step.0, prev.1.push(step.1))
    }
}

/// How many deadline misses end `outcomes`, back to the last other outcome.
pub open spec fn trailing_misses(outcomes: Seq<HeartbeatOutcome>) -> nat
    decreases outcomes.len(),
{
    if outcomes.len() == 0 {
        0
    } else if outcomes.last() == HeartbeatOutcome::DeadlineMissed {
        trailing_misses(outcomes.drop_last()) + 1
    } else {
        0
    }
}

/// Watchdog law: from a fresh start, the miss count is the run of trailing
/// deadline misses modulo `HEARTBEAT_MAX_MISSES`, and the child is killed on
/// exactly the outcomes that complete a run of `HEARTBEAT_MAX_MISSES`
/// consecutive misses; an answer or any other failure starts the run anew.
pub proof fn lemma_watchdog_kills_after_consecutive_misses(outcomes: Seq<HeartbeatOutcome>)
    ensures
        watch(outcomes).0 == trailing_misses(outcomes) % (HEARTBEAT_MAX_MISSES as nat),
        watch(outcomes).1.len() == outcomes.len(),
        outcomes.len() > 0 ==> (watch(outcomes).1.last() <==> (trailing_misses(outcomes) > 0
            && trailing_misses(outcomes) % (HEARTBEAT_MAX_MISSES as nat) == 0)),
    decreases outcomes.len(),
{
    if outcomes.len() > 0 {
        lemma_watchdog_kills_after_consecutive_misses(outcomes.drop_last());
    }
}

/// Whether the watchdog runs, from `PI_GROK_RPC_WATCHDOG` (`None` when it is
/// unset or not Unicode): only exactly `0`, `false` or `off` disables it.
pub fn rpc_watchdog_enabled(value: Option<&str>) -> (r: bool)
    ensures
        r == !(value matches Some(v) && (v@ == "0"@ || v@ == "false"@ || v@ == "off"@)),
{
    match value {
        Some(v) => !(crate::text::str_eq(v, "0") || crate::text::str_eq(v, "false")
            || crate::text::str_eq(v, "off")),
        None => true,
    }
}

/// Respawn attempts in one recovery round.
pub const RESTART_ATTEMPTS: usize = 3;

/// Backoff before respawn attempt `attempt` (1-based) of a recovery round,
/// in milliseconds: 500, 1000, then 2000.
pub fn restart_backoff_ms(attempt: usize) -> (r: Option<u64>)
    ensures
        r == if attempt == 1 {
            Some(500u64)
        } else if attempt == 2 {
            Some(1000u64)
        } else if attempt == 3 {
            Some(2000u64)
        } else {
            None::<u64>
        },
{
    if attempt == 1 {
        Some(500)
    } else if attempt == 2 {
        Some(1000)
    } else if attempt == 3 {
        Some(2000)
    } else {
        None
    }
}

/// Seconds allowed for the full re-bootstrap after a respawn.
pub const RESTART_BOOTSTRAP_DEADLINE_SECS: u64 = 60;

/// Shown when the storm guard refuses a recovery round.
pub const RECOVERY_PAUSED_MESSAGE: &'static str =
    "Pi RPC crashed repeatedly; automatic restart is paused. Quit and relaunch grok-pi.";

/// Shown when every respawn attempt of a round failed.
pub const RECOVERY_FAILED_MESSAGE: &'static str = "Pi RPC restart failed; quit and relaunch grok-pi.";

/// Shown when the watchdog kills a hung child.
pub const WATCHDOG_RESTART_MESSAGE: &'static str =
    "Pi RPC has been unresponsive for over 2 minutes; restarting it\u{2026}";

/// The warning shown before respawn attempt `attempt` of `attempts`:
/// `Pi RPC exited unexpectedly; restarting (attempt/attempts)…`.
pub fn restart_progress_message(attempt: u64, attempts: u64) -> (r: String)
    ensures
        r@ == "Pi RPC exited unexpectedly; restarting ("@ + crate::number::decimal(attempt as nat)
            + "/"@ + crate::number::decimal(attempts as nat) + ")\u{2026}"@,
{
    let mut out = String::new();
    out.append("Pi RPC exited unexpectedly; restarting (");
    crate::number::push_decimal(&mut out, attempt);
    out.append("/");
    crate::number::push_decimal(&mut out, attempts);
    out.append(")\u{2026}");
    out
}

/// The notice after a successful respawn: whether the previous session was
/// reattached or a fresh one started.
pub fn restart_result_message(session_restored: bool) -> (r: &'static str)
    ensures
        r@ == if session_restored {
            "Pi RPC restarted; session restored."@
        } else {
            "Pi RPC restarted with a fresh session (previous session could not be reattached)."@
        },
{
    if session_restored {
        "Pi RPC restarted; session restored."
    } else {
        "Pi RPC restarted with a fresh session (previous session could not be reattached)."
    }
}

} // verus!

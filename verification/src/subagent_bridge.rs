//! What the adapter does with one subagent bridge projection: which child
//! sessions it now knows, and the updates and notifications to send, in
//! order.
use vstd::prelude::*;
use crate::json::{Json, JsonView, jv, vget, vbool, field_bool};
use crate::number::{decimal, push_decimal};
use crate::subagent_projection::{BridgeOperation, BridgeProjection, ChildUpdate, ChildV, OpV};
use crate::text::str_eq;

verus! {

/// The child sessions the adapter knows: child session id → subagent id.
pub struct SubagentSessions {
    rows: Vec<(String, String)>,
}

pub open spec fn rows_map(rows: Seq<(String, String)>) -> Map<Seq<char>, Seq<char>>
    decreases rows.len(),
{
    if rows.len() == 0 {
        Map::empty()
    } else {
        rows_map(rows.drop_last()).insert(rows.last().0@, rows.last().1@)
    }
}

impl View for SubagentSessions {
    type V = Map<Seq<char>, Seq<char>>;

    closed spec fn view(&self) -> Map<Seq<char>, Seq<char>> {
        rows_map(self.rows@)
    }
}

impl SubagentSessions {
    /// No child session is known.
    pub fn new() -> (r: Self)
        ensures
            r@ == Map::<Seq<char>, Seq<char>>::empty(),
    {
        SubagentSessions { rows: Vec::new() }
    }

    /// Remember that `child_session_id` belongs to `subagent_id`.
    pub fn insert(&mut self, child_session_id: String, subagent_id: String)
        ensures
            final(self)@ == old(self)@.insert(child_session_id@, subagent_id@),
    {
        self.rows.push((child_session_id, subagent_id));
        assert(self.rows@.drop_last() =~= old(self).rows@);
    }

    /// The subagent a child session belongs to (the target of a cancel on
    /// that session).
    pub fn subagent_for(&self, child_session_id: &str) -> (r: Option<String>)
        ensures
            match r {
                Some(s) => self@.contains_key(child_session_id@) && self@[child_session_id@] == s@,
                None => !self@.contains_key(child_session_id@),
            },
    {
        let mut i = self.rows.len();
        while i > 0
            invariant
                i <= self.rows@.len(),
                forall|j: int| i <= j < self.rows@.len() ==> #[trigger] self.rows@[j].0@ != child_session_id@,
                rows_map(self.rows@) == self@,
            decreases i,
        {
            i = i - 1;
            if str_eq(self.rows[i].0.as_str(), child_session_id) {
                proof {
                    lemma_rows_map_last_match(self.rows@, i as int, child_session_id@);
                }
                return Some(self.rows[i].1.clone());
            }
        }
        proof {
            lemma_rows_map_absent(self.rows@, child_session_id@);
        }
        None
    }
}

proof fn lemma_rows_map_last_match(rows: Seq<(String, String)>, i: int, k: Seq<char>)
    requires
        0 <= i < rows.len(),
        rows[i].0@ == k,
        forall|j: int| i < j < rows.len() ==> #[trigger] rows[j].0@ != k,
    ensures
        rows_map(rows).contains_key(k),
        rows_map(rows)[k] == rows[i].1@,
    decreases rows.len(),
{
    if i < rows.len() - 1 {
        let t = rows.drop_last();
        assert(t[i] == rows[i]);
        assert(rows[rows.len() - 1].0@ != k);
        lemma_rows_map_last_match(t, i, k);
    }
}

proof fn lemma_rows_map_absent(rows: Seq<(String, String)>, k: Seq<char>)
    requires
        forall|j: int| 0 <= j < rows.len() ==> #[trigger] rows[j].0@ != k,
    ensures
        !rows_map(rows).contains_key(k),
    decreases rows.len(),
{
    if rows.len() > 0 {
        let t = rows.drop_last();
        assert forall|j: int| 0 <= j < t.len() implies #[trigger] t[j].0@ != k by {
            assert(t[j] == rows[j]);
        }
        assert(rows[rows.len() - 1].0@ != k);
        lemma_rows_map_absent(t, k);
    }
}

/// One thing to send for a bridge projection.
pub enum BridgeStep {
    /// Update the parent's tool call with the task's metadata; mark it in
    /// progress when `in_progress`.
    TaskMetadata { tool_call_id: String, raw_input: Json, in_progress: bool },
    /// Send `notification` on the parent session with `method`.
    Lifecycle { method: &'static str, notification: Json },
    /// Forward `update` to the child session.
    Child { child_session_id: String, update: ChildUpdate },
    /// Wake the adapter's waiter for replay `request_id`.
    ReplayComplete { request_id: String },
}

pub enum StepV {
    TaskMetadata { tool_call_id: Seq<char>, raw_input: JsonView, in_progress: bool },
    Lifecycle { method: Seq<char>, notification: JsonView },
    Child { child_session_id: Seq<char>, update: ChildV },
    ReplayComplete { request_id: Seq<char> },
}

impl View for BridgeStep {
    type V = StepV;

    open spec fn view(&self) -> StepV {
        match self {
            BridgeStep::TaskMetadata { tool_call_id, raw_input, in_progress } => StepV::TaskMetadata {
                tool_call_id: tool_call_id@,
                raw_input: jv(*raw_input),
                in_progress: *in_progress,
            },
            BridgeStep::Lifecycle { method, notification } => StepV::Lifecycle {
                method: method@,
                notification: jv(*notification),
            },
            BridgeStep::Child { child_session_id, update } => StepV::Child {
                child_session_id: child_session_id@,
                update: update@,
            },
            BridgeStep::ReplayComplete { request_id } => StepV::ReplayComplete {
                request_id: request_id@,
            },
        }
    }
}

/// The notification method of a lifecycle update: `x.ai/session/update`
/// while replaying, `x.ai/session_notification` live.
pub open spec fn lifecycle_method(replay: bool) -> Seq<char> {
    if replay {
        "x.ai/session/update"@
    } else {
        "x.ai/session_notification"@
    }
}

/// What one operation of a projection becomes: task metadata is marked in
/// progress unless replaying or reconciling (`reconcile: true` in its raw
/// input).
pub open spec fn step_of(op: OpV, replay: bool) -> StepV {
    match op {
        OpV::ParentTaskMetadata { tool_call_id, raw_input } => StepV::TaskMetadata {
            tool_call_id,
            raw_input,
            in_progress: !replay && vbool(vget(raw_input, "reconcile"@)) != Some(true),
        },
        OpV::ParentLifecycle(n) => StepV::Lifecycle { method: lifecycle_method(replay), notification: n },
        OpV::ChildUpdate { child_session_id, update } => StepV::Child { child_session_id, update },
        OpV::ReplayComplete { request_id } => StepV::ReplayComplete { request_id },
    }
}

/// The sends of one accepted projection.
pub struct SubagentBridgePlan {
    /// `pi-grok-subagent:<subagent id>:<sequence>`, which names the event
    /// in the child sessions' updates.
    pub event_id: String,
    /// Whether the event is a replay.
    pub replay: bool,
    /// What to send, in the order of the projection's operations.
    pub steps: Vec<BridgeStep>,
}

pub open spec fn event_id_v(subagent_id: Seq<char>, sequence: u64) -> Seq<char> {
    "pi-grok-subagent:"@ + subagent_id + ":"@ + decimal(sequence as nat)
}

/// Handle one projection of a subagent bridge event (its parent is the
/// active session: parsing refuses any other). A projection whose sequence
/// was not accepted (a repeated or stale event) is dropped: `None`, nothing
/// learned. Otherwise a `spawned` event makes its child session known, and
/// each operation becomes one send, in order.
pub fn plan_subagent_bridge(
    sessions: &mut SubagentSessions,
    projection: BridgeProjection,
    sequence_accepted: bool,
) -> (r: Option<SubagentBridgePlan>)
    ensures
        !sequence_accepted ==> r is None && final(sessions)@ == old(sessions)@,
        sequence_accepted ==> {
            &&& final(sessions)@ == if projection.kind@ == "spawned"@ {
                old(sessions)@.insert(projection.child_session_id@, projection.subagent_id@)
            } else {
                old(sessions)@
            }
            &&& r matches Some(plan) && plan.event_id@ == event_id_v(
                projection.subagent_id@,
                projection.sequence,
            ) && plan.replay == projection.replay && plan.steps@.len()
                == projection.operations@.len() && forall|i: int|
                0 <= i < plan.steps@.len() ==> #[trigger] plan.steps@[i]@ == step_of(
                projection.operations@[i]@,
                projection.replay,
            )
        },
{
    if !sequence_accepted {
        return None;
    }
    let ghost proj = projection;
    let BridgeProjection { sequence, replay, kind, subagent_id, child_session_id, operations } =
        projection;
    let mut event_id = "pi-grok-subagent:".to_owned();
    event_id.append(subagent_id.as_str());
    event_id.append(":");
    push_decimal(&mut event_id, sequence);
    proof {
        assert(event_id@ =~= event_id_v(subagent_id@, sequence));
    }
    if str_eq(kind.as_str(), "spawned") {
        sessions.insert(child_session_id, subagent_id);
    }
    let mut steps: Vec<BridgeStep> = Vec::new();
    let mut ops = operations;
    let ghost all = ops@;
    let ghost n = all.len();
    while ops.len() > 0
        invariant
            n == all.len(),
            steps@.len() <= n,
            ops@ == all.subrange(steps@.len() as int, n as int),
            forall|j: int| 0 <= j < steps@.len() ==> #[trigger] steps@[j]@ == step_of(all[j]@, replay),
        decreases ops.len(),
    {
        let op = ops.remove(0);
        let ghost k = steps@.len();
        assert(op == all[k as int]);
        let step = match op {
            BridgeOperation::ParentTaskMetadata { tool_call_id, raw_input } => {
                let reconcile = match field_bool(&raw_input, "reconcile") {
                    Some(b) => b,
                    None => false,
                };
                BridgeStep::TaskMetadata { tool_call_id, raw_input, in_progress: !replay && !reconcile }
            },
            BridgeOperation::ParentLifecycle(notification) => {
                let method = if replay {
                    "x.ai/session/update"
                } else {
                    "x.ai/session_notification"
                };
                BridgeStep::Lifecycle { method, notification }
            },
            BridgeOperation::ChildUpdate { child_session_id, update } => BridgeStep::Child {
                child_session_id,
                update,
            },
            BridgeOperation::ReplayComplete { request_id } => BridgeStep::ReplayComplete {
                request_id,
            },
        };
        steps.push(step);
    }
    Some(SubagentBridgePlan { event_id, replay, steps })
}

} // verus!

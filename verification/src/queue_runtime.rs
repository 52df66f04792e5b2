//! The adapter's queue decisions: when a queued prompt may start, what an
//! interject does with a local row, and which extension messages are queued.
//!
//! Each decision reads the adapter's run flags and updates the queue mirror;
//! sending the resulting request to Pi and waking the client's completion
//! waiters is the caller's work.
use vstd::prelude::*;
use crate::json::{Json, JsonView, jv, items_view, lemma_array_view, jobj, jstr};
use crate::queue_bridge::{
    QueueMirror, QueueEntry, EntryView, QueueLane, QueueOrigin, ReservedView, takeable, other_id,
    reserved_other_id, enqueued, next_seq_of, generated_id, origin_prefix, bump_version, in_lane,
};
use crate::seq_util::{first_where, keep_where, lemma_first_where_at, lemma_first_where_none};
use crate::text::{trim, trim_seq, str_eq};

verus! {

/// The adapter's run flags that queue decisions read.
#[derive(Clone, Copy, Debug, PartialEq, Eq)]
pub struct RunFlags {
    /// A Pi agent run is in progress.
    pub agent_running: bool,
    /// A cancellation is settling.
    pub cancelling: bool,
    /// A user `!` bash command is running.
    pub bash_running: bool,
    /// Prompts whose completion a client still awaits.
    pub active_prompts: usize,
}

/// The adapter cannot start another prompt.
pub open spec fn is_busy(f: RunFlags, running: Option<EntryView>) -> bool {
    f.agent_running || f.cancelling || f.bash_running || f.active_prompts > 0 || running is Some
}

/// Whether the adapter is busy: a run, a cancellation, a bash command, an
/// awaited prompt, or an occupied running slot.
pub fn adapter_busy(flags: RunFlags, mirror: &QueueMirror) -> (b: bool)
    ensures
        b == is_busy(flags, mirror.running_row()),
{
    flags.agent_running || flags.cancelling || flags.bash_running || flags.active_prompts > 0
        || mirror.running().is_some()
}

pub open spec fn opt_text(o: Option<String>) -> Option<Seq<char>> {
    match o {
        Some(s) => Some(s@),
        None => None,
    }
}

/// A prompt's text with the plan-mode reminder in front of it, separated by
/// a blank line; the reminder alone for an empty prompt.
pub open spec fn with_reminder(reminder: Option<Seq<char>>, message: Seq<char>) -> Seq<char> {
    match reminder {
        None => message,
        Some(r) => if message.len() == 0 {
            r
        } else {
            r + "\n\n"@ + message
        },
    }
}

/// The text sent to Pi for `message` while plan mode offers `reminder`.
pub fn prepare_execution_text(reminder: Option<String>, message: String) -> (r: String)
    ensures
        r@ == with_reminder(opt_text(reminder), message@),
{
    match reminder {
        None => message,
        Some(r) => if message.unicode_len() == 0 {
            r
        } else {
            let mut out = r;
            out.append("\n\n");
            out.append(message.as_str());
            out
        },
    }
}

/// The members of a `prompt` request: its text, `streamingBehavior: steer`
/// for a steer, and the images when there are any.
pub open spec fn prompt_request_v(message: Seq<char>, images: Seq<Json>, steer: bool) -> JsonView {
    let base = seq![("type"@, JsonView::Str("prompt"@)), ("message"@, JsonView::Str(message))];
    let steered = if steer {
        base.push(("streamingBehavior"@, JsonView::Str("steer"@)))
    } else {
        base
    };
    JsonView::Object(
        if images.len() > 0 {
            steered.push(("images"@, JsonView::Array(items_view(images))))
        } else {
            steered
        },
    )
}

/// The RPC `prompt` request for `message` with `images`.
pub fn prompt_request(message: &str, images: &Vec<Json>, steer: bool) -> (r: Json)
    ensures
        jv(r) == prompt_request_v(message@, images@, steer),
{
    let mut f: Vec<(String, Json)> = Vec::new();
    f.push(("type".to_owned(), jstr("prompt")));
    f.push(("message".to_owned(), jstr(message)));
    if steer {
        f.push(("streamingBehavior".to_owned(), jstr("steer")));
    }
    if images.len() > 0 {
        let mut copies: Vec<Json> = Vec::new();
        let mut i: usize = 0;
        while i < images.len()
            invariant
                i <= images@.len(),
                copies@.len() == i,
                forall|k: int| 0 <= k < i ==> jv(#[trigger] copies@[k]) == jv(images@[k]),
            decreases images@.len() - i,
        {
            copies.push(images[i].deep_clone());
            i = i + 1;
        }
        proof {
            lemma_array_view(copies);
            assert(items_view(copies@) =~= items_view(images@));
        }
        f.push(("images".to_owned(), Json::Array(copies)));
    }
    let r = jobj(f);
    proof {
        assert(crate::json::members_view(f@) =~= prompt_request_v(message@, images@, steer)->Object_0);
    }
    r
}

/// The queue mirror's parts that a local-queue decision leaves alone.
pub open spec fn others_kept(a: QueueMirror, b: QueueMirror) -> bool {
    &&& b.pis() == a.pis()
    &&& b.parked_rows() == a.parked_rows()
    &&& b.seq() == a.seq()
    &&& b.running_row() == a.running_row()
}

/// A row after an interject that may replace its text: both texts become
/// the new text and the version moves on.
pub open spec fn retexted(e: EntryView, new_text: Option<Seq<char>>) -> EntryView {
    match new_text {
        None => e,
        Some(t) => EntryView { execution_text: t, display_text: t, version: bump_version(e.version), ..e },
    }
}

/// What an interject of a local row came to.
#[derive(Debug)]
pub enum InterjectPlan {
    /// No local row has the id (at the expected version).
    NotFound,
    /// A cancellation is settling: the row went back to the head of the queue.
    Held,
    /// Nothing runs: the row went back to the head of the queue, and the
    /// caller dispatches the queue.
    DispatchIdle,
    /// Send `request` to Pi as a steer now; the row is reserved under `id`.
    Steer { id: String, request: Json },
}

/// Interject local row `id` (at `expected_version`, when given), with its
/// text replaced by `new_text` when given. `idle` says that no run is in
/// progress and no client awaits a prompt. The row is taken out of the
/// local queue; during a cancellation, or when idle, it goes back to the
/// head of the queue; otherwise it is reserved as a steer with the
/// plan-mode `reminder` in front of its text, and its steer request is
/// handed back to be sent.
pub fn plan_interject(
    mirror: &mut QueueMirror,
    id: &str,
    expected_version: Option<u64>,
    new_text: Option<String>,
    cancelling: bool,
    idle: bool,
    reminder: Option<String>,
) -> (r: InterjectPlan)
    ensures
        others_kept(*old(mirror), *final(mirror)),
        ({
            let p = first_where(old(mirror).locals(), takeable(id@, expected_version));
            let e = retexted(old(mirror).locals()[p], opt_text(new_text));
            let rest = old(mirror).locals().remove(p);
            if p < 0 {
                &&& r is NotFound
                &&& final(mirror).locals() == old(mirror).locals()
                &&& final(mirror).reservations() == old(mirror).reservations()
            } else if cancelling || idle {
                &&& (if cancelling {
                    r is Held
                } else {
                    r is DispatchIdle
                })
                &&& final(mirror).locals() == seq![e] + keep_where(rest, other_id(e.id))
                &&& final(mirror).reservations() == old(mirror).reservations()
            } else {
                let text = with_reminder(opt_text(reminder), e.execution_text);
                &&& r matches InterjectPlan::Steer { id: sid, request } && sid@ == e.id && jv(request)
                    == prompt_request_v(text, e.images, true)
                &&& final(mirror).locals() == rest
                &&& final(mirror).reservations() == if trim_seq(e.id).len() == 0 {
                    old(mirror).reservations()
                } else {
                    keep_where(old(mirror).reservations(), reserved_other_id(e.id)).push(
                        ReservedView {
                            id: e.id,
                            execution_text: text,
                            display_text: e.display_text,
                            images: e.images,
                            lane: QueueLane::Steering,
                            origin: e.origin,
                        },
                    )
                }
            }
        }),
{
    let taken = mirror.take_local(id, expected_version);
    let mut entry = match taken {
        None => return InterjectPlan::NotFound,
        Some(e) => e,
    };
    match new_text {
        Some(text) => {
            entry.execution_text = text.clone();
            entry.display_text = text;
            entry.version = if entry.version == u64::MAX {
                0
            } else {
                entry.version + 1
            };
        },
        None => {},
    }
    if cancelling {
        mirror.push_front_local(entry);
        InterjectPlan::Held
    } else if idle {
        mirror.push_front_local(entry);
        InterjectPlan::DispatchIdle
    } else {
        let mut text = String::new();
        std::mem::swap(&mut text, &mut entry.execution_text);
        entry.execution_text = prepare_execution_text(reminder, text);
        let request = prompt_request(entry.execution_text.as_str(), &entry.images, true);
        let QueueEntry { id: row_id, execution_text, display_text, images, origin, .. } = entry;
        mirror.reserve(row_id.clone(), execution_text, display_text, images, QueueLane::Steering, origin);
        InterjectPlan::Steer { id: row_id, request }
    }
}

/// A queued prompt that the caller now sends to Pi.
#[derive(Debug)]
pub struct Dispatch {
    /// The row's id (and the client's prompt id).
    pub id: String,
    /// The RPC `prompt` request to send.
    pub request: Json,
}

/// Start the next queued local prompt when the adapter is not busy: the
/// oldest local row leaves the queue, takes the plan-mode `reminder` in
/// front of its text, and occupies the running slot; its request is
/// handed back. A busy adapter or an empty queue changes nothing.
pub fn plan_dispatch(mirror: &mut QueueMirror, flags: RunFlags, reminder: Option<String>) -> (r:
    Option<Dispatch>)
    ensures
        final(mirror).pis() == old(mirror).pis(),
        final(mirror).parked_rows() == old(mirror).parked_rows(),
        final(mirror).seq() == old(mirror).seq(),
        final(mirror).reservations() == old(mirror).reservations(),
        is_busy(flags, old(mirror).running_row()) || old(mirror).locals().len() == 0 ==> {
            &&& r is None
            &&& final(mirror).locals() == old(mirror).locals()
            &&& final(mirror).running_row() == old(mirror).running_row()
        },
        !is_busy(flags, old(mirror).running_row()) && old(mirror).locals().len() > 0 ==> {
            let e = old(mirror).locals()[0];
            let run = EntryView {
                execution_text: with_reminder(opt_text(reminder), e.execution_text),
                ..e
            };
            &&& r matches Some(d) && d.id@ == e.id && jv(d.request) == prompt_request_v(
                run.execution_text,
                run.images,
                false,
            )
            &&& final(mirror).locals() == old(mirror).locals().drop_first()
            &&& final(mirror).running_row() == Some(run)
        },
{
    if adapter_busy(flags, mirror) {
        return None;
    }
    let mut entry = match mirror.pop_next_local() {
        None => return None,
        Some(e) => e,
    };
    let mut text = String::new();
    std::mem::swap(&mut text, &mut entry.execution_text);
    entry.execution_text = prepare_execution_text(reminder, text);
    let request = prompt_request(entry.execution_text.as_str(), &entry.images, false);
    let id = entry.id.clone();
    mirror.set_running(entry);
    Some(Dispatch { id, request })
}

/// The lane an extension message joins: steering for `steer`, follow-up
/// otherwise.
pub open spec fn extension_lane(streaming_behavior: Option<Seq<char>>) -> QueueLane {
    if streaming_behavior == Some("steer"@) {
        QueueLane::Steering
    } else {
        QueueLane::FollowUp
    }
}

pub open spec fn opt_str(o: Option<&str>) -> Option<Seq<char>> {
    match o {
        Some(s) => Some(s@),
        None => None,
    }
}

/// Queue a message an extension sent (`sendUserMessage`). A message with
/// neither text nor images is ignored, and so is every message while a
/// cancellation settles (cancel is a hard barrier for extension
/// continuations). Otherwise it joins the local queue under a generated id,
/// in the steering lane for `steer` and the follow-up lane otherwise, and
/// the id is returned.
pub fn enqueue_extension_message(
    mirror: &mut QueueMirror,
    text: String,
    images: Vec<Json>,
    streaming_behavior: Option<&str>,
    cancelling: bool,
) -> (r: Option<String>)
    ensures
        final(mirror).pis() == old(mirror).pis(),
        final(mirror).parked_rows() == old(mirror).parked_rows(),
        final(mirror).running_row() == old(mirror).running_row(),
        final(mirror).reservations() == old(mirror).reservations(),
        (trim_seq(text@).len() == 0 && images@.len() == 0) || cancelling ==> {
            &&& r is None
            &&& final(mirror).locals() == old(mirror).locals()
            &&& final(mirror).seq() == old(mirror).seq()
        },
        !((trim_seq(text@).len() == 0 && images@.len() == 0) || cancelling) ==> {
            &&& final(mirror).seq() == next_seq_of(old(mirror).seq())
            &&& r matches Some(id) && id@ == generated_id(
                origin_prefix(QueueOrigin::Extension),
                final(mirror).seq(),
            ) && final(mirror).locals() == enqueued(
                old(mirror).locals(),
                id@,
                text@,
                text@,
                images@,
                extension_lane(opt_str(streaming_behavior)),
                QueueOrigin::Extension,
            )
        },
{
    if trim(text.as_str()).unicode_len() == 0 && images.len() == 0 {
        return None;
    }
    let lane = match streaming_behavior {
        Some(b) => if str_eq(b, "steer") {
            QueueLane::Steering
        } else {
            QueueLane::FollowUp
        },
        None => QueueLane::FollowUp,
    };
    if cancelling {
        return None;
    }
    let copy = text.clone();
    let id = mirror.enqueue_local(None, copy, text, images, lane, QueueOrigin::Extension);
    Some(id)
}

/// The steering row to deliver at a safe point (an assistant
/// `message_end`): the oldest local steering row, as `(id, version)`, while
/// a run is in progress and no cancellation settles.
pub fn next_steering_to_flush(flags: RunFlags, mirror: &QueueMirror) -> (r: Option<(String, u64)>)
    ensures
        flags.cancelling || !flags.agent_running ==> r is None,
        !flags.cancelling && flags.agent_running ==> ({
            let p = first_where(mirror.locals(), in_lane(QueueLane::Steering));
            if p >= 0 {
                r matches Some((id, v)) && id@ == mirror.locals()[p].id && v
                    == mirror.locals()[p].version
            } else {
                r is None
            }
        }),
{
    if flags.cancelling || !flags.agent_running {
        None
    } else {
        mirror.next_local_in_lane(QueueLane::Steering)
    }
}

/// The next client prompt id: one more, wrapping, and never 0.
pub fn next_prompt_id(id: u64) -> (r: u64)
    ensures
        r == if id == u64::MAX {
            1
        } else {
            (id + 1) as u64
        },
{
    if id == u64::MAX {
        1
    } else {
        id + 1
    }
}

/// A queue status line: `None` for an empty lane, else the count and the
/// lane's label (`3 steering`, `1 follow-up`).
pub open spec fn lane_status(count: usize, label: Seq<char>) -> Option<Seq<char>> {
    if count == 0 {
        None
    } else {
        Some(crate::number::decimal(count as nat) + " "@ + label)
    }
}

/// The `steering` and `follow-up` status lines for a queue snapshot.
pub fn queue_status_texts(steering_count: usize, follow_up_count: usize) -> (r: (
    Option<String>,
    Option<String>,
))
    ensures
        opt_text(r.0) == lane_status(steering_count, "steering"@),
        opt_text(r.1) == lane_status(follow_up_count, "follow-up"@),
{
    (lane_status_text(steering_count, "steering"), lane_status_text(follow_up_count, "follow-up"))
}

fn lane_status_text(count: usize, label: &str) -> (r: Option<String>)
    ensures
        opt_text(r) == lane_status(count, label@),
{
    if count == 0 {
        None
    } else {
        let mut out = String::new();
        crate::number::push_decimal(&mut out, count as u64);
        out.append(" ");
        out.append(label);
        Some(out)
    }
}

/// The client's prompt id from the prompt's `_meta.promptId`: trimmed, and
/// absent when blank.
pub open spec fn client_prompt_id_v(raw: Option<Seq<char>>) -> Option<Seq<char>> {
    match raw {
        Some(s) => if trim_seq(s).len() > 0 {
            Some(trim_seq(s))
        } else {
            None
        },
        None => None,
    }
}

/// Why a prompt was refused.
#[derive(Clone, Copy, Debug, PartialEq, Eq)]
pub enum PromptError {
    /// Neither text nor images.
    Empty,
}

impl PromptError {
    /// The error's text, as the client sees it.
    pub fn message(&self) -> (r: &'static str)
        ensures
            r@ == "Pi prompt is empty"@,
    {
        "Pi prompt is empty"
    }
}

/// Where a client prompt goes.
#[derive(Debug)]
pub enum PromptPlan {
    /// Held in the local queue under `id` (editable and cancellable) until a
    /// safe point or a free adapter forwards it.
    Queued { id: String },
    /// Sent to Pi now with `request`; when the client named the prompt, it
    /// holds the running slot (`pin_primary_running`).
    Direct { request: Json, pin_primary_running: bool },
}

/// Route a client prompt. An empty prompt (blank text, no images) is
/// refused. With a streaming behavior (the adapter is busy) the prompt
/// joins the local queue, in the steering lane for `steer` and the
/// follow-up lane otherwise, under the client's id or a generated one.
/// Without one it is sent directly, with the plan-mode `reminder` in front
/// of its text; a prompt the client named takes the running slot.
pub fn plan_prompt(
    mirror: &mut QueueMirror,
    message: String,
    images: Vec<Json>,
    meta_prompt_id: Option<&str>,
    streaming_behavior: Option<&str>,
    reminder: Option<String>,
) -> (r: Result<PromptPlan, PromptError>)
    ensures
        final(mirror).pis() == old(mirror).pis(),
        final(mirror).parked_rows() == old(mirror).parked_rows(),
        final(mirror).reservations() == old(mirror).reservations(),
        trim_seq(message@).len() == 0 && images@.len() == 0 ==> {
            &&& r == Err::<PromptPlan, PromptError>(PromptError::Empty)
            &&& final(mirror).locals() == old(mirror).locals()
            &&& final(mirror).seq() == old(mirror).seq()
            &&& final(mirror).running_row() == old(mirror).running_row()
        },
        !(trim_seq(message@).len() == 0 && images@.len() == 0) ==> ({
            let client = client_prompt_id_v(opt_str(meta_prompt_id));
            match streaming_behavior {
                Some(b) => {
                    let lane = if b@ == "steer"@ {
                        QueueLane::Steering
                    } else {
                        QueueLane::FollowUp
                    };
                    &&& final(mirror).seq() == (if client is Some {
                        old(mirror).seq()
                    } else {
                        next_seq_of(old(mirror).seq())
                    })
                    &&& r matches Ok(PromptPlan::Queued { id }) && id@ == (match client {
                        Some(c) => c,
                        None => generated_id(origin_prefix(QueueOrigin::Client), final(mirror).seq()),
                    }) && final(mirror).locals() == enqueued(
                        old(mirror).locals(),
                        id@,
                        message@,
                        message@,
                        images@,
                        lane,
                        QueueOrigin::Client,
                    )
                    &&& final(mirror).running_row() == old(mirror).running_row()
                },
                None => {
                    let text = with_reminder(opt_text(reminder), message@);
                    &&& r matches Ok(PromptPlan::Direct { request, pin_primary_running })
                        && jv(request) == prompt_request_v(text, images@, false)
                        && pin_primary_running == client is Some
                    &&& final(mirror).locals() == old(mirror).locals()
                    &&& final(mirror).seq() == old(mirror).seq()
                    &&& final(mirror).running_row() == match client {
                        Some(c) => Some(
                            EntryView {
                                id: c,
                                execution_text: text,
                                display_text: message@,
                                images: images@,
                                version: 0,
                                lane: QueueLane::FollowUp,
                                origin: QueueOrigin::Client,
                            },
                        ),
                        None => old(mirror).running_row(),
                    }
                },
            }
        }),
{
    if trim(message.as_str()).unicode_len() == 0 && images.len() == 0 {
        return Err(PromptError::Empty);
    }
    let client: Option<String> = match meta_prompt_id {
        Some(raw) => {
            let t = trim(raw);
            proof {
                crate::text::lemma_trim_idempotent(raw@);
            }
            if t.unicode_len() > 0 {
                Some(t.to_owned())
            } else {
                None
            }
        },
        None => None,
    };
    assert(opt_text(client) == client_prompt_id_v(opt_str(meta_prompt_id)));
    match streaming_behavior {
        Some(b) => {
            let lane = if str_eq(b, "steer") {
                QueueLane::Steering
            } else {
                QueueLane::FollowUp
            };
            assert(crate::queue_bridge::provided_id(client) == opt_text(client));
            let display = message.clone();
            let id = mirror.enqueue_local(client, message, display, images, lane, QueueOrigin::Client);
            Ok(PromptPlan::Queued { id })
        },
        None => {
            let display = message.clone();
            let text = prepare_execution_text(reminder, message);
            let request = prompt_request(text.as_str(), &images, false);
            let pin = client.is_some();
            match client {
                Some(id) => {
                    mirror.set_running_primary(id, text, display, images, QueueOrigin::Client);
                },
                None => {},
            }
            Ok(PromptPlan::Direct { request, pin_primary_running: pin })
        },
    }
}

/// A prompt turn whose completion a client awaits.
#[derive(Clone, Debug, PartialEq, Eq)]
pub struct ActivePrompt {
    pub id: u64,
    /// The client's id for the prompt, where it has one.
    pub client_prompt_id: Option<String>,
    /// Pi has started the run for it.
    pub agent_started: bool,
    /// A cancellation reached it: it completes as cancelled.
    pub cancelled: bool,
}

/// `p` marked as reached by a cancellation.
pub open spec fn cancelled_prompt(p: ActivePrompt) -> ActivePrompt {
    ActivePrompt {
        id: p.id,
        client_prompt_id: p.client_prompt_id,
        agent_started: p.agent_started,
        cancelled: true,
    }
}

/// Register a prompt turn that a client now awaits: it takes the next
/// prompt id, which moves on (wrapping, never 0), and joins the active
/// prompts, not yet started and not cancelled.
pub fn push_active_prompt(
    next_id: &mut u64,
    prompts: &mut Vec<ActivePrompt>,
    client_prompt_id: Option<String>,
) -> (id: u64)
    ensures
        id == *old(next_id),
        *final(next_id) == if id == u64::MAX {
            1
        } else {
            (id + 1) as u64
        },
        final(prompts)@ == old(prompts)@.push(
            ActivePrompt { id, client_prompt_id, agent_started: false, cancelled: false },
        ),
{
    let id = *next_id;
    *next_id = next_prompt_id(id);
    prompts.push(ActivePrompt { id, client_prompt_id, agent_started: false, cancelled: false });
    id
}

/// Whether an active prompt has the id `id`.
pub open spec fn has_prompt_id(id: u64) -> spec_fn(ActivePrompt) -> bool {
    |p: ActivePrompt| p.id == id
}

/// Take the first active prompt with the id `id` out of the list.
pub fn take_active_prompt(prompts: &mut Vec<ActivePrompt>, id: u64) -> (r: Option<ActivePrompt>)
    ensures
        ({
            let k = first_where(old(prompts)@, has_prompt_id(id));
            &&& k < 0 ==> r is None && final(prompts)@ == old(prompts)@
            &&& k >= 0 ==> r == Some(old(prompts)@[k]) && final(prompts)@ == old(prompts)@.remove(
                k,
            )
        }),
{
    let n = prompts.len();
    let mut i: usize = 0;
    while i < n
        invariant
            n == prompts@.len(),
            prompts@ == old(prompts)@,
            i <= n,
            forall|j: int| 0 <= j < i ==> !has_prompt_id(id)(#[trigger] prompts@[j]),
        decreases n - i,
    {
        if prompts[i].id == id {
            proof {
                assert(has_prompt_id(id)(prompts@[i as int]));
                lemma_first_where_at(prompts@, has_prompt_id(id), i as int);
            }
            return Some(prompts.remove(i));
        }
        assert(!has_prompt_id(id)(prompts@[i as int]));
        i = i + 1;
    }
    proof {
        lemma_first_where_none(prompts@, has_prompt_id(id));
    }
    None
}

/// What a cancellation took out of the queue mirror. Everything it hands
/// back completes as cancelled.
#[derive(Debug)]
pub struct CancelPlan {
    /// The abort RPC to send, without waiting for its reply: `abort_bash`
    /// while a bash command runs, else `abort`.
    pub command: &'static str,
    /// The local rows, whose waiters complete as cancelled.
    pub queued: Vec<QueueEntry>,
    /// What held the running slot.
    pub running: Option<QueueEntry>,
    /// The running row was not the client's own prompt, so the pager is told
    /// that it completed as cancelled.
    pub notify_running: bool,
}

/// Cancel everything: the adapter enters its cancelling state, every active
/// prompt is marked cancelled, every queue, reservation and the running slot
/// are emptied, and what was queued or running is handed back.
pub fn plan_cancel(
    mirror: &mut QueueMirror,
    flags: &mut RunFlags,
    prompts: &mut Vec<ActivePrompt>,
) -> (r: CancelPlan)
    ensures
        r.command@ == if old(flags).bash_running {
            "abort_bash"@
        } else {
            "abort"@
        },
        *final(flags) == (RunFlags { cancelling: true, ..*old(flags) }),
        final(prompts)@.len() == old(prompts)@.len(),
        forall|i: int|
            0 <= i < old(prompts)@.len() ==> #[trigger] final(prompts)@[i] == cancelled_prompt(
                old(prompts)@[i],
            ),
        crate::queue_bridge::entry_views(r.queued@) == old(mirror).locals(),
        match r.running {
            Some(e) => old(mirror).running_row() == Some(e@) && r.notify_running == (e.origin
                != QueueOrigin::Client),
            None => old(mirror).running_row() is None && !r.notify_running,
        },
        final(mirror).locals() == Seq::<EntryView>::empty(),
        final(mirror).pis() == Seq::<EntryView>::empty(),
        final(mirror).reservations() == Seq::<ReservedView>::empty(),
        final(mirror).parked_rows() == Seq::<EntryView>::empty(),
        final(mirror).running_row() is None,
        final(mirror).seq() == old(mirror).seq(),
{
    let ghost before = prompts@;
    let mut rest: Vec<ActivePrompt> = Vec::new();
    std::mem::swap(prompts, &mut rest);
    let n = rest.len();
    while rest.len() > 0
        invariant
            prompts@.len() + rest@.len() == n,
            n == before.len(),
            rest@ == before.subrange(prompts@.len() as int, n as int),
            forall|i: int|
                0 <= i < prompts@.len() ==> #[trigger] prompts@[i] == cancelled_prompt(before[i]),
        decreases rest@.len(),
    {
        let ghost k = prompts@.len() as int;
        let p = rest.remove(0);
        assert(p == before[k]);
        prompts.push(
            ActivePrompt {
                id: p.id,
                client_prompt_id: p.client_prompt_id,
                agent_started: p.agent_started,
                cancelled: true,
            },
        );
        assert(rest@ =~= before.subrange(prompts@.len() as int, n as int));
    }
    flags.cancelling = true;
    let command = if flags.bash_running {
        "abort_bash"
    } else {
        "abort"
    };
    let queued = mirror.clear_local();
    let running = mirror.clear_running();
    let _ = mirror.clear();
    let notify_running = match &running {
        Some(e) => e.origin != QueueOrigin::Client,
        None => false,
    };
    CancelPlan { command, queued, running, notify_running }
}

/// Whether the queue already has work (a steering or follow-up row, or a
/// running prompt), so that no goal continuation is stacked on it.
pub fn queue_has_work(snapshot: &crate::queue_bridge::QueueSnapshot) -> (b: bool)
    ensures
        b == (snapshot.follow_up_count > 0 || snapshot.steering_count > 0
            || snapshot.running_prompt_id is Some),
{
    snapshot.follow_up_count > 0 || snapshot.steering_count > 0 || snapshot.running_prompt_id.is_some()
}

/// Remember the context-window estimate a session update carried; a zero
/// estimate carries nothing and is ignored.
pub fn note_context_tokens(last_context_tokens: &mut Option<u64>, tokens: u64)
    ensures
        *final(last_context_tokens) == if tokens == 0 {
            *old(last_context_tokens)
        } else {
            Some(tokens)
        },
{
    if tokens == 0 {
        return;
    }
    *last_context_tokens = Some(tokens);
}

/// Record Pi's fresh context estimate; returns whether it differs from the
/// one remembered (only then is the pager's context bar refreshed).
pub fn refresh_context_tokens(last_context_tokens: &mut Option<u64>, tokens: u64) -> (changed: bool)
    ensures
        changed == (*old(last_context_tokens) != Some(tokens)),
        *final(last_context_tokens) == Some(tokens),
{
    let changed = match *last_context_tokens {
        Some(t) => t != tokens,
        None => true,
    };
    *last_context_tokens = Some(tokens);
    changed
}

} // verus!

//! Adapter-owned queue isolation for the native Grok queue surface.
//!
//! User and extension follow-ups and mid-turn steer rows stay here until the
//! adapter dispatches them to Pi, so remove/edit/reorder/clear/interject are
//! real operations. Pi `queue_update` is mirrored as an external lane for
//! messages that bypass the adapter.
use vstd::prelude::*;
use crate::json::{Json, str_spec};
use crate::number::{decimal, push_decimal};
use crate::seq_util::{
    first_where, keep_where, lemma_first_where_at, lemma_first_where_none,
    lemma_first_where_props, lemma_keep_where_push,
};
use crate::text::{str_eq, trim, trim_seq};

verus! {

#[derive(Debug, Clone, Copy, PartialEq, Eq, Structural)]
pub enum QueueLane {
    Steering,
    FollowUp,
}

#[derive(Debug, Clone, Copy, PartialEq, Eq, Structural)]
pub enum QueueOrigin {
    Client,
    Extension,
    Pi,
}

/// One queued prompt.
#[derive(Debug)]
pub struct QueueEntry {
    pub id: String,
    pub execution_text: String,
    pub display_text: String,
    pub images: Vec<Json>,
    pub version: u64,
    pub lane: QueueLane,
    pub origin: QueueOrigin,
}

/// A queued prompt as plain values.
pub struct EntryView {
    pub id: Seq<char>,
    pub execution_text: Seq<char>,
    pub display_text: Seq<char>,
    pub images: Seq<Json>,
    pub version: u64,
    pub lane: QueueLane,
    pub origin: QueueOrigin,
}

impl View for QueueEntry {
    type V = EntryView;

    open spec fn view(&self) -> EntryView {
        EntryView {
            id: self.id@,
            execution_text: self.execution_text@,
            display_text: self.display_text@,
            images: self.images@,
            version: self.version,
            lane: self.lane,
            origin: self.origin,
        }
    }
}

/// A prompt sent to Pi whose queue row has not appeared yet.
#[derive(Debug)]
struct ReservedPrompt {
    id: String,
    execution_text: String,
    display_text: String,
    images: Vec<Json>,
    lane: QueueLane,
    origin: QueueOrigin,
}

/// A reservation as plain values.
pub struct ReservedView {
    pub id: Seq<char>,
    pub execution_text: Seq<char>,
    pub display_text: Seq<char>,
    pub images: Seq<Json>,
    pub lane: QueueLane,
    pub origin: QueueOrigin,
}

impl View for ReservedPrompt {
    type V = ReservedView;

    closed spec fn view(&self) -> ReservedView {
        ReservedView {
            id: self.id@,
            execution_text: self.execution_text@,
            display_text: self.display_text@,
            images: self.images@,
            lane: self.lane,
            origin: self.origin,
        }
    }
}

pub open spec fn entry_views(s: Seq<QueueEntry>) -> Seq<EntryView> {
    s.map_values(|e: QueueEntry| e@)
}

pub open spec fn reserved_views(s: Seq<ReservedPrompt>) -> Seq<ReservedView> {
    s.map_values(|r: ReservedPrompt| r@)
}

pub open spec fn has_id(id: Seq<char>) -> spec_fn(EntryView) -> bool {
    |e: EntryView| e.id == id
}

pub open spec fn other_id(id: Seq<char>) -> spec_fn(EntryView) -> bool {
    |e: EntryView| e.id != id
}

pub open spec fn reserved_other_id(id: Seq<char>) -> spec_fn(ReservedView) -> bool {
    |r: ReservedView| r.id != id
}

pub open spec fn in_lane(lane: QueueLane) -> spec_fn(EntryView) -> bool {
    |e: EntryView| e.lane == lane
}

/// The entry `id` whose version is `expected`, when one is expected.
pub open spec fn takeable(id: Seq<char>, expected: Option<u64>) -> spec_fn(EntryView) -> bool {
    |e: EntryView| e.id == id && (expected is None || expected == Some(e.version))
}

/// The counter after one more generated id: it skips 0 when it wraps.
pub open spec fn next_seq_of(s: u64) -> u64 {
    if s == u64::MAX {
        1
    } else {
        (s + 1) as u64
    }
}

/// A generated row id.
pub open spec fn generated_id(prefix: Seq<char>, seq: u64) -> Seq<char> {
    prefix + "-"@ + decimal(seq as nat)
}

pub open spec fn origin_prefix(origin: QueueOrigin) -> Seq<char> {
    match origin {
        QueueOrigin::Client => "pi-client-queue"@,
        QueueOrigin::Extension => "pi-extension-queue"@,
        QueueOrigin::Pi => "pi-queue"@,
    }
}

pub open spec fn bump_version(v: u64) -> u64 {
    if v == u64::MAX {
        0
    } else {
        (v + 1) as u64
    }
}

/// A caller-chosen id that is not blank.
pub open spec fn provided_id(id: Option<String>) -> Option<Seq<char>> {
    match id {
        Some(s) => if trim_seq(s@).len() > 0 {
            Some(s@)
        } else {
            None
        },
        None => None,
    }
}

/// Local rows after enqueueing under `id`: an existing row with that id takes
/// the new texts, images, lane and origin and keeps its version; otherwise a
/// new row with version 0 is appended.
pub open spec fn enqueued(
    locals: Seq<EntryView>,
    id: Seq<char>,
    execution_text: Seq<char>,
    display_text: Seq<char>,
    images: Seq<Json>,
    lane: QueueLane,
    origin: QueueOrigin,
) -> Seq<EntryView> {
    let p = first_where(locals, has_id(id));
    if p >= 0 {
        locals.update(
            p,
            EntryView {
                id: locals[p].id,
                execution_text,
                display_text,
                images,
                version: locals[p].version,
                lane,
                origin,
            },
        )
    } else {
        locals.push(EntryView { id, execution_text, display_text, images, version: 0, lane, origin })
    }
}

/// Local rows after an edit of row `p`: both texts replaced, version bumped.
pub open spec fn edited(locals: Seq<EntryView>, p: int, text: Seq<char>) -> Seq<EntryView> {
    locals.update(
        p,
        EntryView {
            id: locals[p].id,
            execution_text: text,
            display_text: text,
            images: locals[p].images,
            version: bump_version(locals[p].version),
            lane: locals[p].lane,
            origin: locals[p].origin,
        },
    )
}

/// `after` is `before` with row `p` edited to `text`: the other rows are
/// untouched, and row `p` keeps its id, images, lane and origin, has `text`
/// as both its texts, and its version one higher (wrapping to 0).
pub open spec fn edit_changes_only_texts(
    before: Seq<EntryView>,
    after: Seq<EntryView>,
    p: int,
    text: Seq<char>,
) -> bool {
    &&& after.len() == before.len()
    &&& forall|i: int| 0 <= i < before.len() && i != p ==> #[trigger] after[i] == before[i]
    &&& after[p].id == before[p].id
    &&& after[p].images == before[p].images
    &&& after[p].lane == before[p].lane
    &&& after[p].origin == before[p].origin
    &&& after[p].execution_text == text
    &&& after[p].display_text == text
    &&& after[p].version == if before[p].version == u64::MAX {
        0
    } else {
        before[p].version + 1
    }
}

/// Editing a local row changes only its two texts and its version.
pub proof fn lemma_edit_changes_only_texts(locals: Seq<EntryView>, p: int, text: Seq<char>)
    requires
        0 <= p < locals.len(),
    ensures
        edit_changes_only_texts(locals, edited(locals, p, text), p, text),
{
}

/// Enqueueing under an id that a local row already has rewrites that row in
/// place (its texts, images, lane and origin, keeping its id and version)
/// and leaves the other rows; a new id joins at the end with version 0.
pub proof fn lemma_enqueue_replaces_or_appends(
    locals: Seq<EntryView>,
    id: Seq<char>,
    execution_text: Seq<char>,
    display_text: Seq<char>,
    images: Seq<Json>,
    lane: QueueLane,
    origin: QueueOrigin,
)
    ensures
        ({
            let after = enqueued(locals, id, execution_text, display_text, images, lane, origin);
            let row = EntryView { id, execution_text, display_text, images, version: 0, lane, origin };
            if exists|k: int| 0 <= k < locals.len() && #[trigger] locals[k].id == id {
                let p = first_where(locals, has_id(id));
                &&& 0 <= p < locals.len()
                &&& after.len() == locals.len()
                &&& forall|i: int| 0 <= i < locals.len() && i != p ==> #[trigger] after[i] == locals[i]
                &&& after[p] == EntryView { version: locals[p].version, ..row }
            } else {
                after == locals.push(row)
            }
        }),
{
    crate::seq_util::lemma_first_where_props(locals, has_id(id));
    if exists|k: int| 0 <= k < locals.len() && #[trigger] locals[k].id == id {
        let k = choose|k: int| 0 <= k < locals.len() && #[trigger] locals[k].id == id;
        assert(has_id(id)(locals[k]));
    } else {
        assert forall|j: int| 0 <= j < locals.len() implies !has_id(id)(#[trigger] locals[j]) by {}
        crate::seq_util::lemma_first_where_none(locals, has_id(id));
    }
}

/// Drop every row with `id` from a vector of rows.
fn retain_other_id(v: Vec<QueueEntry>, id: &str) -> (r: Vec<QueueEntry>)
    ensures
        entry_views(r@) == keep_where(entry_views(v@), other_id(id@)),
{
    let ghost orig = entry_views(v@);
    let ghost n = v@.len();
    let mut src = v;
    let mut out: Vec<QueueEntry> = Vec::new();
    let ghost mut k: int = 0;
    assert(orig.take(0) =~= Seq::<EntryView>::empty());
    assert(entry_views(out@) =~= Seq::<EntryView>::empty());
    while src.len() > 0
        invariant
            0 <= k <= n,
            n == orig.len(),
            entry_views(src@) =~= orig.subrange(k, n as int),
            entry_views(out@) == keep_where(orig.take(k), other_id(id@)),
        decreases src.len(),
    {
        proof {
            assert(entry_views(src@).len() == src@.len());
            assert(orig.subrange(k, n as int).len() == n - k);
            assert(k < n);
            assert(src@[0]@ == orig[k]) by {
                assert(entry_views(src@)[0] == orig.subrange(k, n as int)[0]);
            }
        }
        let ghost before = entry_views(src@);
        let e = src.remove(0);
        proof {
            assert(entry_views(src@) =~= before.drop_first());
            assert(before.drop_first() =~= orig.subrange(k + 1, n as int));
            assert(orig.take(k + 1) =~= orig.take(k).push(orig[k]));
            lemma_keep_where_push(orig.take(k), other_id(id@), orig[k]);
        }
        if !str_eq(e.id.as_str(), id) {
            out.push(e);
            proof {
                assert(entry_views(out@) =~= keep_where(orig.take(k), other_id(id@)).push(orig[k]));
            }
        }
        proof {
            k = k + 1;
        }
    }
    assert(orig.take(n as int) =~= orig);
    out
}

/// Drop every reservation with `id`.
fn retain_other_reserved(v: Vec<ReservedPrompt>, id: &str) -> (r: Vec<ReservedPrompt>)
    ensures
        reserved_views(r@) == keep_where(reserved_views(v@), reserved_other_id(id@)),
{
    let ghost orig = reserved_views(v@);
    let ghost n = v@.len();
    let mut src = v;
    let mut out: Vec<ReservedPrompt> = Vec::new();
    let ghost mut k: int = 0;
    assert(orig.take(0) =~= Seq::<ReservedView>::empty());
    assert(reserved_views(out@) =~= Seq::<ReservedView>::empty());
    while src.len() > 0
        invariant
            0 <= k <= n,
            n == orig.len(),
            reserved_views(src@) =~= orig.subrange(k, n as int),
            reserved_views(out@) == keep_where(orig.take(k), reserved_other_id(id@)),
        decreases src.len(),
    {
        proof {
            assert(reserved_views(src@).len() == src@.len());
            assert(orig.subrange(k, n as int).len() == n - k);
            assert(k < n);
            assert(src@[0]@ == orig[k]) by {
                assert(reserved_views(src@)[0] == orig.subrange(k, n as int)[0]);
            }
        }
        let ghost before = reserved_views(src@);
        let e = src.remove(0);
        proof {
            assert(reserved_views(src@) =~= before.drop_first());
            assert(before.drop_first() =~= orig.subrange(k + 1, n as int));
            assert(orig.take(k + 1) =~= orig.take(k).push(orig[k]));
            lemma_keep_where_push(orig.take(k), reserved_other_id(id@), orig[k]);
        }
        if !str_eq(e.id.as_str(), id) {
            out.push(e);
            proof {
                assert(reserved_views(out@) =~= keep_where(orig.take(k), reserved_other_id(id@)).push(
                    orig[k],
                ));
            }
        }
        proof {
            k = k + 1;
        }
    }
    assert(orig.take(n as int) =~= orig);
    out
}

fn origin_prefix_str(origin: QueueOrigin) -> (r: &'static str)
    ensures
        r@ == origin_prefix(origin),
{
    match origin {
        QueueOrigin::Client => "pi-client-queue",
        QueueOrigin::Extension => "pi-extension-queue",
        QueueOrigin::Pi => "pi-queue",
    }
}

/// One row of the queue listing the pager shows:
/// `{"id", "version", "kind": "prompt", "text", "position"}`.
pub open spec fn is_row(j: Json, e: EntryView, position: int) -> bool {
    match j {
        Json::Object(f) => {
            &&& f@.len() == 5
            &&& f@[0].0@ == "id"@ && str_spec(Some(f@[0].1)) == Some(e.id)
            &&& f@[1].0@ == "version"@ && f@[1].1 == Json::Int(e.version as i128)
            &&& f@[2].0@ == "kind"@ && str_spec(Some(f@[2].1)) == Some("prompt"@)
            &&& f@[3].0@ == "text"@ && str_spec(Some(f@[3].1)) == Some(e.display_text)
            &&& f@[4].0@ == "position"@ && f@[4].1 == Json::Int(position as i128)
        },
        _ => false,
    }
}

/// How many rows are in `lane`.
pub open spec fn count_lane(s: Seq<EntryView>, lane: QueueLane) -> nat
    decreases s.len(),
{
    if s.len() == 0 {
        0
    } else {
        count_lane(s.drop_last(), lane) + if s.last().lane == lane {
            1nat
        } else {
            0nat
        }
    }
}

pub proof fn lemma_count_lane_le(s: Seq<EntryView>, lane: QueueLane)
    ensures
        count_lane(s, lane) <= s.len(),
    decreases s.len(),
{
    if s.len() > 0 {
        lemma_count_lane_le(s.drop_last(), lane);
    }
}

/// `x`, or `usize::MAX` where `x` exceeds it.
pub open spec fn clamp_usize(x: int) -> int {
    if x > usize::MAX {
        usize::MAX as int
    } else {
        x
    }
}

/// What the pager is told about the queue.
#[derive(Debug)]
pub struct QueueSnapshot {
    pub entries: Vec<Json>,
    pub running_prompt_id: Option<String>,
    pub running_text: Option<String>,
    pub steering_count: usize,
    /// Follow-ups still to run, parked ones included.
    pub follow_up_count: usize,
}

/// `r` lists `rows` in order, names the running prompt, and counts the
/// steering rows and the follow-ups (queued and parked).
pub open spec fn snapshot_of(
    rows: Seq<EntryView>,
    parked: Seq<EntryView>,
    running: Option<EntryView>,
    r: QueueSnapshot,
) -> bool {
    &&& r.entries@.len() == rows.len()
    &&& forall|i: int| 0 <= i < rows.len() ==> is_row(#[trigger] r.entries@[i], rows[i], i)
    &&& match running {
        Some(e) => (r.running_prompt_id matches Some(id) && id@ == e.id) && (r.running_text matches Some(
            t,
        ) && t@ == e.display_text),
        None => r.running_prompt_id is None && r.running_text is None,
    }
    &&& r.steering_count == count_lane(rows, QueueLane::Steering)
    &&& r.follow_up_count == clamp_usize(
        rows.len() + parked.len() - count_lane(rows, QueueLane::Steering),
    )
}

/// The state threaded through the rows of a Pi queue update.
pub struct UpdateState {
    /// Which earlier Pi rows were matched already.
    pub used: Seq<bool>,
    pub reserved: Seq<ReservedView>,
    pub seq: u64,
    /// The new Pi rows so far.
    pub next: Seq<EntryView>,
}

pub open spec fn zip_used(used: Seq<bool>, prev: Seq<EntryView>) -> Seq<(bool, EntryView)> {
    Seq::new(prev.len(), |k: int| (used[k], prev[k]))
}

pub open spec fn unused_match(text: Seq<char>, lane: QueueLane) -> spec_fn((bool, EntryView)) -> bool {
    |p: (bool, EntryView)| !p.0 && p.1.lane == lane && p.1.execution_text == text
}

pub open spec fn reserved_exact(text: Seq<char>, lane: QueueLane) -> spec_fn(ReservedView) -> bool {
    |r: ReservedView| r.lane == lane && r.execution_text == text
}

pub open spec fn reserved_in_lane(lane: QueueLane) -> spec_fn(ReservedView) -> bool {
    |r: ReservedView| r.lane == lane
}

/// The reservation a new Pi row adopts: the first with the same lane and
/// text, else the first in the lane (Pi may have expanded the text).
pub open spec fn reserved_match(res: Seq<ReservedView>, text: Seq<char>, lane: QueueLane) -> int {
    let a = first_where(res, reserved_exact(text, lane));
    if a >= 0 {
        a
    } else {
        first_where(res, reserved_in_lane(lane))
    }
}

/// One row of Pi's queue, matched in turn against an unused earlier row, a
/// reservation, or given a fresh `pi-queue` id.
pub open spec fn step_state(
    prev: Seq<EntryView>,
    st: UpdateState,
    text: Seq<char>,
    lane: QueueLane,
) -> UpdateState {
    let k = first_where(zip_used(st.used, prev), unused_match(text, lane));
    if k >= 0 {
        UpdateState {
            used: st.used.update(k, true),
            reserved: st.reserved,
            seq: st.seq,
            next: st.next.push(prev[k]),
        }
    } else {
        let r = reserved_match(st.reserved, text, lane);
        if r >= 0 {
            let res = st.reserved[r];
            UpdateState {
                used: st.used,
                reserved: st.reserved.remove(r),
                seq: st.seq,
                next: st.next.push(
                    EntryView {
                        id: res.id,
                        execution_text: text,
                        display_text: res.display_text,
                        images: res.images,
                        version: 0,
                        lane,
                        origin: res.origin,
                    },
                ),
            }
        } else {
            let s2 = next_seq_of(st.seq);
            UpdateState {
                used: st.used,
                reserved: st.reserved,
                seq: s2,
                next: st.next.push(
                    EntryView {
                        id: generated_id("pi-queue"@, s2),
                        execution_text: text,
                        display_text: text,
                        images: Seq::empty(),
                        version: 0,
                        lane,
                        origin: QueueOrigin::Pi,
                    },
                ),
            }
        }
    }
}

pub open spec fn fold_states(
    prev: Seq<EntryView>,
    st: UpdateState,
    items: Seq<(Seq<char>, QueueLane)>,
) -> UpdateState
    decreases items.len(),
{
    if items.len() == 0 {
        st
    } else {
        let before = fold_states(prev, st, items.drop_last());
        step_state(prev, before, items.last().0, items.last().1)
    }
}

/// Pi's steering rows, then its follow-up rows.
pub open spec fn desired_items(steering: Seq<String>, follow_up: Seq<String>) -> Seq<
    (Seq<char>, QueueLane),
> {
    steering.map_values(|s: String| (s@, QueueLane::Steering)) + follow_up.map_values(
        |s: String| (s@, QueueLane::FollowUp),
    )
}

/// The start of an update: no earlier row matched yet.
pub open spec fn initial_state(
    prev: Seq<EntryView>,
    reserved: Seq<ReservedView>,
    seq: u64,
) -> UpdateState {
    UpdateState { used: Seq::new(prev.len(), |k: int| false), reserved, seq, next: Seq::empty() }
}

/// Earlier follow-up rows that matched nothing: Pi has started them.
pub open spec fn leftover_follow_ups(prev: Seq<EntryView>, used: Seq<bool>, n: int) -> Seq<EntryView>
    decreases n,
{
    if n <= 0 {
        Seq::empty()
    } else {
        let r = leftover_follow_ups(prev, used, n - 1);
        if !used[n - 1] && prev[n - 1].lane == QueueLane::FollowUp {
            r.push(prev[n - 1])
        } else {
            r
        }
    }
}

/// A reservation whose id no new row took.
pub open spec fn not_listed(next: Seq<EntryView>) -> spec_fn(ReservedView) -> bool {
    |r: ReservedView| first_where(next, has_id(r.id)) < 0
}

pub open spec fn slot_holds(o: Option<QueueEntry>, e: EntryView) -> bool {
    match o {
        Some(x) => x@ == e,
        None => true,
    }
}

pub open spec fn used_of(slots: Seq<Option<QueueEntry>>) -> Seq<bool> {
    slots.map_values(|o: Option<QueueEntry>| o is None)
}

/// Index of the first row with `id`.
fn find_id(v: &Vec<QueueEntry>, id: &str) -> (r: Option<usize>)
    ensures
        match r {
            Some(i) => i < v@.len() && first_where(entry_views(v@), has_id(id@)) == i,
            None => first_where(entry_views(v@), has_id(id@)) == -1,
        },
{
    let n = v.len();
    let mut i: usize = 0;
    while i < n
        invariant
            n == v@.len(),
            i <= n,
            forall|j: int| 0 <= j < i ==> !has_id(id@)(#[trigger] entry_views(v@)[j]),
        decreases n - i,
    {
        if str_eq(v[i].id.as_str(), id) {
            proof {
                lemma_first_where_at(entry_views(v@), has_id(id@), i as int);
            }
            return Some(i);
        }
        i = i + 1;
    }
    proof {
        lemma_first_where_none(entry_views(v@), has_id(id@));
    }
    None
}

/// Index of the first reservation in `lane`, with text `text` when `exact`.
fn find_reserved(res: &Vec<ReservedPrompt>, text: &str, lane: QueueLane, exact: bool) -> (r: Option<
    usize,
>)
    ensures
        ({
            let p = if exact {
                reserved_exact(text@, lane)
            } else {
                reserved_in_lane(lane)
            };
            match r {
                Some(i) => i < res@.len() && first_where(reserved_views(res@), p) == i,
                None => first_where(reserved_views(res@), p) == -1,
            }
        }),
{
    let ghost p = if exact {
        reserved_exact(text@, lane)
    } else {
        reserved_in_lane(lane)
    };
    let n = res.len();
    let mut i: usize = 0;
    while i < n
        invariant
            n == res@.len(),
            i <= n,
            p == (if exact {
                reserved_exact(text@, lane)
            } else {
                reserved_in_lane(lane)
            }),
            forall|j: int| 0 <= j < i ==> !p(#[trigger] reserved_views(res@)[j]),
        decreases n - i,
    {
        let hit = res[i].lane == lane && (!exact || str_eq(res[i].execution_text.as_str(), text));
        proof {
            assert(reserved_views(res@)[i as int] == res@[i as int]@);
        }
        if hit {
            proof {
                lemma_first_where_at(reserved_views(res@), p, i as int);
            }
            return Some(i);
        }
        i = i + 1;
    }
    proof {
        lemma_first_where_none(reserved_views(res@), p);
    }
    None
}

/// The ids of rows, copied.
fn id_list(v: &Vec<QueueEntry>) -> (r: Vec<String>)
    ensures
        crate::seq_util::strs(r@) == ids_of(entry_views(v@)),
{
    let mut out: Vec<String> = Vec::new();
    let mut i: usize = 0;
    while i < v.len()
        invariant
            i <= v@.len(),
            out@.len() == i,
            crate::seq_util::strs(out@) =~= ids_of(entry_views(v@)).take(i as int),
        decreases v@.len() - i,
    {
        out.push(v[i].id.clone());
        proof {
            let want = ids_of(entry_views(v@)).take(i + 1);
            assert forall|j: int| 0 <= j < i + 1 implies crate::seq_util::strs(out@)[j] == want[j] by {
                if j == i {
                    assert(out@[j] == v@[j].id);
                }
            }
        }
        i = i + 1;
    }
    out
}

/// Whether `a` lists exactly the ids of `b`, in order.
fn same_ids(a: &Vec<String>, b: &Vec<QueueEntry>) -> (r: bool)
    ensures
        r == (crate::seq_util::strs(a@) == ids_of(entry_views(b@))),
{
    let ghost x = crate::seq_util::strs(a@);
    let ghost y = ids_of(entry_views(b@));
    if a.len() != b.len() {
        assert(x.len() != y.len());
        return false;
    }
    let mut i: usize = 0;
    while i < a.len()
        invariant
            a@.len() == b@.len(),
            x == crate::seq_util::strs(a@),
            y == ids_of(entry_views(b@)),
            i <= a@.len(),
            forall|j: int| 0 <= j < i ==> x[j] == y[j],
        decreases a@.len() - i,
    {
        if !str_eq(a[i].as_str(), b[i].id.as_str()) {
            assert(x[i as int] != y[i as int]);
            return false;
        }
        i = i + 1;
    }
    assert(x =~= y);
    true
}

fn row_json(e: &QueueEntry, position: usize) -> (j: Json)
    ensures
        is_row(j, e@, position as int),
{
    Json::Object(
        vec![
            ("id".to_owned(), Json::Str(e.id.clone())),
            ("version".to_owned(), Json::Int(e.version as i128)),
            ("kind".to_owned(), Json::Str("prompt".to_owned())),
            ("text".to_owned(), Json::Str(e.display_text.clone())),
            ("position".to_owned(), Json::Int(position as i128)),
        ],
    )
}

/// Claim a parked row, newest first: rows whose id is listed again in `live`
/// are dropped, the first other row is claimed.
pub open spec fn promote_from(parked: Seq<EntryView>, live: Seq<EntryView>) -> (
    Seq<EntryView>,
    Option<EntryView>,
)
    decreases parked.len(),
{
    if parked.len() == 0 {
        (parked, None)
    } else if first_where(live, has_id(parked.last().id)) >= 0 {
        promote_from(parked.drop_last(), live)
    } else {
        (parked.drop_last(), Some(parked.last()))
    }
}

/// The ids of rows, in order.
pub open spec fn ids_of(s: Seq<EntryView>) -> Seq<Seq<char>> {
    s.map_values(|e: EntryView| e.id)
}

/// Reordering: each listed id in turn moves its first remaining row to the
/// output; ids without a row are skipped. Returns the output and what
/// remains.
pub open spec fn reorder_pass(rem: Seq<EntryView>, ids: Seq<Seq<char>>) -> (
    Seq<EntryView>,
    Seq<EntryView>,
)
    decreases ids.len(),
{
    if ids.len() == 0 {
        (Seq::empty(), rem)
    } else {
        let prior = reorder_pass(rem, ids.drop_last());
        let p = first_where(prior.1, has_id(ids.last()));
        if p >= 0 {
            (prior.0.push(prior.1[p]), prior.1.remove(p))
        } else {
            prior
        }
    }
}

/// The string elements of a JSON array, in order.
pub open spec fn string_items(items: Seq<Json>) -> Seq<Seq<char>>
    decreases items.len(),
{
    if items.len() == 0 {
        Seq::empty()
    } else {
        let r = string_items(items.drop_last());
        match items.last() {
            Json::Str(s) => r.push(s@),
            _ => r,
        }
    }
}

/// Every string of a JSON array; nothing for a missing or non-array value.
pub fn string_list(value: Option<&Json>) -> (r: Vec<String>)
    ensures
        crate::seq_util::strs(r@) == (match value {
            Some(Json::Array(items)) => string_items(items@),
            _ => Seq::empty(),
        }),
{
    let mut out: Vec<String> = Vec::new();
    match value {
        Some(Json::Array(items)) => {
            let mut i: usize = 0;
            while i < items.len()
                invariant
                    i <= items@.len(),
                    crate::seq_util::strs(out@) == string_items(items@.take(i as int)),
                decreases items@.len() - i,
            {
                proof {
                    assert(items@.take(i + 1).drop_last() =~= items@.take(i as int));
                }
                match &items[i] {
                    Json::Str(t) => {
                        out.push(t.clone());
                        proof {
                            assert(crate::seq_util::strs(out@) =~= string_items(
                                items@.take(i as int),
                            ).push(t@));
                        }
                    },
                    _ => {},
                }
                i = i + 1;
            }
            assert(items@.take(items@.len() as int) =~= items@);
        },
        _ => {},
    }
    assert(crate::seq_util::strs(out@) =~= crate::seq_util::strs(out@));
    out
}

/// The members of the `queue_changed` notification for `snapshot`.
pub open spec fn queue_params_ok(session_id: Seq<char>, snapshot: QueueSnapshot, r: Json) -> bool {
    match r {
        Json::Object(f) => {
            let base = 2int;
            let with_id = if snapshot.running_prompt_id is Some {
                base + 2
            } else {
                base
            };
            let total = if snapshot.running_text is Some {
                with_id + 1
            } else {
                with_id
            };
            &&& f@.len() == total
            &&& f@[0].0@ == "sessionId"@ && str_spec(Some(f@[0].1)) == Some(session_id)
            &&& f@[1].0@ == "entries"@ && f@[1].1 == Json::Array(snapshot.entries)
            &&& match snapshot.running_prompt_id {
                Some(id) => {
                    &&& f@[2].0@ == "runningPromptId"@ && f@[2].1 == Json::Str(id)
                    &&& f@[3].0@ == "runningKind"@ && str_spec(Some(f@[3].1)) == Some("prompt"@)
                },
                None => true,
            }
            &&& match snapshot.running_text {
                Some(t) => f@[with_id].0@ == "runningText"@ && f@[with_id].1 == Json::Str(t),
                None => true,
            }
        },
        _ => false,
    }
}

/// The `queue_changed` notification parameters for a snapshot.
pub fn queue_changed_params(session_id: &str, snapshot: QueueSnapshot) -> (r: Json)
    ensures
        queue_params_ok(session_id@, snapshot, r),
{
    let ghost snap = snapshot;
    let QueueSnapshot { entries, running_prompt_id, running_text, .. } = snapshot;
    let mut f: Vec<(String, Json)> = Vec::new();
    f.push(("sessionId".to_owned(), Json::Str(session_id.to_owned())));
    f.push(("entries".to_owned(), Json::Array(entries)));
    match running_prompt_id {
        Some(id) => {
            f.push(("runningPromptId".to_owned(), Json::Str(id)));
            f.push(("runningKind".to_owned(), Json::Str("prompt".to_owned())));
        },
        None => {},
    }
    match running_text {
        Some(t) => {
            f.push(("runningText".to_owned(), Json::Str(t)));
        },
        None => {},
    }
    Json::Object(f)
}

/// The adapter's mirror of both queues and of the running prompt.
#[derive(Debug)]
pub struct QueueMirror {
    local_entries: Vec<QueueEntry>,
    pi_entries: Vec<QueueEntry>,
    reserved: Vec<ReservedPrompt>,
    /// Pi-origin follow-ups that left Pi's queue while the running slot was
    /// owned by another prompt; promoted by `promote_parked_running`.
    parked: Vec<QueueEntry>,
    next_seq: u64,
    running: Option<QueueEntry>,
}

impl QueueMirror {
    /// Rows the adapter holds itself, oldest first.
    pub closed spec fn locals(&self) -> Seq<EntryView> {
        entry_views(self.local_entries@)
    }

    /// Rows mirrored from Pi's own queue arrays.
    pub closed spec fn pis(&self) -> Seq<EntryView> {
        entry_views(self.pi_entries@)
    }

    /// Prompts sent to Pi whose rows have not appeared yet.
    pub closed spec fn reservations(&self) -> Seq<ReservedView> {
        reserved_views(self.reserved@)
    }

    /// Follow-ups Pi started while the running slot was taken.
    pub closed spec fn parked_rows(&self) -> Seq<EntryView> {
        entry_views(self.parked@)
    }

    /// The counter behind generated ids.
    pub closed spec fn seq(&self) -> u64 {
        self.next_seq
    }

    /// The prompt that owns the running slot.
    pub closed spec fn running_row(&self) -> Option<EntryView> {
        match self.running {
            Some(e) => Some(e@),
            None => None,
        }
    }

    /// An empty mirror.
    pub fn new() -> (m: Self)
        ensures
            m.locals() == Seq::<EntryView>::empty(),
            m.pis() == Seq::<EntryView>::empty(),
            m.reservations() == Seq::<ReservedView>::empty(),
            m.parked_rows() == Seq::<EntryView>::empty(),
            m.seq() == 0,
            m.running_row() is None,
    {
        let m = QueueMirror {
            local_entries: Vec::new(),
            pi_entries: Vec::new(),
            reserved: Vec::new(),
            parked: Vec::new(),
            next_seq: 0,
            running: None,
        };
        assert(m.locals() =~= Seq::<EntryView>::empty());
        assert(m.pis() =~= Seq::<EntryView>::empty());
        assert(m.reservations() =~= Seq::<ReservedView>::empty());
        assert(m.parked_rows() =~= Seq::<EntryView>::empty());
        m
    }

    /// The next generated id with `prefix`.
    fn next_id(&mut self, prefix: &str) -> (r: String)
        ensures
            final(self).next_seq == next_seq_of(old(self).next_seq),
            r@ == generated_id(prefix@, final(self).next_seq),
            final(self).local_entries == old(self).local_entries,
            final(self).pi_entries == old(self).pi_entries,
            final(self).reserved == old(self).reserved,
            final(self).parked == old(self).parked,
            final(self).running == old(self).running,
    {
        self.next_seq = if self.next_seq == 0xffff_ffff_ffff_ffff {
            1
        } else {
            self.next_seq + 1
        };
        let mut id = prefix.to_owned();
        id.append("-");
        push_decimal(&mut id, self.next_seq);
        proof {
            reveal_strlit("-");
            assert(id@ =~= generated_id(prefix@, self.next_seq));
        }
        id
    }

    /// Queue a prompt locally, or update the local row that already has its id.
    /// A blank or missing id is replaced by a generated one. Returns the id.
    pub fn enqueue_local(
        &mut self,
        id: Option<String>,
        execution_text: String,
        display_text: String,
        images: Vec<Json>,
        lane: QueueLane,
        origin: QueueOrigin,
    ) -> (r: String)
        ensures
            final(self).seq() == (if provided_id(id) is Some {
                old(self).seq()
            } else {
                next_seq_of(old(self).seq())
            }),
            r@ == (match provided_id(id) {
                Some(s) => s,
                None => generated_id(origin_prefix(origin), final(self).seq()),
            }),
            final(self).locals() == enqueued(
                old(self).locals(),
                r@,
                execution_text@,
                display_text@,
                images@,
                lane,
                origin,
            ),
            final(self).pis() == old(self).pis(),
            final(self).reservations() == old(self).reservations(),
            final(self).parked_rows() == old(self).parked_rows(),
            final(self).running_row() == old(self).running_row(),
    {
        let id = match id {
            Some(s) => if trim(s.as_str()).unicode_len() > 0 {
                s
            } else {
                self.next_id(origin_prefix_str(origin))
            },
            None => self.next_id(origin_prefix_str(origin)),
        };
        match self.find_local(id.as_str()) {
            Some(p) => {
                let mut e = self.local_entries.remove(p);
                e.execution_text = execution_text;
                e.display_text = display_text;
                e.images = images;
                e.lane = lane;
                e.origin = origin;
                self.local_entries.insert(p, e);
                proof {
                    assert(self.locals() =~= enqueued(
                        old(self).locals(),
                        id@,
                        execution_text@,
                        display_text@,
                        images@,
                        lane,
                        origin,
                    ));
                }
            },
            None => {
                let copy = id.clone();
                self.local_entries.push(
                    QueueEntry {
                        id: copy,
                        execution_text,
                        display_text,
                        images,
                        version: 0,
                        lane,
                        origin,
                    },
                );
                proof {
                    assert(self.locals() =~= enqueued(
                        old(self).locals(),
                        id@,
                        execution_text@,
                        display_text@,
                        images@,
                        lane,
                        origin,
                    ));
                }
            },
        }
        id
    }

    /// Remove and return the first local row with `id`, provided its version
    /// is `expected_version` when one is given.
    pub fn take_local(&mut self, id: &str, expected_version: Option<u64>) -> (r: Option<
        QueueEntry,
    >)
        ensures
            ({
                let p = first_where(old(self).locals(), takeable(id@, expected_version));
                if p >= 0 {
                    &&& r matches Some(e) && e@ == old(self).locals()[p]
                    &&& final(self).locals() == old(self).locals().remove(p)
                } else {
                    &&& r is None
                    &&& final(self).locals() == old(self).locals()
                }
            }),
            final(self).pis() == old(self).pis(),
            final(self).reservations() == old(self).reservations(),
            final(self).parked_rows() == old(self).parked_rows(),
            final(self).seq() == old(self).seq(),
            final(self).running_row() == old(self).running_row(),
    {
        let n = self.local_entries.len();
        let mut i: usize = 0;
        while i < n
            invariant
                n == self.local_entries@.len(),
                i <= n,
                *self == *old(self),
                forall|j: int|
                    0 <= j < i ==> !takeable(id@, expected_version)(#[trigger] self.locals()[j]),
            decreases n - i,
        {
            let version_ok = match expected_version {
                Some(v) => v == self.local_entries[i].version,
                None => true,
            };
            if version_ok && str_eq(self.local_entries[i].id.as_str(), id) {
                proof {
                    lemma_first_where_at(self.locals(), takeable(id@, expected_version), i as int);
                }
                let e = self.local_entries.remove(i);
                proof {
                    assert(self.locals() =~= old(self).locals().remove(i as int));
                }
                return Some(e);
            }
            i = i + 1;
        }
        proof {
            lemma_first_where_none(self.locals(), takeable(id@, expected_version));
        }
        None
    }

    /// Remove and return the oldest local row.
    pub fn pop_next_local(&mut self) -> (r: Option<QueueEntry>)
        ensures
            old(self).locals().len() == 0 ==> r is None && final(self).locals() == old(self).locals(),
            old(self).locals().len() > 0 ==> (r matches Some(e) && e@ == old(self).locals()[0]
                && final(self).locals() == old(self).locals().drop_first()),
            final(self).pis() == old(self).pis(),
            final(self).reservations() == old(self).reservations(),
            final(self).parked_rows() == old(self).parked_rows(),
            final(self).seq() == old(self).seq(),
            final(self).running_row() == old(self).running_row(),
    {
        if self.local_entries.len() == 0 {
            return None;
        }
        let e = self.local_entries.remove(0);
        assert(self.locals() =~= old(self).locals().drop_first());
        Some(e)
    }

    /// Oldest pending local row in `lane`, as `(id, version)` for an atomic
    /// `take_local`.
    pub fn next_local_in_lane(&self, lane: QueueLane) -> (r: Option<(String, u64)>)
        ensures
            ({
                let p = first_where(self.locals(), in_lane(lane));
                if p >= 0 {
                    (r matches Some((id, v)) && id@ == self.locals()[p].id && v
                        == self.locals()[p].version)
                } else {
                    r is None
                }
            }),
    {
        let n = self.local_entries.len();
        let mut i: usize = 0;
        while i < n
            invariant
                n == self.local_entries@.len(),
                i <= n,
                forall|j: int| 0 <= j < i ==> !in_lane(lane)(#[trigger] self.locals()[j]),
            decreases n - i,
        {
            if self.local_entries[i].lane == lane {
                proof {
                    lemma_first_where_at(self.locals(), in_lane(lane), i as int);
                }
                return Some((self.local_entries[i].id.clone(), self.local_entries[i].version));
            }
            i = i + 1;
        }
        proof {
            lemma_first_where_none(self.locals(), in_lane(lane));
        }
        None
    }

    /// Put `entry` back at the head of the local queue, dropping any other
    /// row with its id.
    pub fn push_front_local(&mut self, entry: QueueEntry)
        ensures
            final(self).locals() == seq![entry@] + keep_where(old(self).locals(), other_id(entry.id@)),
            final(self).pis() == old(self).pis(),
            final(self).reservations() == old(self).reservations(),
            final(self).parked_rows() == old(self).parked_rows(),
            final(self).seq() == old(self).seq(),
            final(self).running_row() == old(self).running_row(),
    {
        let mut current: Vec<QueueEntry> = Vec::new();
        std::mem::swap(&mut current, &mut self.local_entries);
        let mut kept = retain_other_id(current, entry.id.as_str());
        kept.insert(0, entry);
        self.local_entries = kept;
        assert(self.locals() =~= seq![entry@] + keep_where(old(self).locals(), other_id(entry.id@)));
    }

    /// Replace both texts of the first local row with `id` and bump its
    /// version. Returns whether such a row exists.
    pub fn edit_local(&mut self, id: &str, new_text: String) -> (r: bool)
        ensures
            ({
                let p = first_where(old(self).locals(), has_id(id@));
                &&& r == (p >= 0)
                &&& p >= 0 ==> final(self).locals() == edited(old(self).locals(), p, new_text@)
                &&& p >= 0 ==> edit_changes_only_texts(
                    old(self).locals(),
                    final(self).locals(),
                    p,
                    new_text@,
                )
                &&& p < 0 ==> final(self).locals() == old(self).locals()
            }),
            final(self).pis() == old(self).pis(),
            final(self).reservations() == old(self).reservations(),
            final(self).parked_rows() == old(self).parked_rows(),
            final(self).seq() == old(self).seq(),
            final(self).running_row() == old(self).running_row(),
    {
        match self.find_local(id) {
            None => false,
            Some(p) => {
                let mut e = self.local_entries.remove(p);
                e.execution_text = new_text.clone();
                e.display_text = new_text;
                e.version = if e.version == 0xffff_ffff_ffff_ffff {
                    0
                } else {
                    e.version + 1
                };
                self.local_entries.insert(p, e);
                assert(self.locals() =~= edited(old(self).locals(), p as int, new_text@));
                proof {
                    lemma_edit_changes_only_texts(old(self).locals(), p as int, new_text@);
                }
                true
            },
        }
    }

    /// Remove and return every local row.
    pub fn clear_local(&mut self) -> (r: Vec<QueueEntry>)
        ensures
            entry_views(r@) == old(self).locals(),
            final(self).locals() == Seq::<EntryView>::empty(),
            final(self).pis() == old(self).pis(),
            final(self).reservations() == old(self).reservations(),
            final(self).parked_rows() == old(self).parked_rows(),
            final(self).seq() == old(self).seq(),
            final(self).running_row() == old(self).running_row(),
    {
        let mut taken: Vec<QueueEntry> = Vec::new();
        std::mem::swap(&mut taken, &mut self.local_entries);
        assert(self.locals() =~= Seq::<EntryView>::empty());
        taken
    }

    /// Remember a prompt sent to Pi so its queue row keeps this id and display
    /// text. A blank id is ignored; an earlier reservation with the id is
    /// replaced.
    pub fn reserve(
        &mut self,
        id: String,
        execution_text: String,
        display_text: String,
        images: Vec<Json>,
        lane: QueueLane,
        origin: QueueOrigin,
    )
        ensures
            trim_seq(id@).len() == 0 ==> final(self).reservations() == old(self).reservations(),
            trim_seq(id@).len() > 0 ==> final(self).reservations() == keep_where(
                old(self).reservations(),
                reserved_other_id(id@),
            ).push(
                ReservedView {
                    id: id@,
                    execution_text: execution_text@,
                    display_text: display_text@,
                    images: images@,
                    lane,
                    origin,
                },
            ),
            final(self).locals() == old(self).locals(),
            final(self).pis() == old(self).pis(),
            final(self).parked_rows() == old(self).parked_rows(),
            final(self).seq() == old(self).seq(),
            final(self).running_row() == old(self).running_row(),
    {
        if trim(id.as_str()).unicode_len() == 0 {
            return ;
        }
        let mut current: Vec<ReservedPrompt> = Vec::new();
        std::mem::swap(&mut current, &mut self.reserved);
        let mut kept = retain_other_reserved(current, id.as_str());
        kept.push(ReservedPrompt { id, execution_text, display_text, images, lane, origin });
        self.reserved = kept;
        assert(self.reservations() =~= keep_where(
            old(self).reservations(),
            reserved_other_id(id@),
        ).push(
            ReservedView {
                id: id@,
                execution_text: execution_text@,
                display_text: display_text@,
                images: images@,
                lane,
                origin,
            },
        ));
    }

    /// Forget the reservation with `id`.
    pub fn release_reservation(&mut self, id: &str)
        ensures
            final(self).reservations() == keep_where(old(self).reservations(), reserved_other_id(id@)),
            final(self).locals() == old(self).locals(),
            final(self).pis() == old(self).pis(),
            final(self).parked_rows() == old(self).parked_rows(),
            final(self).seq() == old(self).seq(),
            final(self).running_row() == old(self).running_row(),
    {
        let mut current: Vec<ReservedPrompt> = Vec::new();
        std::mem::swap(&mut current, &mut self.reserved);
        self.reserved = retain_other_reserved(current, id);
    }

    /// Give the running slot to `entry`.
    pub fn set_running(&mut self, entry: QueueEntry)
        ensures
            final(self).running_row() == Some(entry@),
            final(self).locals() == old(self).locals(),
            final(self).pis() == old(self).pis(),
            final(self).reservations() == old(self).reservations(),
            final(self).parked_rows() == old(self).parked_rows(),
            final(self).seq() == old(self).seq(),
    {
        self.running = Some(entry);
    }

    /// Give the running slot to the prompt the client itself sent. A blank id
    /// is ignored.
    pub fn set_running_primary(
        &mut self,
        id: String,
        execution_text: String,
        display_text: String,
        images: Vec<Json>,
        origin: QueueOrigin,
    )
        ensures
            trim_seq(id@).len() == 0 ==> final(self).running_row() == old(self).running_row(),
            trim_seq(id@).len() > 0 ==> final(self).running_row() == Some(
                EntryView {
                    id: id@,
                    execution_text: execution_text@,
                    display_text: display_text@,
                    images: images@,
                    version: 0,
                    lane: QueueLane::FollowUp,
                    origin,
                },
            ),
            final(self).locals() == old(self).locals(),
            final(self).pis() == old(self).pis(),
            final(self).reservations() == old(self).reservations(),
            final(self).parked_rows() == old(self).parked_rows(),
            final(self).seq() == old(self).seq(),
    {
        if trim(id.as_str()).unicode_len() == 0 {
            return ;
        }
        self.running = Some(
            QueueEntry {
                id,
                execution_text,
                display_text,
                images,
                version: 0,
                lane: QueueLane::FollowUp,
                origin,
            },
        );
    }

    /// The prompt in the running slot.
    pub fn running(&self) -> (r: Option<&QueueEntry>)
        ensures
            match r {
                Some(e) => self.running_row() == Some(e@),
                None => self.running_row() is None,
            },
    {
        self.running.as_ref()
    }

    /// Free the running slot and drop every reservation; returns what ran.
    pub fn clear_running(&mut self) -> (r: Option<QueueEntry>)
        ensures
            match r {
                Some(e) => old(self).running_row() == Some(e@),
                None => old(self).running_row() is None,
            },
            final(self).running_row() is None,
            final(self).reservations() == Seq::<ReservedView>::empty(),
            final(self).locals() == old(self).locals(),
            final(self).pis() == old(self).pis(),
            final(self).parked_rows() == old(self).parked_rows(),
            final(self).seq() == old(self).seq(),
    {
        self.reserved = Vec::new();
        assert(self.reservations() =~= Seq::<ReservedView>::empty());
        let mut taken: Option<QueueEntry> = None;
        std::mem::swap(&mut taken, &mut self.running);
        taken
    }

    /// The local rows, oldest first.
    pub fn local_entries(&self) -> (r: &Vec<QueueEntry>)
        ensures
            entry_views(r@) == self.locals(),
    {
        &self.local_entries
    }

    /// The rows mirrored from Pi.
    pub fn pi_entries(&self) -> (r: &Vec<QueueEntry>)
        ensures
            entry_views(r@) == self.pis(),
    {
        &self.pi_entries
    }

    /// The listing the pager shows: Pi's rows then the local rows, the
    /// running prompt, and the lane counts.
    pub fn snapshot(&self) -> (r: QueueSnapshot)
        ensures
            snapshot_of(self.pis() + self.locals(), self.parked_rows(), self.running_row(), r),
    {
        let ghost rows = self.pis() + self.locals();
        let ghost np = self.pis().len();
        let mut entries: Vec<Json> = Vec::new();
        let mut steering: usize = 0;
        let mut i: usize = 0;
        while i < self.pi_entries.len()
            invariant
                rows == self.pis() + self.locals(),
                np == self.pi_entries@.len(),
                i <= np,
                entries@.len() == i,
                forall|j: int| 0 <= j < i ==> is_row(#[trigger] entries@[j], rows[j], j),
                steering == count_lane(rows.take(i as int), QueueLane::Steering),
            decreases np - i,
        {
            let e = &self.pi_entries[i];
            proof {
                assert(rows[i as int] == e@);
                assert(rows.take(i + 1).drop_last() =~= rows.take(i as int));
                lemma_count_lane_le(rows.take(i as int), QueueLane::Steering);
            }
            entries.push(row_json(e, i));
            if e.lane == QueueLane::Steering {
                steering = steering + 1;
            }
            i = i + 1;
        }
        let mut k: usize = 0;
        while k < self.local_entries.len()
            invariant
                rows == self.pis() + self.locals(),
                np == self.pi_entries@.len(),
                k <= self.local_entries@.len(),
                entries@.len() == np + k,
                forall|j: int| 0 <= j < np + k ==> is_row(#[trigger] entries@[j], rows[j], j),
                steering == count_lane(rows.take(np + k), QueueLane::Steering),
            decreases self.local_entries@.len() - k,
        {
            let e = &self.local_entries[k];
            let pos = entries.len();
            proof {
                assert(rows[np + k] == e@);
                assert(rows.take(np + k + 1).drop_last() =~= rows.take(np + k));
                lemma_count_lane_le(rows.take(np + k), QueueLane::Steering);
            }
            entries.push(row_json(e, pos));
            let listed_now = entries.len();
            assert(listed_now == np + k + 1);
            if e.lane == QueueLane::Steering {
                steering = steering + 1;
            }
            k = k + 1;
        }
        assert(rows.take(rows.len() as int) =~= rows);
        proof {
            lemma_count_lane_le(rows, QueueLane::Steering);
        }
        let listed = entries.len();
        let total: u128 = listed as u128 + self.parked.len() as u128;
        let pending: u128 = total - steering as u128;
        let follow_up_count: usize = if pending > 0xffff_ffff_ffff_ffff_u128 || pending
            > usize::MAX as u128 {
            usize::MAX
        } else {
            pending as usize
        };
        let (running_prompt_id, running_text) = match &self.running {
            Some(e) => (Some(e.id.clone()), Some(e.display_text.clone())),
            None => (None, None),
        };
        QueueSnapshot {
            entries,
            running_prompt_id,
            running_text,
            steering_count: steering,
            follow_up_count,
        }
    }

    /// Match one row of Pi's queue (`step_state`), taking the earlier row out
    /// of `slots` or the reservation out of the mirror, and push it on `next`.
    fn apply_one(
        &mut self,
        slots: &mut Vec<Option<QueueEntry>>,
        next: &mut Vec<QueueEntry>,
        text: &String,
        lane: QueueLane,
        Ghost(prev): Ghost<Seq<EntryView>>,
    )
        requires
            old(slots)@.len() == prev.len(),
            forall|k: int| 0 <= k < prev.len() ==> slot_holds(#[trigger] old(slots)@[k], prev[k]),
        ensures
            final(slots)@.len() == prev.len(),
            forall|k: int| 0 <= k < prev.len() ==> slot_holds(#[trigger] final(slots)@[k], prev[k]),
            ({
                let st = step_state(
                    prev,
                    UpdateState {
                        used: used_of(old(slots)@),
                        reserved: old(self).reservations(),
                        seq: old(self).seq(),
                        next: entry_views(old(next)@),
                    },
                    text@,
                    lane,
                );
                &&& used_of(final(slots)@) == st.used
                &&& final(self).reservations() == st.reserved
                &&& final(self).seq() == st.seq
                &&& entry_views(final(next)@) == st.next
            }),
            final(self).locals() == old(self).locals(),
            final(self).parked_rows() == old(self).parked_rows(),
            final(self).running_row() == old(self).running_row(),
    {
        let ghost used = used_of(slots@);
        let ghost z = zip_used(used, prev);
        let n = slots.len();
        let mut k: usize = 0;
        while k < n
            invariant
                n == slots@.len(),
                n == prev.len(),
                k <= n,
                *slots == *old(slots),
                *self == *old(self),
                *next == *old(next),
                used == used_of(slots@),
                z == zip_used(used, prev),
                forall|j: int| 0 <= j < n ==> slot_holds(#[trigger] slots@[j], prev[j]),
                forall|j: int| 0 <= j < k ==> !unused_match(text@, lane)(#[trigger] z[j]),
            decreases n - k,
        {
            let hit = match &slots[k] {
                Some(e) => e.lane == lane && str_eq(e.execution_text.as_str(), text.as_str()),
                None => false,
            };
            proof {
                assert(z[k as int] == (used[k as int], prev[k as int]));
                assert(slot_holds(slots@[k as int], prev[k as int]));
            }
            if hit {
                proof {
                    lemma_first_where_at(z, unused_match(text@, lane), k as int);
                }
                let taken = slots.remove(k);
                slots.insert(k, None);
                match taken {
                    Some(e) => {
                        next.push(e);
                    },
                    None => {},
                }
                proof {
                    assert(used_of(slots@) =~= used.update(k as int, true));
                    assert(entry_views(next@) =~= entry_views(old(next)@).push(prev[k as int]));
                    assert forall|j: int| 0 <= j < n implies slot_holds(
                        #[trigger] slots@[j],
                        prev[j],
                    ) by {
                        if j != k {
                            assert(slots@[j] == old(slots)@[j]);
                        }
                    }
                }
                return ;
            }
            k = k + 1;
        }
        proof {
            lemma_first_where_none(z, unused_match(text@, lane));
        }
        let chosen: Option<usize> = match find_reserved(&self.reserved, text.as_str(), lane, true) {
            Some(x) => Some(x),
            None => find_reserved(&self.reserved, text.as_str(), lane, false),
        };
        match chosen {
            Some(x) => {
                let res = self.reserved.remove(x);
                proof {
                    assert(res@ == old(self).reservations()[x as int]);
                    assert(self.reservations() =~= old(self).reservations().remove(x as int));
                }
                next.push(
                    QueueEntry {
                        id: res.id,
                        execution_text: text.clone(),
                        display_text: res.display_text,
                        images: res.images,
                        version: 0,
                        lane,
                        origin: res.origin,
                    },
                );
                proof {
                    assert(entry_views(next@) =~= entry_views(old(next)@).push(
                        EntryView {
                            id: res@.id,
                            execution_text: text@,
                            display_text: res@.display_text,
                            images: res@.images,
                            version: 0,
                            lane,
                            origin: res@.origin,
                        },
                    ));
                }
            },
            None => {
                let id = self.next_id("pi-queue");
                let images: Vec<Json> = Vec::new();
                next.push(
                    QueueEntry {
                        id,
                        execution_text: text.clone(),
                        display_text: text.clone(),
                        images,
                        version: 0,
                        lane,
                        origin: QueueOrigin::Pi,
                    },
                );
                proof {
                    assert(images@ =~= Seq::<Json>::empty());
                    assert(entry_views(next@) =~= entry_views(old(next)@).push(
                        EntryView {
                            id: generated_id("pi-queue"@, self.next_seq),
                            execution_text: text@,
                            display_text: text@,
                            images: Seq::empty(),
                            version: 0,
                            lane,
                            origin: QueueOrigin::Pi,
                        },
                    ));
                }
            },
        }
    }

    /// Mirror Pi's queue arrays. Rows Pi still lists keep their identity;
    /// new rows adopt a reservation or get a `pi-queue` id; reservations a
    /// row took are released. Follow-ups that left Pi's arrays have started
    /// in Pi: the first takes the running slot only when it is free, the
    /// rest are parked. Local rows are never touched.
    pub fn apply_queue_update(&mut self, steering: &[String], follow_up: &[String]) -> (r:
        QueueSnapshot)
        ensures
            ({
                let prev = old(self).pis();
                let st = fold_states(
                    prev,
                    initial_state(prev, old(self).reservations(), old(self).seq()),
                    desired_items(steering@, follow_up@),
                );
                let left = leftover_follow_ups(prev, st.used, prev.len() as int);
                &&& final(self).pis() == st.next
                &&& final(self).seq() == st.seq
                &&& final(self).reservations() == keep_where(st.reserved, not_listed(st.next))
                &&& final(self).locals() == old(self).locals()
                &&& if old(self).running_row() is None && left.len() > 0 {
                    &&& final(self).running_row() == Some(left[0])
                    &&& final(self).parked_rows() == old(self).parked_rows() + left.drop_first()
                } else {
                    &&& final(self).running_row() == old(self).running_row()
                    &&& final(self).parked_rows() == old(self).parked_rows() + left
                }
            }),
            snapshot_of(
                final(self).pis() + final(self).locals(),
                final(self).parked_rows(),
                final(self).running_row(),
                r,
            ),
    {
        let mut prev: Vec<QueueEntry> = Vec::new();
        std::mem::swap(&mut prev, &mut self.pi_entries);
        let ghost prevv = entry_views(prev@);
        let ghost n = prevv.len();
        let ghost items = desired_items(steering@, follow_up@);
        let ghost init = initial_state(prevv, old(self).reservations(), old(self).seq());
        // Move the earlier rows into slots that can be emptied one by one.
        let mut slots: Vec<Option<QueueEntry>> = Vec::new();
        let ghost mut moved: int = 0;
        while prev.len() > 0
            invariant
                0 <= moved <= n,
                n == prevv.len(),
                entry_views(prev@) =~= prevv.subrange(moved, n as int),
                slots@.len() == moved,
                forall|j: int| 0 <= j < moved ==> (#[trigger] slots@[j] matches Some(e) && e@ == prevv[j]),
            decreases prev.len(),
        {
            proof {
                assert(entry_views(prev@).len() == prev@.len());
                assert(prevv.subrange(moved, n as int).len() == n - moved);
                assert(prev@[0]@ == prevv[moved]) by {
                    assert(entry_views(prev@)[0] == prevv.subrange(moved, n as int)[0]);
                }
            }
            let ghost before = entry_views(prev@);
            let e = prev.remove(0);
            slots.push(Some(e));
            proof {
                assert(entry_views(prev@) =~= before.drop_first());
                assert(before.drop_first() =~= prevv.subrange(moved + 1, n as int));
                moved = moved + 1;
            }
        }
        proof {
            assert(used_of(slots@) =~= init.used);
            assert(items.take(0) =~= Seq::<(Seq<char>, QueueLane)>::empty());
        }
        let mut next: Vec<QueueEntry> = Vec::new();
        assert(entry_views(next@) =~= Seq::<EntryView>::empty());
        let ns = steering.len();
        let mut i: usize = 0;
        while i < ns
            invariant
                ns == steering@.len(),
                i <= ns,
                items == desired_items(steering@, follow_up@),
                init == initial_state(prevv, old(self).reservations(), old(self).seq()),
                slots@.len() == n,
                n == prevv.len(),
                forall|k: int| 0 <= k < n ==> slot_holds(#[trigger] slots@[k], prevv[k]),
                ({
                    let st = fold_states(prevv, init, items.take(i as int));
                    &&& used_of(slots@) == st.used
                    &&& self.reservations() == st.reserved
                    &&& self.seq() == st.seq
                    &&& entry_views(next@) == st.next
                }),
                self.locals() == old(self).locals(),
                self.parked_rows() == old(self).parked_rows(),
                self.running_row() == old(self).running_row(),
            decreases ns - i,
        {
            self.apply_one(&mut slots, &mut next, &steering[i], QueueLane::Steering, Ghost(prevv));
            proof {
                assert(items.take(i + 1).drop_last() =~= items.take(i as int));
                assert(items[i as int] == (steering@[i as int]@, QueueLane::Steering));
            }
            i = i + 1;
        }
        let nf = follow_up.len();
        let mut f: usize = 0;
        while f < nf
            invariant
                ns == steering@.len(),
                nf == follow_up@.len(),
                f <= nf,
                items == desired_items(steering@, follow_up@),
                items.len() == ns + nf,
                init == initial_state(prevv, old(self).reservations(), old(self).seq()),
                slots@.len() == n,
                n == prevv.len(),
                forall|k: int| 0 <= k < n ==> slot_holds(#[trigger] slots@[k], prevv[k]),
                ({
                    let st = fold_states(prevv, init, items.take(ns + f));
                    &&& used_of(slots@) == st.used
                    &&& self.reservations() == st.reserved
                    &&& self.seq() == st.seq
                    &&& entry_views(next@) == st.next
                }),
                self.locals() == old(self).locals(),
                self.parked_rows() == old(self).parked_rows(),
                self.running_row() == old(self).running_row(),
            decreases nf - f,
        {
            self.apply_one(&mut slots, &mut next, &follow_up[f], QueueLane::FollowUp, Ghost(prevv));
            proof {
                assert(items.take(ns + f + 1).drop_last() =~= items.take(ns + f));
                assert(items[ns + f] == (follow_up@[f as int]@, QueueLane::FollowUp));
            }
            f = f + 1;
        }
        let ghost st = fold_states(prevv, init, items);
        assert(items.take(ns + nf) =~= items);
        let ghost used = st.used;
        proof {
            assert forall|k: int| 0 <= k < n implies (#[trigger] slots@[k] is None) == used[k] by {
                assert(used_of(slots@)[k] == (slots@[k] is None));
            }
        }
        // Release the reservations that a listed row took.
        let mut pending: Vec<ReservedPrompt> = Vec::new();
        std::mem::swap(&mut pending, &mut self.reserved);
        let ghost resv = reserved_views(pending@);
        let ghost nr = resv.len();
        let mut kept: Vec<ReservedPrompt> = Vec::new();
        let ghost mut done: int = 0;
        assert(resv.take(0) =~= Seq::<ReservedView>::empty());
        assert(reserved_views(kept@) =~= Seq::<ReservedView>::empty());
        while pending.len() > 0
            invariant
                0 <= done <= nr,
                nr == resv.len(),
                reserved_views(pending@) =~= resv.subrange(done, nr as int),
                reserved_views(kept@) == keep_where(resv.take(done), not_listed(st.next)),
                entry_views(next@) == st.next,
            decreases pending.len(),
        {
            proof {
                assert(reserved_views(pending@).len() == pending@.len());
                assert(resv.subrange(done, nr as int).len() == nr - done);
                assert(pending@[0]@ == resv[done]) by {
                    assert(reserved_views(pending@)[0] == resv.subrange(done, nr as int)[0]);
                }
            }
            let ghost before = reserved_views(pending@);
            let item = pending.remove(0);
            proof {
                assert(reserved_views(pending@) =~= before.drop_first());
                assert(before.drop_first() =~= resv.subrange(done + 1, nr as int));
                assert(resv.take(done + 1) =~= resv.take(done).push(resv[done]));
                lemma_keep_where_push(resv.take(done), not_listed(st.next), resv[done]);
            }
            if find_id(&next, item.id.as_str()).is_none() {
                kept.push(item);
                proof {
                    assert(reserved_views(kept@) =~= keep_where(resv.take(done), not_listed(st.next)).push(
                        resv[done],
                    ));
                }
            }
            proof {
                done = done + 1;
            }
        }
        assert(resv.take(nr as int) =~= resv);
        self.reserved = kept;
        // Follow-ups that left Pi's arrays, in their old order.
        let mut dequeued: Vec<QueueEntry> = Vec::new();
        let ghost mut seen: int = 0;
        assert(entry_views(dequeued@) =~= Seq::<EntryView>::empty());
        while slots.len() > 0
            invariant
                0 <= seen <= n,
                n == prevv.len(),
                used.len() == n,
                slots@.len() == n - seen,
                forall|k: int|
                    0 <= k < n - seen ==> slot_holds(#[trigger] slots@[k], prevv[seen + k]) && (
                    slots@[k] is None) == used[seen + k],
                entry_views(dequeued@) == leftover_follow_ups(prevv, used, seen),
            decreases slots.len(),
        {
            proof {
                assert(slot_holds(slots@[0], prevv[seen]));
                assert((slots@[0] is None) == used[seen]);
            }
            let ghost sbefore = slots@;
            let o = slots.remove(0);
            match o {
                Some(e) => {
                    if e.lane == QueueLane::FollowUp {
                        dequeued.push(e);
                    }
                },
                None => {},
            }
            proof {
                assert forall|k: int| 0 <= k < n - (seen + 1) implies slot_holds(
                    #[trigger] slots@[k],
                    prevv[seen + 1 + k],
                ) && (slots@[k] is None) == used[seen + 1 + k] by {
                    assert(slots@[k] == sbefore[k + 1]);
                }
                assert(entry_views(dequeued@) =~= leftover_follow_ups(prevv, used, seen + 1));
                seen = seen + 1;
            }
        }
        if self.running.is_none() && dequeued.len() > 0 {
            let first = dequeued.remove(0);
            self.running = Some(first);
        }
        self.parked.append(&mut dequeued);
        self.pi_entries = next;
        self.snapshot()
    }

    /// Claim a parked Pi follow-up as running at a turn boundary, when no
    /// prompt owns the slot. Parked rows Pi or the adapter lists again are
    /// dropped. Returns whether a row was claimed.
    pub fn promote_parked_running(&mut self) -> (r: bool)
        ensures
            old(self).running_row() is Some ==> !r && *final(self) == *old(self),
            old(self).running_row() is None ==> ({
                let out = promote_from(old(self).parked_rows(), old(self).pis() + old(self).locals());
                &&& final(self).parked_rows() == out.0
                &&& final(self).running_row() == out.1
                &&& r == out.1 is Some
            }),
            final(self).locals() == old(self).locals(),
            final(self).pis() == old(self).pis(),
            final(self).reservations() == old(self).reservations(),
            final(self).seq() == old(self).seq(),
    {
        if self.running.is_some() {
            return false;
        }
        let ghost live = self.pis() + self.locals();
        while self.parked.len() > 0
            invariant
                live == old(self).pis() + old(self).locals(),
                self.running is None,
                old(self).running is None,
                promote_from(self.parked_rows(), live) == promote_from(old(self).parked_rows(), live),
                self.locals() == old(self).locals(),
                self.pis() == old(self).pis(),
                self.reservations() == old(self).reservations(),
                self.seq() == old(self).seq(),
            decreases self.parked@.len(),
        {
            let ghost before = self.parked_rows();
            let entry = match self.parked.pop() {
                Some(e) => e,
                None => {
                    return false;
                },
            };
            proof {
                assert(entry@ == before.last());
                assert(self.parked_rows() =~= before.drop_last());
            }
            let in_pi = find_id(&self.pi_entries, entry.id.as_str()).is_some();
            let in_local = find_id(&self.local_entries, entry.id.as_str()).is_some();
            proof {
                lemma_first_where_props(self.pis(), has_id(entry@.id));
                lemma_first_where_props(self.locals(), has_id(entry@.id));
                lemma_first_where_props(live, has_id(entry@.id));
                let p = first_where(live, has_id(entry@.id));
                if in_pi {
                    let q = first_where(self.pis(), has_id(entry@.id));
                    assert(live[q] == self.pis()[q]);
                } else if in_local {
                    let q = first_where(self.locals(), has_id(entry@.id));
                    assert(live[self.pis().len() + q] == self.locals()[q]);
                } else if p >= 0 {
                    if p < self.pis().len() {
                        assert(live[p] == self.pis()[p]);
                    } else {
                        assert(live[p] == self.locals()[p - self.pis().len()]);
                    }
                }
            }
            if in_pi || in_local {
                continue;
            }
            self.running = Some(entry);
            return true;
        }
        false
    }

    /// Empty every queue, the reservations and the running slot.
    pub fn clear(&mut self) -> (r: QueueSnapshot)
        ensures
            final(self).locals() == Seq::<EntryView>::empty(),
            final(self).pis() == Seq::<EntryView>::empty(),
            final(self).reservations() == Seq::<ReservedView>::empty(),
            final(self).parked_rows() == Seq::<EntryView>::empty(),
            final(self).running_row() is None,
            final(self).seq() == old(self).seq(),
            snapshot_of(Seq::empty(), Seq::empty(), None, r),
    {
        self.local_entries = Vec::new();
        self.pi_entries = Vec::new();
        self.reserved = Vec::new();
        self.parked = Vec::new();
        self.running = None;
        assert(self.locals() =~= Seq::<EntryView>::empty());
        assert(self.pis() =~= Seq::<EntryView>::empty());
        assert(self.reservations() =~= Seq::<ReservedView>::empty());
        assert(self.parked_rows() =~= Seq::<EntryView>::empty());
        assert(self.pis() + self.locals() =~= Seq::<EntryView>::empty());
        self.snapshot()
    }

    /// Reorder the local rows after `ordered_ids` (unlisted rows keep their
    /// order at the end). Fewer than two rows are left alone. Returns whether
    /// the order of ids changed.
    pub fn reorder_local(&mut self, ordered_ids: &[String]) -> (r: bool)
        ensures
            old(self).locals().len() < 2 ==> !r && final(self).locals() == old(self).locals(),
            old(self).locals().len() >= 2 ==> ({
                let out = reorder_pass(old(self).locals(), crate::seq_util::strs(ordered_ids@));
                &&& final(self).locals() == out.0 + out.1
                &&& r == (ids_of(old(self).locals()) != ids_of(final(self).locals()))
            }),
            final(self).pis() == old(self).pis(),
            final(self).reservations() == old(self).reservations(),
            final(self).parked_rows() == old(self).parked_rows(),
            final(self).seq() == old(self).seq(),
            final(self).running_row() == old(self).running_row(),
    {
        if self.local_entries.len() < 2 {
            return false;
        }
        let ghost ids = crate::seq_util::strs(ordered_ids@);
        let before_ids = id_list(&self.local_entries);
        let mut remaining: Vec<QueueEntry> = Vec::new();
        std::mem::swap(&mut remaining, &mut self.local_entries);
        let ghost orig = entry_views(remaining@);
        let mut reordered: Vec<QueueEntry> = Vec::new();
        let mut i: usize = 0;
        assert(ids.take(0) =~= Seq::<Seq<char>>::empty());
        assert(entry_views(reordered@) =~= Seq::<EntryView>::empty());
        while i < ordered_ids.len()
            invariant
                i <= ordered_ids@.len(),
                ids == crate::seq_util::strs(ordered_ids@),
                orig == old(self).locals(),
                ({
                    let st = reorder_pass(orig, ids.take(i as int));
                    entry_views(reordered@) == st.0 && entry_views(remaining@) == st.1
                }),
                self.pis() == old(self).pis(),
                self.reservations() == old(self).reservations(),
                self.parked_rows() == old(self).parked_rows(),
                self.seq() == old(self).seq(),
                self.running_row() == old(self).running_row(),
            decreases ordered_ids@.len() - i,
        {
            proof {
                assert(ids.take(i + 1).drop_last() =~= ids.take(i as int));
                assert(ids.take(i + 1).last() == ordered_ids@[i as int]@);
            }
            match find_id(&remaining, ordered_ids[i].as_str()) {
                Some(p) => {
                    let ghost before = entry_views(remaining@);
                    let e = remaining.remove(p);
                    reordered.push(e);
                    proof {
                        assert(entry_views(remaining@) =~= before.remove(p as int));
                        assert(e@ == before[p as int]);
                    }
                },
                None => {},
            }
            i = i + 1;
        }
        assert(ids.take(ordered_ids@.len() as int) =~= ids);
        let ghost out = reorder_pass(orig, ids);
        let ghost out_front = entry_views(reordered@);
        let ghost out_back = entry_views(remaining@);
        reordered.append(&mut remaining);
        assert(entry_views(reordered@) =~= out_front + out_back);
        let changed = !same_ids(&before_ids, &reordered);
        self.local_entries = reordered;
        changed
    }

    /// Index of the first local row with `id`.
    fn find_local(&self, id: &str) -> (r: Option<usize>)
        ensures
            match r {
                Some(i) => i < self.local_entries@.len() && first_where(self.locals(), has_id(id@))
                    == i,
                None => first_where(self.locals(), has_id(id@)) == -1,
            },
    {
        let n = self.local_entries.len();
        let mut i: usize = 0;
        while i < n
            invariant
                n == self.local_entries@.len(),
                i <= n,
                forall|j: int| 0 <= j < i ==> !has_id(id@)(#[trigger] self.locals()[j]),
            decreases n - i,
        {
            if str_eq(self.local_entries[i].id.as_str(), id) {
                proof {
                    lemma_first_where_at(self.locals(), has_id(id@), i as int);
                }
                return Some(i);
            }
            i = i + 1;
        }
        proof {
            lemma_first_where_none(self.locals(), has_id(id@));
        }
        None
    }
}


impl Default for QueueMirror {
    fn default() -> (m: Self)
        ensures
            m.locals() == Seq::<EntryView>::empty(),
            m.pis() == Seq::<EntryView>::empty(),
            m.reservations() == Seq::<ReservedView>::empty(),
            m.parked_rows() == Seq::<EntryView>::empty(),
            m.seq() == 0,
            m.running_row() is None,
    {
        Self::new()
    }
}

/// Generated ids with different counters differ.
pub proof fn lemma_generated_ids_injective(prefix: Seq<char>, a: u64, b: u64)
    requires
        generated_id(prefix, a) == generated_id(prefix, b),
    ensures
        a == b,
{
    reveal_strlit("-");
    let ga = generated_id(prefix, a);
    let gb = generated_id(prefix, b);
    let k: int = prefix.len() + 1int;
    assert(ga.subrange(k, ga.len() as int) =~= decimal(a as nat));
    assert(gb.subrange(k, gb.len() as int) =~= decimal(b as nat));
    crate::number::lemma_decimal_injective(a as nat, b as nat);
}

/// Two ids generated one after the other are never equal, so two rows queued
/// without an id in a row get distinct ids.
pub proof fn lemma_successive_ids_distinct(prefix: Seq<char>, seq: u64)
    ensures
        generated_id(prefix, next_seq_of(seq)) != generated_id(prefix, next_seq_of(next_seq_of(seq))),
{
    if generated_id(prefix, next_seq_of(seq)) == generated_id(prefix, next_seq_of(next_seq_of(seq))) {
        lemma_generated_ids_injective(prefix, next_seq_of(seq), next_seq_of(next_seq_of(seq)));
    }
}

/// The (text, lane) pairs Pi reports for rows.
pub open spec fn row_keys(rows: Seq<EntryView>) -> Seq<(Seq<char>, QueueLane)> {
    rows.map_values(|e: EntryView| (e.execution_text, e.lane))
}

proof fn lemma_reapply_prefix(
    prev: Seq<EntryView>,
    reserved: Seq<ReservedView>,
    seq: u64,
    i: int,
)
    requires
        0 <= i <= prev.len(),
    ensures
        fold_states(prev, initial_state(prev, reserved, seq), row_keys(prev).take(i)) == (UpdateState {
            used: Seq::new(prev.len(), |k: int| k < i),
            reserved,
            seq,
            next: prev.take(i),
        }),
    decreases i,
{
    let keys = row_keys(prev);
    if i == 0 {
        assert(keys.take(0) =~= Seq::<(Seq<char>, QueueLane)>::empty());
        assert(Seq::new(prev.len(), |k: int| k < 0) =~= Seq::new(prev.len(), |k: int| false));
        assert(prev.take(0) =~= Seq::<EntryView>::empty());
    } else {
        lemma_reapply_prefix(prev, reserved, seq, i - 1);
        assert(keys.take(i).drop_last() =~= keys.take(i - 1));
        let used = Seq::new(prev.len(), |k: int| k < i - 1);
        let z = zip_used(used, prev);
        let key = keys.take(i).last();
        assert(key == (prev[i - 1].execution_text, prev[i - 1].lane));
        assert forall|j: int| 0 <= j < i - 1 implies !unused_match(key.0, key.1)(#[trigger] z[j]) by {
            assert(z[j] == (used[j], prev[j]));
        }
        assert(z[i - 1] == (used[i - 1], prev[i - 1]));
        lemma_first_where_at(z, unused_match(key.0, key.1), i - 1);
        assert(used.update(i - 1, true) =~= Seq::new(prev.len(), |k: int| k < i));
        assert(prev.take(i - 1).push(prev[i - 1]) =~= prev.take(i));
    }
}

/// Mirroring the queue Pi already reported changes nothing: every row keeps
/// its id and place, no id is generated, no reservation is used, and no
/// follow-up counts as started.
pub proof fn lemma_reapply_is_identity(
    prev: Seq<EntryView>,
    reserved: Seq<ReservedView>,
    seq: u64,
    steering: Seq<String>,
    follow_up: Seq<String>,
)
    requires
        desired_items(steering, follow_up) == row_keys(prev),
    ensures
        ({
            let st = fold_states(prev, initial_state(prev, reserved, seq), desired_items(steering, follow_up));
            &&& st.next == prev
            &&& st.reserved == reserved
            &&& st.seq == seq
            &&& leftover_follow_ups(prev, st.used, prev.len() as int) == Seq::<EntryView>::empty()
        }),
{
    let keys = row_keys(prev);
    lemma_reapply_prefix(prev, reserved, seq, prev.len() as int);
    assert(keys.take(prev.len() as int) =~= keys);
    assert(prev.take(prev.len() as int) =~= prev);
    let used = Seq::new(prev.len(), |k: int| k < prev.len());
    lemma_leftover_all_used(prev, used, prev.len() as int);
}

proof fn lemma_leftover_all_used(prev: Seq<EntryView>, used: Seq<bool>, n: int)
    requires
        0 <= n <= used.len(),
        forall|k: int| 0 <= k < n ==> used[k],
    ensures
        leftover_follow_ups(prev, used, n) == Seq::<EntryView>::empty(),
    decreases n,
{
    if n > 0 {
        lemma_leftover_all_used(prev, used, n - 1);
    }
}

/// Reordering never loses or duplicates a row: the result is a permutation.
pub proof fn lemma_reorder_is_permutation(rem: Seq<EntryView>, ids: Seq<Seq<char>>)
    ensures
        (reorder_pass(rem, ids).0 + reorder_pass(rem, ids).1).to_multiset() == rem.to_multiset(),
    decreases ids.len(),
{
    broadcast use vstd::multiset::group_multiset_axioms;
    broadcast use vstd::seq_lib::group_to_multiset_ensures;

    if ids.len() == 0 {
        assert(Seq::<EntryView>::empty() + rem =~= rem);
    } else {
        let prior = reorder_pass(rem, ids.drop_last());
        lemma_reorder_is_permutation(rem, ids.drop_last());
        vstd::seq_lib::lemma_multiset_commutative(prior.0, prior.1);
        let p = first_where(prior.1, has_id(ids.last()));
        lemma_first_where_props(prior.1, has_id(ids.last()));
        if p >= 0 {
            let x = prior.1[p];
            let out = prior.0.push(x);
            let rest = prior.1.remove(p);
            vstd::seq_lib::lemma_multiset_commutative(out, rest);
            vstd::seq_lib::to_multiset_build(prior.0, x);
            vstd::seq_lib::to_multiset_remove(prior.1, p);
            assert(prior.1.to_multiset().count(x) > 0) by {
                vstd::seq_lib::to_multiset_contains(prior.1, x);
            }
            assert(out.to_multiset().add(rest.to_multiset()) =~= prior.0.to_multiset().add(
                prior.1.to_multiset(),
            ));
        }
    }
}

} // verus!

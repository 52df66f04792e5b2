//! Pi BTW ("by the way") side-question bridge: streamed deltas, final answers,
//! and the persisted history entries.
use vstd::prelude::*;
use crate::json::{
    Json, JsonView, jv, vget, vstr, vbool, vu64, vi64, vget_either, field, field_str, field_bool,
    field_u64, field_i64, field_either, opt_as_str, opt_json_view, jstr, jobj, members_view,
};
use crate::text::{str_eq, trim, trim_seq};

verus! {

/// `customType` of live BTW bridge traffic.
pub const BRIDGE_TYPE: &'static str = "pi-grok-btw/v1";

/// `customType` of persisted BTW history entries.
pub const HISTORY_ENTRY_TYPE: &'static str = "pi-grok-btw/history/v1";

/// One answered side question kept in the session.
#[derive(Debug, Clone, PartialEq, Eq)]
pub struct BtwHistoryEntry {
    pub id: String,
    pub question: String,
    pub answer: String,
    pub created_at_ms: Option<i64>,
    pub model_used: Option<String>,
}

pub struct HistoryView {
    pub id: Seq<char>,
    pub question: Seq<char>,
    pub answer: Seq<char>,
    pub created_at_ms: Option<i64>,
    pub model_used: Option<Seq<char>>,
}

pub open spec fn osv(s: Option<String>) -> Option<Seq<char>> {
    match s {
        Some(x) => Some(x@),
        None => None,
    }
}

impl View for BtwHistoryEntry {
    type V = HistoryView;

    open spec fn view(&self) -> HistoryView {
        HistoryView {
            id: self.id@,
            question: self.question@,
            answer: self.answer@,
            created_at_ms: self.created_at_ms,
            model_used: osv(self.model_used),
        }
    }
}

/// What a BTW bridge event says.
#[derive(Debug, PartialEq, Eq)]
pub enum BtwProjection {
    Delta { request_id: String, delta: String },
    Complete { request_id: String, result: Result<String, String>, model_used: Option<String> },
}

pub enum BtwView {
    Delta { request_id: Seq<char>, delta: Seq<char> },
    Complete {
        request_id: Seq<char>,
        result: Result<Seq<char>, Seq<char>>,
        model_used: Option<Seq<char>>,
    },
}

impl View for BtwProjection {
    type V = BtwView;

    open spec fn view(&self) -> BtwView {
        match self {
            BtwProjection::Delta { request_id, delta } => BtwView::Delta {
                request_id: request_id@,
                delta: delta@,
            },
            BtwProjection::Complete { request_id, result, model_used } => BtwView::Complete {
                request_id: request_id@,
                result: match result {
                    Ok(a) => Ok(a@),
                    Err(e) => Err(e@),
                },
                model_used: osv(*model_used),
            },
        }
    }
}

/// `createdAt` as milliseconds: an `i64`, or a larger `u64` taken as its
/// two's-complement `i64`.
pub open spec fn created_at_v(v: Option<JsonView>) -> Option<i64> {
    match vi64(v) {
        Some(n) => Some(n),
        None => match vu64(v) {
            Some(u) => Some((u - 0x1_0000_0000_0000_0000int) as i64),
            None => None,
        },
    }
}

pub open spec fn or_else_str(a: Option<Seq<char>>, b: Option<Seq<char>>) -> Option<Seq<char>> {
    match a {
        Some(x) => Some(x),
        None => b,
    }
}

/// The history record a persisted custom entity holds: version 1 with a
/// non-blank question and answer, identified by the entry id or else the
/// request id.
pub open spec fn history_v(value: JsonView) -> Option<HistoryView> {
    let entry = match vget(value, "entry"@) {
        Some(e) => e,
        None => value,
    };
    if vstr(vget(entry, "type"@)) != Some("custom"@) || vstr(vget(entry, "customType"@)) != Some(
        HISTORY_ENTRY_TYPE@,
    ) {
        None
    } else {
        match vget(entry, "data"@) {
            None => None,
            Some(data) => if vu64(vget(data, "version"@)) != Some(1u64) {
                None
            } else {
                match (vstr(vget(data, "question"@)), vstr(vget(data, "answer"@))) {
                    (Some(q), Some(a)) => if trim_seq(q).len() == 0 || trim_seq(a).len() == 0 {
                        None
                    } else {
                        match or_else_str(vstr(vget(entry, "id"@)), vstr(vget(data, "requestId"@))) {
                            Some(id) => Some(
                                HistoryView {
                                    id,
                                    question: q,
                                    answer: a,
                                    created_at_ms: created_at_v(vget(data, "createdAt"@)),
                                    model_used: vstr(vget(data, "modelUsed"@)),
                                },
                            ),
                            None => None,
                        }
                    },
                    _ => None,
                }
            },
        }
    }
}

pub open spec fn ohv(h: Option<BtwHistoryEntry>) -> Option<HistoryView> {
    match h {
        Some(x) => Some(x@),
        None => None,
    }
}

fn owned(s: Option<&str>) -> (r: Option<String>)
    ensures
        osv(r) == crate::json::opt_str_view(s),
{
    match s {
        Some(x) => Some(x.to_owned()),
        None => None,
    }
}

/// Parse a persisted Pi custom entity into a BTW history record; `None` for
/// unrelated entries or malformed history data.
pub fn parse_btw_history_entry(value: &Json) -> (r: Option<BtwHistoryEntry>)
    ensures
        ohv(r) == history_v(jv(*value)),
{
    let entry = match field(value, "entry") {
        Some(e) => e,
        None => value,
    };
    let type_ok = match field_str(entry, "type") {
        Some(t) => str_eq(t, "custom"),
        None => false,
    };
    let custom_ok = match field_str(entry, "customType") {
        Some(t) => str_eq(t, HISTORY_ENTRY_TYPE),
        None => false,
    };
    if !type_ok || !custom_ok {
        return None;
    }
    let data = match field(entry, "data") {
        Some(d) => d,
        None => {
            return None;
        },
    };
    match field_u64(data, "version") {
        Some(1) => {},
        _ => {
            return None;
        },
    }
    let question = match field_str(data, "question") {
        Some(q) => q,
        None => {
            return None;
        },
    };
    let answer = match field_str(data, "answer") {
        Some(a) => a,
        None => {
            return None;
        },
    };
    if trim(question).unicode_len() == 0 || trim(answer).unicode_len() == 0 {
        return None;
    }
    let id = match field_str(entry, "id") {
        Some(i) => i,
        None => match field_str(data, "requestId") {
            Some(i) => i,
            None => {
                return None;
            },
        },
    };
    let created_at_ms = match field_i64(data, "createdAt") {
        Some(n) => Some(n),
        None => match field_u64(data, "createdAt") {
            Some(u) => Some(wrap_i64(u)),
            None => None,
        },
    };
    Some(
        BtwHistoryEntry {
            id: id.to_owned(),
            question: question.to_owned(),
            answer: answer.to_owned(),
            created_at_ms,
            model_used: owned(field_str(data, "modelUsed")),
        },
    )
}

/// `u as i64` for a `u64` above `i64::MAX`.
fn wrap_i64(u: u64) -> (r: i64)
    requires
        u > 0x7fff_ffff_ffff_ffff,
    ensures
        r == u - 0x1_0000_0000_0000_0000int,
{
    let low: u64 = u - 0x8000_0000_0000_0000;
    let r: i64 = (low as i64) - 0x7fff_ffff_ffff_ffff - 1;
    r
}

/// Where a BTW event's message and details sit. Live traffic is an appended
/// custom entry with `data`; older builds sent a custom message with
/// `details`. `None` when the event is not BTW traffic.
pub open spec fn btw_parts(event: JsonView) -> Option<(JsonView, JsonView)> {
    let live = match vget(event, "entry"@) {
        Some(e) => vstr(vget(e, "type"@)) == Some("custom"@) && vstr(vget(e, "customType"@)) == Some(
            BRIDGE_TYPE@,
        ),
        None => false,
    };
    if live {
        let entry = vget(event, "entry"@)->Some_0;
        Some(
            (
                entry,
                match vget(entry, "data"@) {
                    Some(d) => d,
                    None => entry,
                },
            ),
        )
    } else {
        let message = match vget(event, "message"@) {
            Some(m) => m,
            None => match vget(event, "entry"@) {
                Some(e) => match vget(e, "message"@) {
                    Some(m) => m,
                    None => event,
                },
                None => event,
            },
        };
        if vstr(vget_either(message, "customType"@, "custom_type"@)) != Some(BRIDGE_TYPE@) {
            None
        } else {
            Some(
                (
                    message,
                    match vget(message, "details"@) {
                        Some(d) => d,
                        None => JsonView::Null,
                    },
                ),
            )
        }
    }
}

pub open spec fn or_default(s: Option<Seq<char>>, d: Seq<char>) -> Seq<char> {
    match s {
        Some(x) => x,
        None => d,
    }
}

/// The projection of a BTW event: a non-empty streamed delta, or the final
/// answer (or error) with the model that produced it.
pub open spec fn btw_v(event: JsonView) -> Option<BtwView> {
    match btw_parts(event) {
        None => None,
        Some((message, details)) => {
            let request_id = or_default(
                vstr(vget_either(details, "requestId"@, "request_id"@)),
                Seq::empty(),
            );
            if vstr(vget(details, "phase"@)) == Some("delta"@) {
                match vstr(vget(details, "delta"@)) {
                    Some(d) => if d.len() > 0 {
                        Some(BtwView::Delta { request_id, delta: d })
                    } else {
                        None
                    },
                    None => None,
                }
            } else {
                let model_used = vstr(vget_either(details, "modelUsed"@, "model_used"@));
                let ok = vbool(vget(details, "ok"@)) == Some(true);
                let content = vstr(vget(message, "content"@));
                if ok {
                    let answer = or_default(
                        or_else_str(vstr(vget(details, "answer"@)), content),
                        Seq::empty(),
                    );
                    Some(
                        BtwView::Complete {
                            request_id,
                            result: if answer.len() == 0 {
                                Err("Empty side question response"@)
                            } else {
                                Ok(answer)
                            },
                            model_used,
                        },
                    )
                } else {
                    Some(
                        BtwView::Complete {
                            request_id,
                            result: Err(
                                or_default(
                                    or_else_str(vstr(vget(details, "error"@)), content),
                                    "side question failed"@,
                                ),
                            ),
                            model_used,
                        },
                    )
                }
            }
        },
    }
}

pub open spec fn obv(p: Option<BtwProjection>) -> Option<BtwView> {
    match p {
        Some(x) => Some(x@),
        None => None,
    }
}

fn str_or<'a>(a: Option<&'a str>, b: &'a str) -> (r: &'a str)
    ensures
        r@ == or_default(crate::json::opt_str_view(a), b@),
{
    match a {
        Some(x) => x,
        None => b,
    }
}

fn str_or_else<'a>(a: Option<&'a str>, b: Option<&'a str>) -> (r: Option<&'a str>)
    ensures
        crate::json::opt_str_view(r) == or_else_str(
            crate::json::opt_str_view(a),
            crate::json::opt_str_view(b),
        ),
{
    match a {
        Some(x) => Some(x),
        None => b,
    }
}

/// Parse a BTW bridge event into a streamed delta or the final projection;
/// `None` when it is not BTW traffic (or an empty delta).
pub fn parse_btw_message(event: &Json) -> (r: Option<BtwProjection>)
    ensures
        obv(r) == btw_v(jv(*event)),
{
    proof {
        reveal_strlit("");
        assert(""@ =~= Seq::<char>::empty());
    }
    let null = Json::Null;
    let live = match field(event, "entry") {
        Some(e) => {
            let t = match field_str(e, "type") {
                Some(t) => str_eq(t, "custom"),
                None => false,
            };
            let c = match field_str(e, "customType") {
                Some(c) => str_eq(c, BRIDGE_TYPE),
                None => false,
            };
            t && c
        },
        None => false,
    };
    let (message, details): (&Json, &Json) = if live {
        let entry = match field(event, "entry") {
            Some(e) => e,
            None => {
                return None;
            },
        };
        let details = match field(entry, "data") {
            Some(d) => d,
            None => entry,
        };
        (entry, details)
    } else {
        let message = match field(event, "message") {
            Some(m) => m,
            None => match field(event, "entry") {
                Some(e) => match field(e, "message") {
                    Some(m) => m,
                    None => event,
                },
                None => event,
            },
        };
        let custom_ok = match opt_as_str(field_either(message, "customType", "custom_type")) {
            Some(c) => str_eq(c, BRIDGE_TYPE),
            None => false,
        };
        if !custom_ok {
            return None;
        }
        let details = match field(message, "details") {
            Some(d) => d,
            None => &null,
        };
        (message, details)
    };
    let request_id = str_or(opt_as_str(field_either(details, "requestId", "request_id")), "").to_owned();
    let is_delta = match field_str(details, "phase") {
        Some(p) => str_eq(p, "delta"),
        None => false,
    };
    if is_delta {
        let delta = match field_str(details, "delta") {
            Some(d) => d,
            None => {
                return None;
            },
        };
        if delta.unicode_len() == 0 {
            return None;
        }
        return Some(BtwProjection::Delta { request_id, delta: delta.to_owned() });
    }
    let model_used = owned(opt_as_str(field_either(details, "modelUsed", "model_used")));
    let ok = match field_bool(details, "ok") {
        Some(b) => b,
        None => false,
    };
    let content = field_str(message, "content");
    if ok {
        let answer = str_or(str_or_else(field_str(details, "answer"), content), "");
        if answer.unicode_len() == 0 {
            return Some(
                BtwProjection::Complete {
                    request_id,
                    result: Err("Empty side question response".to_owned()),
                    model_used,
                },
            );
        }
        Some(BtwProjection::Complete { request_id, result: Ok(answer.to_owned()), model_used })
    } else {
        let error = str_or(str_or_else(field_str(details, "error"), content), "side question failed");
        Some(BtwProjection::Complete { request_id, result: Err(error.to_owned()), model_used })
    }
}

/// The `x.ai/btw` answer body for a projection.
pub open spec fn answer_payload_v(p: BtwView) -> JsonView {
    match p {
        BtwView::Delta { delta, .. } => JsonView::Object(seq![("delta"@, JsonView::Str(delta))]),
        BtwView::Complete { result, model_used, .. } => match result {
            Ok(answer) => match model_used {
                Some(m) => JsonView::Object(
                    seq![("answer"@, JsonView::Str(answer)), ("modelUsed"@, JsonView::Str(m))],
                ),
                None => JsonView::Object(seq![("answer"@, JsonView::Str(answer))]),
            },
            Err(e) => JsonView::Object(seq![("error"@, JsonView::Str(e))]),
        },
    }
}

/// The `x.ai/btw` answer body: the delta, the answer with its model, or the
/// error.
pub fn btw_answer_payload(projection: &BtwProjection) -> (r: Json)
    ensures
        jv(r) == answer_payload_v(projection@),
{
    let f = match projection {
        BtwProjection::Delta { delta, .. } => vec![("delta".to_owned(), jstr(delta.as_str()))],
        BtwProjection::Complete { result, model_used, .. } => match result {
            Ok(answer) => match model_used {
                Some(m) => vec![
                    ("answer".to_owned(), jstr(answer.as_str())),
                    ("modelUsed".to_owned(), jstr(m.as_str())),
                ],
                None => vec![("answer".to_owned(), jstr(answer.as_str()))],
            },
            Err(e) => vec![("error".to_owned(), jstr(e.as_str()))],
        },
    };
    let ghost fv = members_view(f@);
    let r = jobj(f);
    assert(fv =~= answer_payload_v(projection@)->Object_0);
    r
}

} // verus!

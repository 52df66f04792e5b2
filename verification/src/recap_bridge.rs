//! Project Pi `pi-grok-recap/v1` traffic into session recap updates.
use vstd::prelude::*;
use crate::json::{Json, JsonView, jv, vget, vstr, vbool, field, field_str, field_bool, jstr, jobj, members_view};
use crate::text::{str_eq, trim, trim_seq};

verus! {

/// `customType` of recap bridge traffic.
pub const BRIDGE_TYPE: &'static str = "pi-grok-recap/v1";

/// What a recap event says.
#[derive(Debug, Clone, PartialEq, Eq)]
pub enum RecapProjection {
    Available { summary: String, auto: bool },
    Unavailable { auto: bool },
}

pub enum RecapView {
    Available { summary: Seq<char>, auto: bool },
    Unavailable { auto: bool },
}

impl View for RecapProjection {
    type V = RecapView;

    open spec fn view(&self) -> RecapView {
        match self {
            RecapProjection::Available { summary, auto } => RecapView::Available {
                summary: summary@,
                auto: *auto,
            },
            RecapProjection::Unavailable { auto } => RecapView::Unavailable { auto: *auto },
        }
    }
}

/// The texts of the `{"type": "text", "text": ..}` items, joined by newlines
/// that are only put after something non-empty.
pub open spec fn joined_texts(items: Seq<JsonView>) -> Seq<char>
    decreases items.len(),
{
    if items.len() == 0 {
        Seq::empty()
    } else {
        let r = joined_texts(items.drop_last());
        let it = items.last();
        if vstr(vget(it, "type"@)) == Some("text"@) && vstr(vget(it, "text"@)) is Some {
            if r.len() > 0 {
                r + "\n"@ + vstr(vget(it, "text"@))->Some_0
            } else {
                vstr(vget(it, "text"@))->Some_0
            }
        } else {
            r
        }
    }
}

/// A message's text: its string `content`, or the joined text items of its
/// `content` array; `None` when that is empty or missing.
pub open spec fn content_text_v(message: JsonView) -> Option<Seq<char>> {
    match vget(message, "content"@) {
        Some(JsonView::Str(s)) => Some(s),
        Some(JsonView::Array(items)) => {
            let t = joined_texts(items);
            if t.len() == 0 {
                None
            } else {
                Some(t)
            }
        },
        _ => None,
    }
}

pub(crate) fn content_text(message: &Json) -> (r: Option<String>)
    ensures
        crate::btw_bridge::osv(r) == content_text_v(jv(*message)),
{
    proof {
        reveal_strlit("\n");
    }
    let content = match field(message, "content") {
        Some(c) => c,
        None => {
            return None;
        },
    };
    match content {
        Json::Str(s) => Some(s.clone()),
        Json::Array(items) => {
            let ghost iv = jv(*content)->Array_0;
            let mut out = String::new();
            let mut i: usize = 0;
            assert(iv.take(0) =~= Seq::<JsonView>::empty());
            while i < items.len()
                invariant
                    i <= items@.len(),
                    iv == jv(*content)->Array_0,
                    iv.len() == items@.len(),
                    forall|k: int| 0 <= k < items@.len() ==> #[trigger] iv[k] == jv(items@[k]),
                    out@ == joined_texts(iv.take(i as int)),
                decreases items@.len() - i,
            {
                let item = &items[i];
                proof {
                    assert(iv.take(i + 1).drop_last() =~= iv.take(i as int));
                    assert(iv.take(i + 1).last() == jv(*item));
                }
                let is_text = match field_str(item, "type") {
                    Some(t) => str_eq(t, "text"),
                    None => false,
                };
                if is_text {
                    match field_str(item, "text") {
                        Some(text) => {
                            if out.unicode_len() > 0 {
                                out.append("\n");
                            }
                            out.append(text);
                        },
                        None => {},
                    }
                }
                proof {
                    assert(out@ =~= joined_texts(iv.take(i + 1)));
                }
                i = i + 1;
            }
            assert(iv.take(iv.len() as int) =~= iv);
            if out.unicode_len() == 0 {
                None
            } else {
                Some(out)
            }
        },
        _ => None,
    }
}

/// Where a recap event's message and details sit: an appended custom entry
/// with `data` (live traffic), or a custom message with `details` (older
/// builds). `None` when it is not recap traffic.
pub open spec fn recap_parts(event: JsonView) -> Option<(JsonView, JsonView)> {
    let live = match vget(event, "entry"@) {
        Some(e) => vstr(vget(e, "type"@)) == Some("custom"@) && vstr(vget(e, "customType"@)) == Some(
            BRIDGE_TYPE@,
        ),
        None => false,
    };
    if live {
        let entry = vget(event, "entry"@)->Some_0;
        Some(
            (
                entry,
                match vget(entry, "data"@) {
                    Some(d) => d,
                    None => entry,
                },
            ),
        )
    } else {
        let message = match vget(event, "message"@) {
            Some(m) => m,
            None => event,
        };
        if vstr(vget(message, "role"@)) != Some("custom"@) || vstr(vget(message, "customType"@))
            != Some(BRIDGE_TYPE@) {
            None
        } else {
            Some(
                (
                    message,
                    match vget(message, "details"@) {
                        Some(d) => d,
                        None => message,
                    },
                ),
            )
        }
    }
}

/// A trimmed text that is not empty.
pub open spec fn nonblank(s: Option<Seq<char>>) -> Option<Seq<char>> {
    match s {
        Some(x) => if trim_seq(x).len() > 0 {
            Some(trim_seq(x))
        } else {
            None
        },
        None => None,
    }
}

/// The recap an event carries: unavailable unless `ok`; the summary is the
/// trimmed `summary`, else the message text.
pub open spec fn recap_v(event: JsonView) -> Option<RecapView> {
    match recap_parts(event) {
        None => None,
        Some((message, details)) => {
            let auto = vbool(vget(details, "auto"@)) == Some(true);
            if vbool(vget(details, "ok"@)) != Some(true) {
                Some(RecapView::Unavailable { auto })
            } else {
                let summary = match nonblank(vstr(vget(details, "summary"@))) {
                    Some(s) => Some(s),
                    None => nonblank(content_text_v(message)),
                };
                match summary {
                    Some(s) => Some(RecapView::Available { summary: s, auto }),
                    None => Some(RecapView::Unavailable { auto }),
                }
            }
        },
    }
}

pub open spec fn orv(p: Option<RecapProjection>) -> Option<RecapView> {
    match p {
        Some(x) => Some(x@),
        None => None,
    }
}

fn nonblank_owned(s: Option<&str>) -> (r: Option<String>)
    ensures
        crate::btw_bridge::osv(r) == nonblank(crate::json::opt_str_view(s)),
{
    match s {
        Some(x) => {
            let t = trim(x);
            if t.unicode_len() > 0 {
                Some(t.to_owned())
            } else {
                None
            }
        },
        None => None,
    }
}

/// Parse a recap bridge event; `None` when it is not recap traffic.
pub fn parse_recap_message(event: &Json) -> (r: Option<RecapProjection>)
    ensures
        orv(r) == recap_v(jv(*event)),
{
    let live = match field(event, "entry") {
        Some(e) => {
            let t = match field_str(e, "type") {
                Some(t) => str_eq(t, "custom"),
                None => false,
            };
            let c = match field_str(e, "customType") {
                Some(c) => str_eq(c, BRIDGE_TYPE),
                None => false,
            };
            t && c
        },
        None => false,
    };
    let (message, details): (&Json, &Json) = if live {
        let entry = match field(event, "entry") {
            Some(e) => e,
            None => {
                return None;
            },
        };
        let details = match field(entry, "data") {
            Some(d) => d,
            None => entry,
        };
        (entry, details)
    } else {
        let message = match field(event, "message") {
            Some(m) => m,
            None => event,
        };
        let role_ok = match field_str(message, "role") {
            Some(r) => str_eq(r, "custom"),
            None => false,
        };
        let type_ok = match field_str(message, "customType") {
            Some(c) => str_eq(c, BRIDGE_TYPE),
            None => false,
        };
        if !role_ok || !type_ok {
            return None;
        }
        let details = match field(message, "details") {
            Some(d) => d,
            None => message,
        };
        (message, details)
    };
    let auto = match field_bool(details, "auto") {
        Some(b) => b,
        None => false,
    };
    let ok = match field_bool(details, "ok") {
        Some(b) => b,
        None => false,
    };
    if !ok {
        return Some(RecapProjection::Unavailable { auto });
    }
    let summary = match nonblank_owned(field_str(details, "summary")) {
        Some(s) => Some(s),
        None => match content_text(message) {
            Some(text) => nonblank_owned(Some(text.as_str())),
            None => None,
        },
    };
    match summary {
        Some(summary) => Some(RecapProjection::Available { summary, auto }),
        None => Some(RecapProjection::Unavailable { auto }),
    }
}

/// The session notification for a recap.
pub open spec fn recap_notification_v(session_id: Seq<char>, p: RecapView) -> JsonView {
    JsonView::Object(
        seq![
            ("sessionId"@, JsonView::Str(session_id)),
            (
                "update"@,
                match p {
                    RecapView::Available { summary, auto } => JsonView::Object(
                        seq![
                            ("sessionUpdate"@, JsonView::Str("session_recap"@)),
                            ("summary"@, JsonView::Str(summary)),
                            ("auto"@, JsonView::Bool(auto)),
                        ],
                    ),
                    RecapView::Unavailable { .. } => JsonView::Object(
                        seq![("sessionUpdate"@, JsonView::Str("session_recap_unavailable"@))],
                    ),
                },
            ),
        ],
    )
}

/// The `session_recap` (or `session_recap_unavailable`) session update.
pub fn session_recap_notification(session_id: &str, projection: &RecapProjection) -> (r: Json)
    ensures
        jv(r) == recap_notification_v(session_id@, projection@),
{
    let update = match projection {
        RecapProjection::Available { summary, auto } => vec![
            ("sessionUpdate".to_owned(), jstr("session_recap")),
            ("summary".to_owned(), jstr(summary.as_str())),
            ("auto".to_owned(), Json::Bool(*auto)),
        ],
        RecapProjection::Unavailable { .. } => vec![
            ("sessionUpdate".to_owned(), jstr("session_recap_unavailable")),
        ],
    };
    let ghost uv = members_view(update@);
    let u = jobj(update);
    let top = vec![("sessionId".to_owned(), jstr(session_id)), ("update".to_owned(), u)];
    let ghost tv = members_view(top@);
    let r = jobj(top);
    proof {
        let want = recap_notification_v(session_id@, projection@);
        assert(uv =~= want->Object_0[1].1->Object_0);
        assert(tv =~= want->Object_0);
    }
    r
}

} // verus!

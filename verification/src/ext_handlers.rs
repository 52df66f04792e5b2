//! Parameters and replies of the extension requests that the adapter serves
//! itself: Bash background and kill controls, session recaps, side
//! questions and interjections.
use vstd::prelude::*;
use crate::json::{Json, JsonView, jv, vget, vbool, vu64, vget_either, field, field_bool, field_either, jstr, jobj, members_view};
use crate::ext_requests::{
    ExtMethodError, ExtErrV, first_string_v, required_id_v, osv, str1, str2, str3, trimmed_id,
};
use crate::queue_bridge::{QueueMirror, QueueLane, QueueOrigin, ReservedView, reserved_other_id};
use crate::queue_runtime::{prompt_request, prompt_request_v};
use crate::seq_util::{keep_where, strs};
use crate::text::{trim, trim_seq};

verus! {

/// The id a Bash control request targets, or why it is refused: the id is
/// required first; then the control channel must be on.
pub open spec fn control_target_v(
    params: JsonView,
    keys: Seq<Seq<char>>,
    missing: Seq<char>,
    control_enabled: bool,
) -> Result<Seq<char>, ExtErrV> {
    match required_id_v(params, keys) {
        None => Err(ExtErrV::InvalidParams(missing)),
        Some(id) => if control_enabled {
            Ok(id)
        } else {
            Err(ExtErrV::InvalidParams("Pi Bash background control is disabled"@))
        },
    }
}

pub open spec fn result_view(r: Result<String, ExtMethodError>) -> Result<Seq<char>, ExtErrV> {
    match r {
        Ok(s) => Ok(s@),
        Err(e) => Err(e@),
    }
}

/// `x.ai/terminal/background`: the trimmed `terminalId` (or `toolCallId`)
/// of the Bash call to move to the background.
pub fn plan_bash_background(params: &Json, control_enabled: bool) -> (r: Result<
    String,
    ExtMethodError,
>)
    ensures
        result_view(r) == control_target_v(
            jv(*params),
            seq!["terminalId"@, "toolCallId"@],
            "terminalId is required"@,
            control_enabled,
        ),
{
    match trimmed_id(str2(params, "terminalId", "toolCallId")) {
        None => Err(ExtMethodError::InvalidParams("terminalId is required".to_owned())),
        Some(id) => if control_enabled {
            Ok(id)
        } else {
            Err(ExtMethodError::InvalidParams("Pi Bash background control is disabled".to_owned()))
        },
    }
}

/// The reply to an accepted background request.
pub fn bash_background_response(terminal_id: &str) -> (r: Json)
    ensures
        jv(r) == JsonView::Object(
            seq![("accepted"@, JsonView::Bool(true)), ("terminalId"@, JsonView::Str(terminal_id@))],
        ),
{
    let mut f: Vec<(String, Json)> = Vec::new();
    f.push(("accepted".to_owned(), Json::Bool(true)));
    f.push(("terminalId".to_owned(), jstr(terminal_id)));
    let r = jobj(f);
    assert(members_view(f@) =~= seq![
        ("accepted"@, JsonView::Bool(true)),
        ("terminalId"@, JsonView::Str(terminal_id@)),
    ]);
    r
}

/// `x.ai/task/kill`: the trimmed `taskId` (or `task_id`) of the background
/// task to kill.
pub fn plan_bash_kill(params: &Json, control_enabled: bool) -> (r: Result<String, ExtMethodError>)
    ensures
        result_view(r) == control_target_v(
            jv(*params),
            seq!["taskId"@, "task_id"@],
            "taskId is required"@,
            control_enabled,
        ),
{
    match trimmed_id(str2(params, "taskId", "task_id")) {
        None => Err(ExtMethodError::InvalidParams("taskId is required".to_owned())),
        Some(id) => if control_enabled {
            Ok(id)
        } else {
            Err(ExtMethodError::InvalidParams("Pi Bash background control is disabled".to_owned()))
        },
    }
}

/// The reply to a kill request: the task and the control channel's outcome.
pub fn bash_kill_response(task_id: &str, outcome: Json) -> (r: Json)
    ensures
        jv(r) == JsonView::Object(
            seq![("taskId"@, JsonView::Str(task_id@)), ("outcome"@, jv(outcome))],
        ),
{
    let ghost o = jv(outcome);
    let mut f: Vec<(String, Json)> = Vec::new();
    f.push(("taskId".to_owned(), jstr(task_id)));
    f.push(("outcome".to_owned(), outcome));
    let r = jobj(f);
    assert(members_view(f@) =~= seq![("taskId"@, JsonView::Str(task_id@)), ("outcome"@, o)]);
    r
}

/// An optional text as JSON: the string, or null.
pub open spec fn text_or_null(o: Option<Seq<char>>) -> JsonView {
    match o {
        Some(s) => JsonView::Str(s),
        None => JsonView::Null,
    }
}

/// A list of texts as a JSON array of strings.
pub open spec fn text_array(s: Seq<Seq<char>>) -> JsonView {
    JsonView::Array(s.map_values(|t: Seq<char>| JsonView::Str(t)))
}

fn text_or_null_json(o: Option<String>) -> (r: Json)
    ensures
        jv(r) == text_or_null(osv(o)),
{
    match o {
        Some(s) => Json::Str(s),
        None => Json::Null,
    }
}

fn text_array_json(items: &Vec<String>) -> (r: Json)
    ensures
        jv(r) == text_array(strs(items@)),
{
    let mut out: Vec<Json> = Vec::new();
    let mut i: usize = 0;
    while i < items.len()
        invariant
            i <= items@.len(),
            out@.len() == i,
            forall|k: int| 0 <= k < i ==> jv(#[trigger] out@[k]) == JsonView::Str(items@[k]@),
        decreases items@.len() - i,
    {
        out.push(jstr(items[i].as_str()));
        i = i + 1;
    }
    proof {
        crate::json::lemma_array_view(out);
        assert(crate::json::items_view(out@) =~= strs(items@).map_values(
            |t: Seq<char>| JsonView::Str(t),
        ));
    }
    Json::Array(out)
}

/// An optional parameter given by any of `keys`: trimmed, absent when
/// blank.
pub open spec fn trimmed_opt_v(params: JsonView, keys: Seq<Seq<char>>) -> Option<Seq<char>> {
    required_id_v(params, keys)
}

/// The recap model: the first of the model chain, else the `model`
/// (`modelId`, `recapModel`) parameter, trimmed, when not blank.
pub open spec fn recap_model_v(params: JsonView, models: Seq<Seq<char>>) -> Option<Seq<char>> {
    if models.len() > 0 {
        Some(models[0])
    } else {
        trimmed_opt_v(params, seq!["model"@, "modelId"@, "recapModel"@])
    }
}

/// The recap's `auto` flag: a boolean `auto` parameter, false otherwise.
pub open spec fn recap_auto_v(params: JsonView) -> bool {
    vbool(vget(params, "auto"@)) == Some(true)
}

/// The arguments of the recap bridge command.
pub open spec fn recap_payload_v(
    params: JsonView,
    models: Seq<Seq<char>>,
    language: Option<Seq<char>>,
) -> JsonView {
    JsonView::Object(
        seq![
            ("auto"@, JsonView::Bool(recap_auto_v(params))),
            ("model"@, text_or_null(recap_model_v(params, models))),
            ("models"@, text_array(models)),
            (
                "thinkingLevel"@,
                text_or_null(trimmed_opt_v(params, seq!["thinkingLevel"@, "thinking_level"@])),
            ),
            ("recapMermaid"@, JsonView::Bool(vbool(vget(params, "recapMermaid"@)) == Some(true))),
            (
                "terminalWidth"@,
                JsonView::Int(
                    match vu64(vget_either(params, "terminalWidth"@, "terminal_width"@)) {
                        Some(n) => n as i128,
                        None => 0,
                    },
                ),
            ),
            ("language"@, text_or_null(language)),
            (
                "customInstructions"@,
                text_or_null(
                    trimmed_opt_v(
                        params,
                        seq!["customInstructions"@, "custom_instructions"@, "instructions"@],
                    ),
                ),
            ),
        ],
    )
}

/// The recap request's `auto` flag.
pub fn recap_auto(params: &Json) -> (b: bool)
    ensures
        b == recap_auto_v(jv(*params)),
{
    match field_bool(params, "auto") {
        Some(b) => b,
        None => false,
    }
}

/// The arguments of the recap bridge command for `x.ai/session/recap`
/// parameters (`{}` when they were not valid JSON), the model chain they
/// name, and the process language.
pub fn recap_payload(params: &Json, models: Vec<String>, language: Option<String>) -> (r: Json)
    ensures
        jv(r) == recap_payload_v(jv(*params), strs(models@), osv(language)),
{
    let auto = recap_auto(params);
    let model = if models.len() > 0 {
        Some(models[0].clone())
    } else {
        trimmed_id(str3(params, "model", "modelId", "recapModel"))
    };
    let thinking = trimmed_id(str2(params, "thinkingLevel", "thinking_level"));
    let mermaid = match field_bool(params, "recapMermaid") {
        Some(b) => b,
        None => false,
    };
    let width: u64 = match field_either(params, "terminalWidth", "terminal_width") {
        Some(w) => match w.as_u64() {
            Some(n) => n,
            None => 0,
        },
        None => 0,
    };
    let instructions = trimmed_id(
        str3(params, "customInstructions", "custom_instructions", "instructions"),
    );
    let mut f: Vec<(String, Json)> = Vec::new();
    f.push(("auto".to_owned(), Json::Bool(auto)));
    f.push(("model".to_owned(), text_or_null_json(model)));
    f.push(("models".to_owned(), text_array_json(&models)));
    f.push(("thinkingLevel".to_owned(), text_or_null_json(thinking)));
    f.push(("recapMermaid".to_owned(), Json::Bool(mermaid)));
    f.push(("terminalWidth".to_owned(), Json::Int(width as i128)));
    f.push(("language".to_owned(), text_or_null_json(language)));
    f.push(("customInstructions".to_owned(), text_or_null_json(instructions)));
    let r = jobj(f);
    proof {
        assert(members_view(f@) =~= recap_payload_v(jv(*params), strs(models@), osv(language))->Object_0);
    }
    r
}

/// The reply to a recap request: `ok`, the `auto` flag, and `skipped:
/// in_flight` when another recap was still running.
pub fn recap_response(auto: bool, in_flight: bool) -> (r: Json)
    ensures
        jv(r) == JsonView::Object(
            if in_flight {
                seq![
                    ("ok"@, JsonView::Bool(true)),
                    ("auto"@, JsonView::Bool(auto)),
                    ("skipped"@, JsonView::Str("in_flight"@)),
                ]
            } else {
                seq![("ok"@, JsonView::Bool(true)), ("auto"@, JsonView::Bool(auto))]
            },
        ),
{
    let mut f: Vec<(String, Json)> = Vec::new();
    f.push(("ok".to_owned(), Json::Bool(true)));
    f.push(("auto".to_owned(), Json::Bool(auto)));
    if in_flight {
        f.push(("skipped".to_owned(), jstr("in_flight")));
    }
    let r = jobj(f);
    proof {
        if in_flight {
            assert(members_view(f@) =~= seq![
                ("ok"@, JsonView::Bool(true)),
                ("auto"@, JsonView::Bool(auto)),
                ("skipped"@, JsonView::Str("in_flight"@)),
            ]);
        } else {
            assert(members_view(f@) =~= seq![
                ("ok"@, JsonView::Bool(true)),
                ("auto"@, JsonView::Bool(auto)),
            ]);
        }
    }
    r
}

/// Shown when the native side question is switched off.
pub const BTW_DISABLED_MESSAGE: &'static str =
    "Native /btw is off. F2 \u{2192} Agent \u{2192} Pi /btw \u{2192} on, fully quit, then restart grok-pi.";

/// The arguments of the side-question bridge command, or why the request
/// is refused.
pub open spec fn btw_payload_v(
    params: JsonView,
    models: Seq<Seq<char>>,
    request_id: Seq<char>,
    enabled: bool,
) -> Result<JsonView, ExtErrV> {
    if !enabled {
        Err(ExtErrV::MethodNotFound(BTW_DISABLED_MESSAGE@))
    } else {
        match trimmed_opt_v(params, seq!["question"@, "text"@, "q"@]) {
            None => Err(ExtErrV::InvalidParams("question is required"@)),
            Some(q) => Ok(
                JsonView::Object(
                    seq![
                        ("requestId"@, JsonView::Str(request_id)),
                        ("question"@, JsonView::Str(q)),
                        ("models"@, text_array(models)),
                        (
                            "thinkingLevel"@,
                            text_or_null(
                                trimmed_opt_v(params, seq!["thinkingLevel"@, "thinking_level"@]),
                            ),
                        ),
                    ],
                ),
            ),
        }
    }
}

/// `x.ai/btw`: the side question's bridge arguments under `request_id`,
/// with the model chain the parameters name. Refused while the feature is
/// off, and without a question.
pub fn btw_payload(params: &Json, models: Vec<String>, request_id: &str, enabled: bool) -> (r: Result<
    Json,
    ExtMethodError,
>)
    ensures
        match r {
            Ok(p) => btw_payload_v(jv(*params), strs(models@), request_id@, enabled) == Ok::<
                JsonView,
                ExtErrV,
            >(jv(p)),
            Err(e) => btw_payload_v(jv(*params), strs(models@), request_id@, enabled) == Err::<
                JsonView,
                ExtErrV,
            >(e@),
        },
{
    if !enabled {
        return Err(ExtMethodError::MethodNotFound(BTW_DISABLED_MESSAGE.to_owned()));
    }
    let question = match trimmed_id(str3(params, "question", "text", "q")) {
        None => return Err(ExtMethodError::InvalidParams("question is required".to_owned())),
        Some(q) => q,
    };
    let thinking = trimmed_id(str2(params, "thinkingLevel", "thinking_level"));
    let ghost q = question@;
    let mut f: Vec<(String, Json)> = Vec::new();
    f.push(("requestId".to_owned(), jstr(request_id)));
    f.push(("question".to_owned(), Json::Str(question)));
    f.push(("models".to_owned(), text_array_json(&models)));
    f.push(("thinkingLevel".to_owned(), text_or_null_json(thinking)));
    let r = jobj(f);
    proof {
        assert(members_view(f@) =~= btw_payload_v(jv(*params), strs(models@), request_id@, enabled)->Ok_0->Object_0);
    }
    Ok(r)
}

/// The reply carrying a side question's answer.
pub fn btw_answer_response(answer: &str) -> (r: Json)
    ensures
        jv(r) == JsonView::Object(seq![("answer"@, JsonView::Str(answer@))]),
{
    let mut f: Vec<(String, Json)> = Vec::new();
    f.push(("answer".to_owned(), jstr(answer)));
    let r = jobj(f);
    assert(members_view(f@) =~= seq![("answer"@, JsonView::Str(answer@))]);
    r
}

/// An interjection sent to Pi now: the client's id (reserved in the queue
/// mirror) and the steer request.
#[derive(Debug)]
pub struct SteerPlan {
    pub client_id: Option<String>,
    pub request: Json,
}

/// `x.ai/interject`: steer the running turn with `message` and `images`
/// (taken from the `content` blocks by the caller, when they parse) or
/// else the `text` parameter. An empty interjection is refused. When the
/// client names it (`interjectionId`, else `promptId`, trimmed), a
/// steering reservation keeps that id for the queue row Pi will list.
pub fn plan_steer(
    mirror: &mut QueueMirror,
    params: &Json,
    content: Option<(String, Vec<Json>)>,
) -> (r: Result<SteerPlan, ExtMethodError>)
    ensures
        ({
            let (message, images) = match content {
                Some(c) => (c.0@, c.1@),
                None => (
                    match first_string_v(jv(*params), seq!["text"@]) {
                        Some(t) => t,
                        None => Seq::empty(),
                    },
                    Seq::<Json>::empty(),
                ),
            };
            let client = required_id_v(jv(*params), seq!["interjectionId"@, "promptId"@]);
            if trim_seq(message).len() == 0 && images.len() == 0 {
                &&& r matches Err(e) && e@ == ExtErrV::InvalidParams("Pi interjection is empty"@)
                &&& final(mirror).reservations() == old(mirror).reservations()
            } else {
                &&& r matches Ok(p) && osv(p.client_id) == client && jv(p.request)
                    == prompt_request_v(message, images, true)
                &&& final(mirror).reservations() == match client {
                    Some(id) => keep_where(old(mirror).reservations(), reserved_other_id(id)).push(
                        ReservedView {
                            id,
                            execution_text: message,
                            display_text: message,
                            images,
                            lane: QueueLane::Steering,
                            origin: QueueOrigin::Client,
                        },
                    ),
                    None => old(mirror).reservations(),
                }
            }
        }),
        final(mirror).locals() == old(mirror).locals(),
        final(mirror).pis() == old(mirror).pis(),
        final(mirror).parked_rows() == old(mirror).parked_rows(),
        final(mirror).seq() == old(mirror).seq(),
        final(mirror).running_row() == old(mirror).running_row(),
{
    let (message, images) = match content {
        Some(c) => c,
        None => (
            match str1(params, "text") {
                Some(t) => t.to_owned(),
                None => String::new(),
            },
            Vec::new(),
        ),
    };
    if trim(message.as_str()).unicode_len() == 0 && images.len() == 0 {
        return Err(ExtMethodError::InvalidParams("Pi interjection is empty".to_owned()));
    }
    let client_id = trimmed_id(str2(params, "interjectionId", "promptId"));
    let request = prompt_request(message.as_str(), &images, true);
    match &client_id {
        Some(id) => {
            proof {
                crate::text::lemma_trim_idempotent(
                    first_string_v(jv(*params), seq!["interjectionId"@, "promptId"@])->Some_0,
                );
            }
            let display = message.clone();
            mirror.reserve(id.clone(), message, display, images, QueueLane::Steering, QueueOrigin::Client);
        },
        None => {},
    }
    Ok(SteerPlan { client_id, request })
}

/// `pi/queue/mode`: the RPC request that sets Pi's steering queue mode (for
/// `steering`) or its follow-up queue mode to `mode`.
pub fn queue_mode_request(mode: &str, steering: bool) -> (r: Json)
    ensures
        jv(r) == JsonView::Object(
            seq![
                ("type"@, JsonView::Str(if steering {
                    "set_steering_mode"@
                } else {
                    "set_follow_up_mode"@
                })),
                ("mode"@, JsonView::Str(mode@)),
            ],
        ),
{
    let kind = if steering {
        "set_steering_mode"
    } else {
        "set_follow_up_mode"
    };
    let mut f: Vec<(String, Json)> = Vec::new();
    f.push(("type".to_owned(), jstr(kind)));
    f.push(("mode".to_owned(), jstr(mode)));
    let r = jobj(f);
    assert(members_view(f@) =~= seq![
        ("type"@, JsonView::Str(kind@)),
        ("mode"@, JsonView::Str(mode@)),
    ]);
    r
}

/// The reply to `pi/queue/mode`: the mode now in force.
pub fn queue_mode_response(mode: &str) -> (r: Json)
    ensures
        jv(r) == JsonView::Object(seq![("mode"@, JsonView::Str(mode@))]),
{
    let mut f: Vec<(String, Json)> = Vec::new();
    f.push(("mode".to_owned(), jstr(mode)));
    let r = jobj(f);
    assert(members_view(f@) =~= seq![("mode"@, JsonView::Str(mode@))]);
    r
}

/// The reply to `pi/session/search`: the result rows and their number (an
/// empty query is answered with no rows, without searching).
pub fn session_search_response(results: Vec<Json>) -> (r: Json)
    ensures
        jv(r) == JsonView::Object(
            seq![
                ("results"@, JsonView::Array(crate::json::items_view(results@))),
                ("total"@, JsonView::Int(results@.len() as i128)),
            ],
        ),
{
    let total = results.len();
    proof {
        crate::json::lemma_array_view(results);
    }
    let ghost rv = crate::json::items_view(results@);
    let mut f: Vec<(String, Json)> = Vec::new();
    f.push(("results".to_owned(), Json::Array(results)));
    f.push(("total".to_owned(), Json::Int(total as i128)));
    let r = jobj(f);
    assert(members_view(f@) =~= seq![
        ("results"@, JsonView::Array(rv)),
        ("total"@, JsonView::Int(total as i128)),
    ]);
    r
}

/// A session found by a full-text search, each field as the JSON value the
/// search gave for it.
#[derive(Debug)]
pub struct SessionHit {
    pub session_id: Json,
    pub cwd: Json,
    pub summary: Json,
    pub snippet: Json,
    pub score: Json,
    pub matched_fields: Json,
    pub updated_at: Json,
}

/// A row of the `pi/session/search` reply.
pub open spec fn hit_row_v(h: SessionHit) -> JsonView {
    JsonView::Object(
        seq![
            ("sessionId"@, jv(h.session_id)),
            ("cwd"@, jv(h.cwd)),
            ("summary"@, jv(h.summary)),
            ("snippet"@, jv(h.snippet)),
            ("score"@, jv(h.score)),
            ("matchedFields"@, jv(h.matched_fields)),
            ("updatedAt"@, jv(h.updated_at)),
        ],
    )
}

/// The reply row of a session found by a search.
pub fn session_search_row(hit: SessionHit) -> (r: Json)
    ensures
        jv(r) == hit_row_v(hit),
{
    let ghost h = hit;
    let mut f: Vec<(String, Json)> = Vec::new();
    f.push(("sessionId".to_owned(), hit.session_id));
    f.push(("cwd".to_owned(), hit.cwd));
    f.push(("summary".to_owned(), hit.summary));
    f.push(("snippet".to_owned(), hit.snippet));
    f.push(("score".to_owned(), hit.score));
    f.push(("matchedFields".to_owned(), hit.matched_fields));
    f.push(("updatedAt".to_owned(), hit.updated_at));
    let r = jobj(f);
    assert(members_view(f@) =~= hit_row_v(h)->Object_0);
    r
}

/// `pi/session/search` on a blank query: the reply with no rows
/// (`{"results": [], "total": 0}`), given at once, without a search;
/// `None` when the query is not blank and the search is to run.
pub fn session_search_without_query(query: &str) -> (r: Option<Json>)
    ensures
        trim_seq(query@).len() == 0 ==> (r matches Some(j) && jv(j) == JsonView::Object(
            seq![
                ("results"@, JsonView::Array(Seq::empty())),
                ("total"@, JsonView::Int(0)),
            ],
        )),
        trim_seq(query@).len() > 0 ==> r is None,
{
    if trim(query).unicode_len() > 0 {
        return None;
    }
    let reply = session_search_response(Vec::new());
    assert(crate::json::items_view(Seq::<Json>::empty()) =~= Seq::<JsonView>::empty());
    Some(reply)
}

/// The reply to `pi/session/messages`: the session's message rows and
/// their number.
pub fn session_messages_response(messages: Vec<Json>) -> (r: Json)
    ensures
        jv(r) == JsonView::Object(
            seq![
                ("messages"@, JsonView::Array(crate::json::items_view(messages@))),
                ("total"@, JsonView::Int(messages@.len() as i128)),
            ],
        ),
{
    let total = messages.len();
    proof {
        crate::json::lemma_array_view(messages);
    }
    let ghost mv = crate::json::items_view(messages@);
    let mut f: Vec<(String, Json)> = Vec::new();
    f.push(("messages".to_owned(), Json::Array(messages)));
    f.push(("total".to_owned(), Json::Int(total as i128)));
    let r = jobj(f);
    assert(members_view(f@) =~= seq![
        ("messages"@, JsonView::Array(mv)),
        ("total"@, JsonView::Int(total as i128)),
    ]);
    r
}

} // verus!

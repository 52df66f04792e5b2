//! Project the private subagent bridge (`pi-grok-subagent/v1`) onto the
//! parent session's lifecycle updates and the child session's updates.
use vstd::prelude::*;
use crate::json::{
    Json, JsonView, jv, ojv, vget, vstr, vbool, vu64, field, field_str, field_bool, field_u64, jstr,
    jobj, members_view, vset, named, lemma_object_view,
};
use crate::number::{decimal, push_decimal};
use crate::seq_util::first_where;
use crate::text::str_eq;
use crate::tool_projection::{
    blocks_view, diff_blocks, diff_blocks_v, edit_diff_content, edit_diff_content_v,
    normalize_tool_raw_input, normalize_v, normalize_tool_raw_output, raw_output_v, tool_content,
    tool_content_v, tool_kind, tool_kind_v, ToolContent, ToolContentV, ToolKind,
};

verus! {

/// `customType` of subagent bridge traffic.
pub const BRIDGE_TYPE: &'static str = "pi-grok-subagent/v1";

/// Why a subagent bridge event was rejected.
#[derive(Debug, PartialEq, Eq)]
pub enum BridgeError {
    /// The custom message has no details (`details` or `data`) member.
    MissingDetails(String),
    UnsupportedVersion,
    /// A required member of the details is missing.
    Required(String),
    ParentMismatch,
    PayloadNotObject,
    /// A required member of the payload is missing.
    PayloadRequired(String),
    InvalidStatus(String),
    UnknownEvent(String),
    ChildUpdateNotObject,
    UnknownChildUpdate(String),
}

pub enum ErrV {
    MissingDetails(Seq<char>),
    UnsupportedVersion,
    Required(Seq<char>),
    ParentMismatch,
    PayloadNotObject,
    PayloadRequired(Seq<char>),
    InvalidStatus(Seq<char>),
    UnknownEvent(Seq<char>),
    ChildUpdateNotObject,
    UnknownChildUpdate(Seq<char>),
}

impl View for BridgeError {
    type V = ErrV;

    open spec fn view(&self) -> ErrV {
        match self {
            BridgeError::MissingDetails(k) => ErrV::MissingDetails(k@),
            BridgeError::UnsupportedVersion => ErrV::UnsupportedVersion,
            BridgeError::Required(k) => ErrV::Required(k@),
            BridgeError::ParentMismatch => ErrV::ParentMismatch,
            BridgeError::PayloadNotObject => ErrV::PayloadNotObject,
            BridgeError::PayloadRequired(k) => ErrV::PayloadRequired(k@),
            BridgeError::InvalidStatus(s) => ErrV::InvalidStatus(s@),
            BridgeError::UnknownEvent(s) => ErrV::UnknownEvent(s@),
            BridgeError::ChildUpdateNotObject => ErrV::ChildUpdateNotObject,
            BridgeError::UnknownChildUpdate(s) => ErrV::UnknownChildUpdate(s@),
        }
    }
}

/// The text of an error.
pub open spec fn err_message_v(e: ErrV) -> Seq<char> {
    match e {
        ErrV::MissingDetails(k) => "subagent bridge custom message has no "@ + k,
        ErrV::UnsupportedVersion => "unsupported subagent bridge version"@,
        ErrV::Required(k) => "subagent bridge "@ + k + " is required"@,
        ErrV::ParentMismatch => "subagent bridge parentSessionId does not match active Pi session"@,
        ErrV::PayloadNotObject => "subagent bridge payload must be an object"@,
        ErrV::PayloadRequired(k) => "subagent bridge payload."@ + k + " is required"@,
        ErrV::InvalidStatus(s) => "invalid subagent terminal status: "@ + s,
        ErrV::UnknownEvent(s) => "unknown subagent bridge event: "@ + s,
        ErrV::ChildUpdateNotObject => "subagent child update must be an object"@,
        ErrV::UnknownChildUpdate(s) => "unknown child update type: "@ + s,
    }
}

impl BridgeError {
    /// The error's text.
    pub fn message(&self) -> (r: String)
        ensures
            r@ == err_message_v(self@),
    {
        match self {
            BridgeError::MissingDetails(k) => "subagent bridge custom message has no ".to_owned().concat(
                k.as_str(),
            ),
            BridgeError::UnsupportedVersion => "unsupported subagent bridge version".to_owned(),
            BridgeError::Required(k) => "subagent bridge ".to_owned().concat(k.as_str()).concat(
                " is required",
            ),
            BridgeError::ParentMismatch =>
                "subagent bridge parentSessionId does not match active Pi session".to_owned(),
            BridgeError::PayloadNotObject => "subagent bridge payload must be an object".to_owned(),
            BridgeError::PayloadRequired(k) => "subagent bridge payload.".to_owned().concat(
                k.as_str(),
            ).concat(" is required"),
            BridgeError::InvalidStatus(s) => "invalid subagent terminal status: ".to_owned().concat(
                s.as_str(),
            ),
            BridgeError::UnknownEvent(s) => "unknown subagent bridge event: ".to_owned().concat(
                s.as_str(),
            ),
            BridgeError::ChildUpdateNotObject => "subagent child update must be an object".to_owned(),
            BridgeError::UnknownChildUpdate(s) => "unknown child update type: ".to_owned().concat(
                s.as_str(),
            ),
        }
    }
}

/// Where a child tool call stands.
#[derive(Clone, Copy, Debug, PartialEq, Eq)]
pub enum ToolStatus {
    InProgress,
    Completed,
    Failed,
}

/// An update of the child session, before it is rendered for the client.
/// Tool arguments are already prepared for the pager's cards, and so is the
/// raw output of tool updates and results. `content` holds what a tool's
/// card shows: the diffs of an edit tool's call, the text of other tools'
/// updates and results; an edit tool's update sets none (`None`), and so
/// does its result when the call has no diff to show.
#[derive(Debug, PartialEq)]
pub enum ChildUpdate {
    UserMessageChunk(String),
    AgentMessageChunk(String),
    AgentThoughtChunk(String),
    ToolCall {
        id: String,
        name: String,
        kind: ToolKind,
        status: ToolStatus,
        args: Option<Json>,
        content: Vec<ToolContent>,
    },
    ToolUpdate {
        id: String,
        name: String,
        kind: ToolKind,
        status: ToolStatus,
        args: Option<Json>,
        partial_result: Json,
        content: Option<Vec<ToolContent>>,
        raw_output: Json,
    },
    ToolResult {
        id: String,
        name: String,
        kind: ToolKind,
        status: ToolStatus,
        args: Option<Json>,
        result: Json,
        is_error: bool,
        content: Option<Vec<ToolContent>>,
        raw_output: Json,
    },
}

pub enum ChildV {
    UserMessageChunk(Seq<char>),
    AgentMessageChunk(Seq<char>),
    AgentThoughtChunk(Seq<char>),
    ToolCall {
        id: Seq<char>,
        name: Seq<char>,
        kind: ToolKind,
        status: ToolStatus,
        args: Option<JsonView>,
        content: Seq<ToolContentV>,
    },
    ToolUpdate {
        id: Seq<char>,
        name: Seq<char>,
        kind: ToolKind,
        status: ToolStatus,
        args: Option<JsonView>,
        partial_result: JsonView,
        content: Option<Seq<ToolContentV>>,
        raw_output: JsonView,
    },
    ToolResult {
        id: Seq<char>,
        name: Seq<char>,
        kind: ToolKind,
        status: ToolStatus,
        args: Option<JsonView>,
        result: JsonView,
        is_error: bool,
        content: Option<Seq<ToolContentV>>,
        raw_output: JsonView,
    },
}

pub open spec fn opt_blocks_view(c: Option<Vec<ToolContent>>) -> Option<Seq<ToolContentV>> {
    match c {
        Some(v) => Some(blocks_view(v@)),
        None => None,
    }
}

impl View for ChildUpdate {
    type V = ChildV;

    open spec fn view(&self) -> ChildV {
        match self {
            ChildUpdate::UserMessageChunk(t) => ChildV::UserMessageChunk(t@),
            ChildUpdate::AgentMessageChunk(t) => ChildV::AgentMessageChunk(t@),
            ChildUpdate::AgentThoughtChunk(t) => ChildV::AgentThoughtChunk(t@),
            ChildUpdate::ToolCall { id, name, kind, status, args, content } => ChildV::ToolCall {
                id: id@,
                name: name@,
                kind: *kind,
                status: *status,
                args: ojv(*args),
                content: blocks_view(content@),
            },
            ChildUpdate::ToolUpdate {
                id,
                name,
                kind,
                status,
                args,
                partial_result,
                content,
                raw_output,
            } => ChildV::ToolUpdate {
                id: id@,
                name: name@,
                kind: *kind,
                status: *status,
                args: ojv(*args),
                partial_result: jv(*partial_result),
                content: opt_blocks_view(*content),
                raw_output: jv(*raw_output),
            },
            ChildUpdate::ToolResult {
                id,
                name,
                kind,
                status,
                args,
                result,
                is_error,
                content,
                raw_output,
            } => ChildV::ToolResult {
                id: id@,
                name: name@,
                kind: *kind,
                status: *status,
                args: ojv(*args),
                result: jv(*result),
                is_error: *is_error,
                content: opt_blocks_view(*content),
                raw_output: jv(*raw_output),
            },
        }
    }
}

/// One thing the adapter does for a bridge event.
#[derive(Debug, PartialEq)]
pub enum BridgeOperation {
    /// Stamp the parent's tool call with the task it started.
    ParentTaskMetadata { tool_call_id: String, raw_input: Json },
    /// Send this session notification on the parent session.
    ParentLifecycle(Json),
    /// Forward an update to the child session.
    ChildUpdate { child_session_id: String, update: ChildUpdate },
    /// A replay requested by the adapter is complete.
    ReplayComplete { request_id: String },
}

pub enum OpV {
    ParentTaskMetadata { tool_call_id: Seq<char>, raw_input: JsonView },
    ParentLifecycle(JsonView),
    ChildUpdate { child_session_id: Seq<char>, update: ChildV },
    ReplayComplete { request_id: Seq<char> },
}

impl View for BridgeOperation {
    type V = OpV;

    open spec fn view(&self) -> OpV {
        match self {
            BridgeOperation::ParentTaskMetadata { tool_call_id, raw_input } =>
                OpV::ParentTaskMetadata { tool_call_id: tool_call_id@, raw_input: jv(*raw_input) },
            BridgeOperation::ParentLifecycle(j) => OpV::ParentLifecycle(jv(*j)),
            BridgeOperation::ChildUpdate { child_session_id, update } => OpV::ChildUpdate {
                child_session_id: child_session_id@,
                update: update@,
            },
            BridgeOperation::ReplayComplete { request_id } => OpV::ReplayComplete {
                request_id: request_id@,
            },
        }
    }
}

/// A parsed bridge event.
#[derive(Debug, PartialEq)]
pub struct BridgeProjection {
    pub sequence: u64,
    pub replay: bool,
    pub kind: String,
    pub subagent_id: String,
    pub child_session_id: String,
    pub operations: Vec<BridgeOperation>,
}

pub struct ProjV {
    pub sequence: u64,
    pub replay: bool,
    pub kind: Seq<char>,
    pub subagent_id: Seq<char>,
    pub child_session_id: Seq<char>,
    pub operations: Seq<OpV>,
}

pub open spec fn ops_view(ops: Seq<BridgeOperation>) -> Seq<OpV> {
    ops.map_values(|o: BridgeOperation| o@)
}

impl View for BridgeProjection {
    type V = ProjV;

    open spec fn view(&self) -> ProjV {
        ProjV {
            sequence: self.sequence,
            replay: self.replay,
            kind: self.kind@,
            subagent_id: self.subagent_id@,
            child_session_id: self.child_session_id@,
            operations: ops_view(self.operations@),
        }
    }
}

/// The message of an event: `message`, else `entry`, else the event itself.
pub open spec fn candidate_v(event: JsonView) -> JsonView {
    match vget(event, "message"@) {
        Some(m) => m,
        None => match vget(event, "entry"@) {
            Some(e) => e,
            None => event,
        },
    }
}

/// Where a bridge message keeps its details: `details` for a custom message,
/// `data` for a custom entry; `None` for anything that is not bridge traffic.
pub open spec fn details_key_v(m: JsonView) -> Option<Seq<char>> {
    if vstr(vget(m, "customType"@)) != Some(BRIDGE_TYPE@) {
        None
    } else if vstr(vget(m, "role"@)) == Some("custom"@) {
        Some("details"@)
    } else if vstr(vget(m, "type"@)) == Some("custom"@) {
        Some("data"@)
    } else {
        None
    }
}

pub open spec fn bridge_details_v(event: JsonView) -> Result<Option<JsonView>, ErrV> {
    let m = candidate_v(event);
    match details_key_v(m) {
        None => Ok(None),
        Some(k) => match vget(m, k) {
            Some(d) => Ok(Some(d)),
            None => Err(ErrV::MissingDetails(k)),
        },
    }
}

/// The parent session a bridge event names.
pub open spec fn parent_session_id_v(event: JsonView) -> Result<Option<Seq<char>>, ErrV> {
    match bridge_details_v(event) {
        Err(e) => Err(e),
        Ok(None) => Ok(None),
        Ok(Some(d)) => match vstr(vget(d, "parentSessionId"@)) {
            Some(p) => Ok(Some(p)),
            None => Err(ErrV::Required("parentSessionId"@)),
        },
    }
}

pub open spec fn req_str_v(v: JsonView, key: Seq<char>) -> Result<Seq<char>, ErrV> {
    match vstr(vget(v, key)) {
        Some(s) => Ok(s),
        None => Err(ErrV::Required(key)),
    }
}

pub open spec fn payload_str_v(p: JsonView, key: Seq<char>) -> Result<Seq<char>, ErrV> {
    match vstr(vget(p, key)) {
        Some(s) => Ok(s),
        None => Err(ErrV::PayloadRequired(key)),
    }
}

pub open spec fn payload_u64_v(p: JsonView, key: Seq<char>) -> Result<u64, ErrV> {
    match vu64(vget(p, key)) {
        Some(n) => Ok(n),
        None => Err(ErrV::PayloadRequired(key)),
    }
}

pub open spec fn u64_or_zero_v(p: JsonView, key: Seq<char>) -> u64 {
    match vu64(vget(p, key)) {
        Some(n) => n,
        None => 0,
    }
}

pub open spec fn flag_v(p: JsonView, key: Seq<char>) -> bool {
    vbool(vget(p, key)) == Some(true)
}

/// A member that is present and not null.
pub open spec fn present_v(p: JsonView, key: Seq<char>) -> Option<JsonView> {
    match vget(p, key) {
        Some(JsonView::Null) => None,
        other => other,
    }
}

/// Copy a present member `source` of the payload to `target`.
pub open spec fn copy_present_v(
    f: Seq<(Seq<char>, JsonView)>,
    p: JsonView,
    source: Seq<char>,
    target: Seq<char>,
) -> Seq<(Seq<char>, JsonView)> {
    match present_v(p, source) {
        Some(v) => vset(f, target, v),
        None => f,
    }
}

pub open spec fn uint(n: u64) -> JsonView {
    JsonView::Int(n as i128)
}

/// The id of a lifecycle event: `pi-grok-subagent:<subagent>:<sequence>`.
pub open spec fn event_id_v(subagent_id: Seq<char>, sequence: u64) -> Seq<char> {
    "pi-grok-subagent:"@ + subagent_id + ":"@ + decimal(sequence as nat)
}

/// The `_meta` of a lifecycle envelope.
pub open spec fn meta_v(replay: bool, subagent_id: Seq<char>, sequence: u64) -> Seq<
    (Seq<char>, JsonView),
> {
    seq![
        ("isReplay"@, JsonView::Bool(replay)),
        ("eventId"@, JsonView::Str(event_id_v(subagent_id, sequence))),
    ]
}

/// A session notification on `session_id` with `update` and `_meta`.
pub open spec fn envelope_v(session_id: Seq<char>, update: JsonView, meta: Seq<(Seq<char>, JsonView)>) -> JsonView {
    JsonView::Object(
        seq![
            ("sessionId"@, JsonView::Str(session_id)),
            ("update"@, update),
            ("_meta"@, JsonView::Object(meta)),
        ],
    )
}

pub open spec fn spawned_v(
    root: Seq<char>,
    payload: JsonView,
    replay: bool,
    sid: Seq<char>,
    cid: Seq<char>,
    sequence: u64,
) -> Result<Seq<OpV>, ErrV> {
    match payload_str_v(payload, "parentToolCallId"@) {
        Err(e) => Err(e),
        Ok(ptc) => match payload_str_v(payload, "description"@) {
            Err(e) => Err(e),
            Ok(desc) => match payload_str_v(payload, "subagentType"@) {
                Err(e) => Err(e),
                Ok(st) => {
                    let background = flag_v(payload, "background"@);
                    let base = seq![
                        ("sessionUpdate"@, JsonView::Str("subagent_spawned"@)),
                        ("subagent_id"@, JsonView::Str(sid)),
                        ("parent_session_id"@, JsonView::Str(root)),
                        ("child_session_id"@, JsonView::Str(cid)),
                        ("subagent_type"@, JsonView::Str(st)),
                        ("description"@, JsonView::Str(desc)),
                    ];
                    let u = copy_present_v(
                        copy_present_v(
                            copy_present_v(
                                copy_present_v(base, payload, "capabilityMode"@, "capability_mode"@),
                                payload,
                                "persona"@,
                                "persona"@,
                            ),
                            payload,
                            "role"@,
                            "role"@,
                        ),
                        payload,
                        "model"@,
                        "model"@,
                    );
                    let meta = meta_v(replay, sid, sequence).push(
                        ("subagentBackground"@, JsonView::Bool(background)),
                    );
                    Ok(
                        seq![
                            OpV::ParentTaskMetadata {
                                tool_call_id: ptc,
                                raw_input: JsonView::Object(
                                    seq![
                                        ("variant"@, JsonView::Str("Task"@)),
                                        ("task_id"@, JsonView::Str(sid)),
                                        ("run_in_background"@, JsonView::Bool(background)),
                                        ("reconcile"@, JsonView::Bool(flag_v(payload, "reconcile"@))),
                                    ],
                                ),
                            },
                            OpV::ParentLifecycle(envelope_v(root, JsonView::Object(u), meta)),
                        ],
                    )
                },
            },
        },
    }
}

pub open spec fn progress_v(
    root: Seq<char>,
    payload: JsonView,
    replay: bool,
    sid: Seq<char>,
    cid: Seq<char>,
    sequence: u64,
) -> Result<Seq<OpV>, ErrV> {
    match payload_u64_v(payload, "durationMs"@) {
        Err(e) => Err(e),
        Ok(duration) => match payload_u64_v(payload, "turnCount"@) {
            Err(e) => Err(e),
            Ok(turns) => match payload_u64_v(payload, "toolCallCount"@) {
                Err(e) => Err(e),
                Ok(tool_calls) => match payload_u64_v(payload, "errorCount"@) {
                    Err(e) => Err(e),
                    Ok(errors) => {
                        let u = seq![
                            ("sessionUpdate"@, JsonView::Str("subagent_progress"@)),
                            ("subagent_id"@, JsonView::Str(sid)),
                            ("parent_session_id"@, JsonView::Str(root)),
                            ("child_session_id"@, JsonView::Str(cid)),
                            ("duration_ms"@, uint(duration)),
                            ("turn_count"@, uint(turns)),
                            ("tool_call_count"@, uint(tool_calls)),
                            ("tokens_used"@, uint(u64_or_zero_v(payload, "tokensUsed"@))),
                            (
                                "context_window_tokens"@,
                                uint(u64_or_zero_v(payload, "contextWindowTokens"@)),
                            ),
                            ("context_usage_pct"@, uint(u64_or_zero_v(payload, "contextUsagePct"@))),
                            (
                                "tools_used"@,
                                match vget(payload, "toolsUsed"@) {
                                    Some(v) => v,
                                    None => JsonView::Array(Seq::empty()),
                                },
                            ),
                            ("error_count"@, uint(errors)),
                        ];
                        Ok(
                            seq![
                                OpV::ParentLifecycle(
                                    envelope_v(
                                        root,
                                        JsonView::Object(u),
                                        meta_v(replay, sid, sequence),
                                    ),
                                ),
                            ],
                        )
                    },
                },
            },
        },
    }
}

pub open spec fn terminal_status(s: Seq<char>) -> bool {
    s == "completed"@ || s == "failed"@ || s == "cancelled"@
}

pub open spec fn finished_v(
    root: Seq<char>,
    payload: JsonView,
    replay: bool,
    sid: Seq<char>,
    cid: Seq<char>,
    sequence: u64,
) -> Result<Seq<OpV>, ErrV> {
    match payload_str_v(payload, "status"@) {
        Err(e) => Err(e),
        Ok(status) => if !terminal_status(status) {
            Err(ErrV::InvalidStatus(status))
        } else {
            match payload_u64_v(payload, "toolCalls"@) {
                Err(e) => Err(e),
                Ok(tool_calls) => match payload_u64_v(payload, "turns"@) {
                    Err(e) => Err(e),
                    Ok(turns) => match payload_u64_v(payload, "durationMs"@) {
                        Err(e) => Err(e),
                        Ok(duration) => {
                            let base = seq![
                                ("sessionUpdate"@, JsonView::Str("subagent_finished"@)),
                                ("subagent_id"@, JsonView::Str(sid)),
                                ("child_session_id"@, JsonView::Str(cid)),
                                ("status"@, JsonView::Str(status)),
                                ("tool_calls"@, uint(tool_calls)),
                                ("turns"@, uint(turns)),
                                ("duration_ms"@, uint(duration)),
                                ("tokens_used"@, uint(u64_or_zero_v(payload, "tokensUsed"@))),
                                ("will_wake"@, JsonView::Bool(false)),
                            ];
                            let u = copy_present_v(
                                copy_present_v(base, payload, "error"@, "error"@),
                                payload,
                                "output"@,
                                "output"@,
                            );
                            Ok(
                                seq![
                                    OpV::ParentLifecycle(
                                        envelope_v(
                                            root,
                                            JsonView::Object(u),
                                            meta_v(replay, sid, sequence),
                                        ),
                                    ),
                                ],
                            )
                        },
                    },
                },
            }
        },
    }
}

/// A present value, else `null`.
pub open spec fn or_null(v: Option<JsonView>) -> JsonView {
    match v {
        Some(x) => x,
        None => JsonView::Null,
    }
}

/// What a tool call shows as it starts: the diffs of an edit tool's call,
/// else nothing.
pub open spec fn call_content_v(name: Seq<char>, args: Option<JsonView>) -> Seq<ToolContentV> {
    match edit_diff_content_v(name, args, None) {
        Some(d) => diff_blocks_v(d),
        None => Seq::empty(),
    }
}

/// What a tool update shows: the text of its partial result, except on an
/// edit tool's card.
pub open spec fn update_content_v(name: Seq<char>, partial: JsonView) -> Option<Seq<ToolContentV>> {
    if tool_kind_v(name) == ToolKind::Edit {
        None
    } else {
        Some(tool_content_v(partial))
    }
}

/// What a tool result shows: an edit tool's diffs, placed by the result's
/// patch; the text of the result for any other tool.
pub open spec fn result_content_v(
    name: Seq<char>,
    args: Option<JsonView>,
    result: JsonView,
) -> Option<Seq<ToolContentV>> {
    if tool_kind_v(name) == ToolKind::Edit {
        match edit_diff_content_v(name, args, Some(result)) {
            Some(d) => Some(diff_blocks_v(d)),
            None => None,
        }
    } else {
        Some(tool_content_v(result))
    }
}

/// A child-session update: chat chunks and tool lifecycle events. A tool
/// call is shown on the card of its tool and is in progress; so is a tool
/// update; a tool result has failed when its `isError` is `true`, and has
/// completed otherwise.
pub open spec fn child_v(value: Option<JsonView>) -> Result<ChildV, ErrV> {
    match value {
        Some(JsonView::Object(f)) => {
            let u = JsonView::Object(f);
            match payload_str_v(u, "type"@) {
                Err(e) => Err(e),
                Ok(t) => if t == "user"@ {
                    match payload_str_v(u, "text"@) {
                        Err(e) => Err(e),
                        Ok(text) => Ok(ChildV::UserMessageChunk(text)),
                    }
                } else if t == "assistant_delta"@ {
                    match payload_str_v(u, "text"@) {
                        Err(e) => Err(e),
                        Ok(text) => Ok(ChildV::AgentMessageChunk(text)),
                    }
                } else if t == "thinking_delta"@ {
                    match payload_str_v(u, "text"@) {
                        Err(e) => Err(e),
                        Ok(text) => Ok(ChildV::AgentThoughtChunk(text)),
                    }
                } else if t == "tool_call"@ {
                    match payload_str_v(u, "toolCallId"@) {
                        Err(e) => Err(e),
                        Ok(id) => match payload_str_v(u, "toolName"@) {
                            Err(e) => Err(e),
                            Ok(name) => {
                                let args = normalize_v(name, vget(u, "args"@));
                                Ok(
                                    ChildV::ToolCall {
                                        id,
                                        name,
                                        kind: tool_kind_v(name),
                                        status: ToolStatus::InProgress,
                                        args,
                                        content: call_content_v(name, args),
                                    },
                                )
                            },
                        },
                    }
                } else if t == "tool_update"@ {
                    match payload_str_v(u, "toolName"@) {
                        Err(e) => Err(e),
                        Ok(name) => match payload_str_v(u, "toolCallId"@) {
                            Err(e) => Err(e),
                            Ok(id) => {
                                let args = normalize_v(name, vget(u, "args"@));
                                let partial = or_null(vget(u, "partialResult"@));
                                Ok(
                                    ChildV::ToolUpdate {
                                        id,
                                        name,
                                        kind: tool_kind_v(name),
                                        status: ToolStatus::InProgress,
                                        args,
                                        partial_result: partial,
                                        content: update_content_v(name, partial),
                                        raw_output: raw_output_v(name, args, partial, false),
                                    },
                                )
                            },
                        },
                    }
                } else if t == "tool_result"@ {
                    match payload_str_v(u, "toolName"@) {
                        Err(e) => Err(e),
                        Ok(name) => match payload_str_v(u, "toolCallId"@) {
                            Err(e) => Err(e),
                            Ok(id) => {
                                let args = normalize_v(name, vget(u, "args"@));
                                let result = or_null(vget(u, "result"@));
                                let is_error = flag_v(u, "isError"@);
                                Ok(
                                    ChildV::ToolResult {
                                        id,
                                        name,
                                        kind: tool_kind_v(name),
                                        status: if is_error {
                                            ToolStatus::Failed
                                        } else {
                                            ToolStatus::Completed
                                        },
                                        args,
                                        result,
                                        is_error,
                                        content: result_content_v(name, args, result),
                                        raw_output: raw_output_v(name, args, result, is_error),
                                    },
                                )
                            },
                        },
                    }
                } else {
                    Err(ErrV::UnknownChildUpdate(t))
                },
            }
        },
        _ => Err(ErrV::ChildUpdateNotObject),
    }
}

pub open spec fn ops_of_kind_v(
    kind: Seq<char>,
    root: Seq<char>,
    payload: JsonView,
    replay: bool,
    sid: Seq<char>,
    cid: Seq<char>,
    sequence: u64,
) -> Result<Seq<OpV>, ErrV> {
    if kind == "spawned"@ {
        spawned_v(root, payload, replay, sid, cid, sequence)
    } else if kind == "progress"@ {
        progress_v(root, payload, replay, sid, cid, sequence)
    } else if kind == "finished"@ {
        finished_v(root, payload, replay, sid, cid, sequence)
    } else if kind == "child_update"@ {
        match child_v(vget(payload, "update"@)) {
            Err(e) => Err(e),
            Ok(u) => Ok(seq![OpV::ChildUpdate { child_session_id: cid, update: u }]),
        }
    } else if kind == "replay_complete"@ {
        match payload_str_v(payload, "requestId"@) {
            Err(e) => Err(e),
            Ok(r) => Ok(seq![OpV::ReplayComplete { request_id: r }]),
        }
    } else {
        Err(ErrV::UnknownEvent(kind))
    }
}

/// A bridge event: `Ok(None)` for other traffic, an error for malformed
/// bridge traffic or one that names another parent session, else the
/// projection.
pub open spec fn bridge_v(event: JsonView, root: Seq<char>) -> Result<Option<ProjV>, ErrV> {
    match bridge_details_v(event) {
        Err(e) => Err(e),
        Ok(None) => Ok(None),
        Ok(Some(d)) => if vu64(vget(d, "version"@)) != Some(1u64) {
            Err(ErrV::UnsupportedVersion)
        } else {
            match vu64(vget(d, "sequence"@)) {
                None => Err(ErrV::Required("sequence"@)),
                Some(sequence) => {
                    let replay = flag_v(d, "replay"@);
                    match vstr(vget(d, "parentSessionId"@)) {
                        None => Err(ErrV::Required("parentSessionId"@)),
                        Some(parent) => if parent != root {
                            Err(ErrV::ParentMismatch)
                        } else {
                            match req_str_v(d, "subagentId"@) {
                                Err(e) => Err(e),
                                Ok(sid) => match req_str_v(d, "childSessionId"@) {
                                    Err(e) => Err(e),
                                    Ok(cid) => match vget(d, "payload"@) {
                                        Some(JsonView::Object(pf)) => match req_str_v(d, "kind"@) {
                                            Err(e) => Err(e),
                                            Ok(kind) => match ops_of_kind_v(
                                                kind,
                                                root,
                                                JsonView::Object(pf),
                                                replay,
                                                sid,
                                                cid,
                                                sequence,
                                            ) {
                                                Err(e) => Err(e),
                                                Ok(ops) => Ok(
                                                    Some(
                                                        ProjV {
                                                            sequence,
                                                            replay,
                                                            kind,
                                                            subagent_id: sid,
                                                            child_session_id: cid,
                                                            operations: ops,
                                                        },
                                                    ),
                                                ),
                                            },
                                        },
                                        _ => Err(ErrV::PayloadNotObject),
                                    },
                                },
                            }
                        },
                    }
                },
            }
        },
    }
}


fn bridge_candidate(event: &Json) -> (r: &Json)
    ensures
        jv(*r) == candidate_v(jv(*event)),
{
    match field(event, "message") {
        Some(m) => m,
        None => match field(event, "entry") {
            Some(e) => e,
            None => event,
        },
    }
}

fn bridge_details(event: &Json) -> (r: Result<Option<&Json>, BridgeError>)
    ensures
        match r {
            Ok(Some(d)) => bridge_details_v(jv(*event)) == Ok::<Option<JsonView>, ErrV>(Some(jv(*d))),
            Ok(None) => bridge_details_v(jv(*event)) == Ok::<Option<JsonView>, ErrV>(None),
            Err(e) => bridge_details_v(jv(*event)) == Err::<Option<JsonView>, ErrV>(e@),
        },
{
    let message = bridge_candidate(event);
    let is_bridge = match field_str(message, "customType") {
        Some(t) => str_eq(t, BRIDGE_TYPE),
        None => false,
    };
    if !is_bridge {
        return Ok(None);
    }
    let role_custom = match field_str(message, "role") {
        Some(t) => str_eq(t, "custom"),
        None => false,
    };
    let type_custom = match field_str(message, "type") {
        Some(t) => str_eq(t, "custom"),
        None => false,
    };
    let key = if role_custom {
        "details"
    } else if type_custom {
        "data"
    } else {
        return Ok(None);
    };
    match field(message, key) {
        Some(d) => Ok(Some(d)),
        None => Err(BridgeError::MissingDetails(key.to_owned())),
    }
}

/// The parent session a bridge event names; `Ok(None)` for other traffic.
pub fn bridge_parent_session_id(event: &Json) -> (r: Result<Option<&str>, BridgeError>)
    ensures
        match r {
            Ok(Some(p)) => parent_session_id_v(jv(*event)) == Ok::<Option<Seq<char>>, ErrV>(Some(p@)),
            Ok(None) => parent_session_id_v(jv(*event)) == Ok::<Option<Seq<char>>, ErrV>(None),
            Err(e) => parent_session_id_v(jv(*event)) == Err::<Option<Seq<char>>, ErrV>(e@),
        },
{
    let details = match bridge_details(event) {
        Err(e) => {
            return Err(e);
        },
        Ok(None) => {
            return Ok(None);
        },
        Ok(Some(d)) => d,
    };
    match field_str(details, "parentSessionId") {
        Some(p) => Ok(Some(p)),
        None => Err(BridgeError::Required("parentSessionId".to_owned())),
    }
}

fn required_str<'a>(value: &'a Json, key: &str) -> (r: Result<&'a str, BridgeError>)
    ensures
        match r {
            Ok(s) => req_str_v(jv(*value), key@) == Ok::<Seq<char>, ErrV>(s@),
            Err(e) => req_str_v(jv(*value), key@) == Err::<Seq<char>, ErrV>(e@),
        },
{
    match field_str(value, key) {
        Some(s) => Ok(s),
        None => Err(BridgeError::Required(key.to_owned())),
    }
}

fn required_str_value<'a>(payload: &'a Json, key: &str) -> (r: Result<&'a str, BridgeError>)
    ensures
        match r {
            Ok(s) => payload_str_v(jv(*payload), key@) == Ok::<Seq<char>, ErrV>(s@),
            Err(e) => payload_str_v(jv(*payload), key@) == Err::<Seq<char>, ErrV>(e@),
        },
{
    match field_str(payload, key) {
        Some(s) => Ok(s),
        None => Err(BridgeError::PayloadRequired(key.to_owned())),
    }
}

fn required_u64_value(payload: &Json, key: &str) -> (r: Result<u64, BridgeError>)
    ensures
        match r {
            Ok(n) => payload_u64_v(jv(*payload), key@) == Ok::<u64, ErrV>(n),
            Err(e) => payload_u64_v(jv(*payload), key@) == Err::<u64, ErrV>(e@),
        },
{
    match field_u64(payload, key) {
        Some(n) => Ok(n),
        None => Err(BridgeError::PayloadRequired(key.to_owned())),
    }
}

fn u64_or_zero(payload: &Json, key: &str) -> (r: u64)
    ensures
        r == u64_or_zero_v(jv(*payload), key@),
{
    match field_u64(payload, key) {
        Some(n) => n,
        None => 0,
    }
}

fn flag(payload: &Json, key: &str) -> (r: bool)
    ensures
        r == flag_v(jv(*payload), key@),
{
    match field_bool(payload, key) {
        Some(b) => b,
        None => false,
    }
}

fn uint_json(n: u64) -> (r: Json)
    ensures
        jv(r) == uint(n),
{
    Json::Int(n as i128)
}

/// Copy the payload member `source` to `target` when it is present and not
/// null.
fn copy_present(update: &mut Vec<(String, Json)>, payload: &Json, source: &str, target: &str)
    ensures
        members_view(final(update)@) == copy_present_v(
            members_view(old(update)@),
            jv(*payload),
            source@,
            target@,
        ),
{
    match field(payload, source) {
        Some(v) => match v {
            Json::Null => {},
            _ => {
                let c = v.deep_clone();
                crate::json::set_member(update, target, c);
                proof {
                    crate::json::lemma_member_set_view(old(update)@, target@, update@, c);
                }
            },
        },
        None => {},
    }
}

fn meta_members(replay: bool, subagent_id: &str, sequence: u64) -> (r: Vec<(String, Json)>)
    ensures
        members_view(r@) == meta_v(replay, subagent_id@, sequence),
{
    let mut event_id = "pi-grok-subagent:".to_owned();
    event_id.append(subagent_id);
    event_id.append(":");
    push_decimal(&mut event_id, sequence);
    assert(event_id@ =~= event_id_v(subagent_id@, sequence));
    let r = vec![
        ("isReplay".to_owned(), Json::Bool(replay)),
        ("eventId".to_owned(), Json::Str(event_id)),
    ];
    assert(members_view(r@) =~= meta_v(replay, subagent_id@, sequence));
    r
}

fn envelope_with_meta(session_id: &str, update: Json, meta: Vec<(String, Json)>) -> (r: Json)
    ensures
        jv(r) == envelope_v(session_id@, jv(update), members_view(meta@)),
{
    let ghost uv = jv(update);
    let m = jobj(meta);
    let f = vec![
        ("sessionId".to_owned(), jstr(session_id)),
        ("update".to_owned(), update),
        ("_meta".to_owned(), m),
    ];
    let ghost fv = members_view(f@);
    let r = jobj(f);
    assert(fv =~= envelope_v(session_id@, uv, members_view(meta@))->Object_0);
    r
}

/// A lifecycle notification on the parent session: `update` with the replay
/// flag and the event id `pi-grok-subagent:<subagent>:<sequence>`.
pub fn session_update_envelope(
    session_id: &str,
    update: Json,
    replay: bool,
    subagent_id: &str,
    sequence: u64,
) -> (r: Json)
    ensures
        jv(r) == envelope_v(session_id@, jv(update), meta_v(replay, subagent_id@, sequence)),
{
    envelope_with_meta(session_id, update, meta_members(replay, subagent_id, sequence))
}

fn args_of(u: &Json, name: &str) -> (r: Option<Json>)
    ensures
        ojv(r) == normalize_v(name@, vget(jv(*u), "args"@)),
{
    let raw = match field(u, "args") {
        Some(a) => Some(a.deep_clone()),
        None => None,
    };
    normalize_tool_raw_input(name, raw)
}

fn member_or_null(u: &Json, key: &str) -> (r: Json)
    ensures
        jv(r) == (match vget(jv(*u), key@) {
            Some(v) => v,
            None => JsonView::Null,
        }),
{
    match field(u, key) {
        Some(v) => v.deep_clone(),
        None => Json::Null,
    }
}

/// Parse the update a `child_update` event forwards to the child session.
fn opt_ref(a: &Option<Json>) -> (r: Option<&Json>)
    ensures
        crate::json::opt_json_view(r) == ojv(*a),
{
    match a {
        Some(j) => Some(j),
        None => None,
    }
}

pub fn parse_child_update(value: Option<&Json>) -> (r: Result<ChildUpdate, BridgeError>)
    ensures
        match r {
            Ok(c) => child_v(crate::json::opt_json_view(value)) == Ok::<ChildV, ErrV>(c@),
            Err(e) => child_v(crate::json::opt_json_view(value)) == Err::<ChildV, ErrV>(e@),
        },
{
    let u = match value {
        Some(u) => match u {
            Json::Object(_) => u,
            _ => {
                return Err(BridgeError::ChildUpdateNotObject);
            },
        },
        None => {
            return Err(BridgeError::ChildUpdateNotObject);
        },
    };
    let t = match required_str_value(u, "type") {
        Ok(t) => t,
        Err(e) => {
            return Err(e);
        },
    };
    if str_eq(t, "user") || str_eq(t, "assistant_delta") || str_eq(t, "thinking_delta") {
        let text = match required_str_value(u, "text") {
            Ok(x) => x.to_owned(),
            Err(e) => {
                return Err(e);
            },
        };
        if str_eq(t, "user") {
            Ok(ChildUpdate::UserMessageChunk(text))
        } else if str_eq(t, "assistant_delta") {
            Ok(ChildUpdate::AgentMessageChunk(text))
        } else {
            Ok(ChildUpdate::AgentThoughtChunk(text))
        }
    } else if str_eq(t, "tool_call") {
        let id = match required_str_value(u, "toolCallId") {
            Ok(x) => x,
            Err(e) => {
                return Err(e);
            },
        };
        let name = match required_str_value(u, "toolName") {
            Ok(x) => x,
            Err(e) => {
                return Err(e);
            },
        };
        let args = args_of(u, name);
        let content = match edit_diff_content(name, opt_ref(&args), None) {
            Some(d) => diff_blocks(d),
            None => Vec::new(),
        };
        proof {
            if edit_diff_content_v(name@, ojv(args), None) is None {
                assert(blocks_view(content@) =~= Seq::<ToolContentV>::empty());
            }
        }
        Ok(
            ChildUpdate::ToolCall {
                id: id.to_owned(),
                name: name.to_owned(),
                kind: tool_kind(name),
                status: ToolStatus::InProgress,
                args,
                content,
            },
        )
    } else if str_eq(t, "tool_update") || str_eq(t, "tool_result") {
        let name = match required_str_value(u, "toolName") {
            Ok(x) => x,
            Err(e) => {
                return Err(e);
            },
        };
        let args = args_of(u, name);
        let is_update = str_eq(t, "tool_update");
        let result = if is_update {
            member_or_null(u, "partialResult")
        } else {
            member_or_null(u, "result")
        };
        let is_error = !is_update && flag(u, "isError");
        let id = match required_str_value(u, "toolCallId") {
            Ok(x) => x.to_owned(),
            Err(e) => {
                return Err(e);
            },
        };
        let kind = tool_kind(name);
        let content = match kind {
            ToolKind::Edit => if is_update {
                None
            } else {
                match edit_diff_content(name, opt_ref(&args), Some(&result)) {
                    Some(d) => Some(diff_blocks(d)),
                    None => None,
                }
            },
            _ => Some(tool_content(&result)),
        };
        let raw_output = normalize_tool_raw_output(name, opt_ref(&args), &result, is_error);
        if is_update {
            Ok(
                ChildUpdate::ToolUpdate {
                    id,
                    name: name.to_owned(),
                    kind,
                    status: ToolStatus::InProgress,
                    args,
                    partial_result: result,
                    content,
                    raw_output,
                },
            )
        } else {
            let status = if is_error {
                ToolStatus::Failed
            } else {
                ToolStatus::Completed
            };
            Ok(
                ChildUpdate::ToolResult {
                    id,
                    name: name.to_owned(),
                    kind,
                    status,
                    args,
                    result,
                    is_error,
                    content,
                    raw_output,
                },
            )
        }
    } else {
        Err(BridgeError::UnknownChildUpdate(t.to_owned()))
    }
}


pub open spec fn ops_result_ok(r: Result<Vec<BridgeOperation>, BridgeError>, want: Result<Seq<OpV>, ErrV>) -> bool {
    match r {
        Ok(ops) => want == Ok::<Seq<OpV>, ErrV>(ops_view(ops@)),
        Err(e) => want == Err::<Seq<OpV>, ErrV>(e@),
    }
}

fn spawned_ops(
    root: &str,
    payload: &Json,
    replay: bool,
    sid: &str,
    cid: &str,
    sequence: u64,
) -> (r: Result<Vec<BridgeOperation>, BridgeError>)
    ensures
        ops_result_ok(r, spawned_v(root@, jv(*payload), replay, sid@, cid@, sequence)),
{
    let ptc = match required_str_value(payload, "parentToolCallId") {
        Ok(x) => x.to_owned(),
        Err(e) => {
            return Err(e);
        },
    };
    let background = flag(payload, "background");
    let desc = match required_str_value(payload, "description") {
        Ok(x) => x,
        Err(e) => {
            return Err(e);
        },
    };
    let st = match required_str_value(payload, "subagentType") {
        Ok(x) => x,
        Err(e) => {
            return Err(e);
        },
    };
    let mut update = vec![
        ("sessionUpdate".to_owned(), jstr("subagent_spawned")),
        ("subagent_id".to_owned(), jstr(sid)),
        ("parent_session_id".to_owned(), jstr(root)),
        ("child_session_id".to_owned(), jstr(cid)),
        ("subagent_type".to_owned(), jstr(st)),
        ("description".to_owned(), jstr(desc)),
    ];
    let ghost base = members_view(update@);
    proof {
        let want = seq![
            ("sessionUpdate"@, JsonView::Str("subagent_spawned"@)),
            ("subagent_id"@, JsonView::Str(sid@)),
            ("parent_session_id"@, JsonView::Str(root@)),
            ("child_session_id"@, JsonView::Str(cid@)),
            ("subagent_type"@, JsonView::Str(st@)),
            ("description"@, JsonView::Str(desc@)),
        ];
        assert(base =~= want);
    }
    copy_present(&mut update, payload, "capabilityMode", "capability_mode");
    copy_present(&mut update, payload, "persona", "persona");
    copy_present(&mut update, payload, "role", "role");
    copy_present(&mut update, payload, "model", "model");
    let ghost uv = members_view(update@);
    let u = jobj(update);
    let mut meta = meta_members(replay, sid, sequence);
    meta.push(("subagentBackground".to_owned(), Json::Bool(background)));
    proof {
        assert(members_view(meta@) =~= meta_v(replay, sid@, sequence).push(
            ("subagentBackground"@, JsonView::Bool(background)),
        ));
    }
    let lifecycle = envelope_with_meta(root, u, meta);
    let raw = vec![
        ("variant".to_owned(), jstr("Task")),
        ("task_id".to_owned(), jstr(sid)),
        ("run_in_background".to_owned(), Json::Bool(background)),
        ("reconcile".to_owned(), Json::Bool(flag(payload, "reconcile"))),
    ];
    let ghost rv = members_view(raw@);
    let raw_input = jobj(raw);
    let ops = vec![
        BridgeOperation::ParentTaskMetadata { tool_call_id: ptc, raw_input },
        BridgeOperation::ParentLifecycle(lifecycle),
    ];
    proof {
        let want = spawned_v(root@, jv(*payload), replay, sid@, cid@, sequence)->Ok_0;
        assert(rv =~= want[0]->ParentTaskMetadata_raw_input->Object_0);
        assert(ops_view(ops@) =~= want);
    }
    Ok(ops)
}

fn progress_ops(
    root: &str,
    payload: &Json,
    replay: bool,
    sid: &str,
    cid: &str,
    sequence: u64,
) -> (r: Result<Vec<BridgeOperation>, BridgeError>)
    ensures
        ops_result_ok(r, progress_v(root@, jv(*payload), replay, sid@, cid@, sequence)),
{
    let duration = match required_u64_value(payload, "durationMs") {
        Ok(n) => n,
        Err(e) => {
            return Err(e);
        },
    };
    let turns = match required_u64_value(payload, "turnCount") {
        Ok(n) => n,
        Err(e) => {
            return Err(e);
        },
    };
    let tool_calls = match required_u64_value(payload, "toolCallCount") {
        Ok(n) => n,
        Err(e) => {
            return Err(e);
        },
    };
    let tools_used = match field(payload, "toolsUsed") {
        Some(v) => v.deep_clone(),
        None => {
            let empty: Vec<Json> = Vec::new();
            proof {
                crate::json::lemma_array_view(empty);
                assert(crate::json::items_view(empty@) =~= Seq::<JsonView>::empty());
            }
            Json::Array(empty)
        },
    };
    let errors = match required_u64_value(payload, "errorCount") {
        Ok(n) => n,
        Err(e) => {
            return Err(e);
        },
    };
    let update = vec![
        ("sessionUpdate".to_owned(), jstr("subagent_progress")),
        ("subagent_id".to_owned(), jstr(sid)),
        ("parent_session_id".to_owned(), jstr(root)),
        ("child_session_id".to_owned(), jstr(cid)),
        ("duration_ms".to_owned(), uint_json(duration)),
        ("turn_count".to_owned(), uint_json(turns)),
        ("tool_call_count".to_owned(), uint_json(tool_calls)),
        ("tokens_used".to_owned(), uint_json(u64_or_zero(payload, "tokensUsed"))),
        ("context_window_tokens".to_owned(), uint_json(u64_or_zero(payload, "contextWindowTokens"))),
        ("context_usage_pct".to_owned(), uint_json(u64_or_zero(payload, "contextUsagePct"))),
        ("tools_used".to_owned(), tools_used),
        ("error_count".to_owned(), uint_json(errors)),
    ];
    let ghost uv = members_view(update@);
    let u = jobj(update);
    let lifecycle = session_update_envelope(root, u, replay, sid, sequence);
    let ops = vec![BridgeOperation::ParentLifecycle(lifecycle)];
    proof {
        let want = progress_v(root@, jv(*payload), replay, sid@, cid@, sequence)->Ok_0;
        let wu = want[0]->ParentLifecycle_0->Object_0[1].1->Object_0;
        assert(uv =~= wu);
        assert(ops_view(ops@) =~= want);
    }
    Ok(ops)
}

/// The update of a projection that is a single lifecycle notification.
pub open spec fn sole_lifecycle_update(ops: Seq<OpV>) -> Option<JsonView> {
    if ops.len() == 1 {
        match ops[0] {
            OpV::ParentLifecycle(env) => vget(env, "update"@),
            _ => None,
        }
    } else {
        None
    }
}

/// A projection that is one lifecycle notification on the parent session
/// `root`: a `subagent_finished` update of subagent `sid` and child session
/// `cid` with status `s`, the payload's tool call and turn counts, duration
/// and tokens used (0 when absent), and no wake-up.
pub open spec fn reports_finish(
    r: Result<Seq<OpV>, ErrV>,
    s: Seq<char>,
    payload: JsonView,
    root: Seq<char>,
    sid: Seq<char>,
    cid: Seq<char>,
) -> bool {
    match r {
        Ok(ops) => match sole_lifecycle_update(ops) {
            Some(u) => {
                &&& ops[0] matches OpV::ParentLifecycle(env) && vstr(vget(env, "sessionId"@)) == Some(
                    root,
                )
                &&& vstr(vget(u, "sessionUpdate"@)) == Some("subagent_finished"@)
                &&& vstr(vget(u, "subagent_id"@)) == Some(sid)
                &&& vstr(vget(u, "child_session_id"@)) == Some(cid)
                &&& vu64(vget(u, "tokens_used"@)) == Some(
                    match vu64(vget(payload, "tokensUsed"@)) {
                        Some(n) => n,
                        None => 0u64,
                    },
                )
                &&& vstr(vget(u, "status"@)) == Some(s)
                &&& vu64(vget(u, "tool_calls"@)) == vu64(vget(payload, "toolCalls"@))
                &&& vu64(vget(u, "turns"@)) == vu64(vget(payload, "turns"@))
                &&& vu64(vget(u, "duration_ms"@)) == vu64(vget(payload, "durationMs"@))
                &&& vbool(vget(u, "will_wake"@)) == Some(false)
                &&& vget(u, "error"@) == present_v(payload, "error"@)
                &&& vget(u, "output"@) == present_v(payload, "output"@)
            },
            None => false,
        },
        Err(_) => false,
    }
}

proof fn lemma_vset_keeps_other(f: Seq<(Seq<char>, JsonView)>, key: Seq<char>, v: JsonView, i: int)
    requires
        0 <= i < f.len(),
        f[i].0 != key,
    ensures
        vset(f, key, v).len() >= f.len(),
        vset(f, key, v)[i] == f[i],
{
    crate::seq_util::lemma_first_where_props(f, named(key));
}

proof fn lemma_vget_absent(f: Seq<(Seq<char>, JsonView)>, key: Seq<char>)
    requires
        forall|j: int| 0 <= j < f.len() ==> f[j].0 != key,
    ensures
        vget(JsonView::Object(f), key) is None,
        first_where(f, named(key)) == -1,
{
    assert forall|j: int| 0 <= j < f.len() implies !named(key)(#[trigger] f[j]) by {}
    crate::seq_util::lemma_first_where_none(f, named(key));
}

proof fn lemma_vget_at(f: Seq<(Seq<char>, JsonView)>, key: Seq<char>, i: int)
    requires
        0 <= i < f.len(),
        f[i].0 == key,
        forall|j: int| 0 <= j < i ==> f[j].0 != key,
    ensures
        vget(JsonView::Object(f), key) == Some(f[i].1),
{
    assert forall|j: int| 0 <= j < i implies !named(key)(#[trigger] f[j]) by {}
    crate::seq_util::lemma_first_where_at(f, named(key), i);
}

/// A `finished` event with a status and numeric `toolCalls`, `turns` and
/// `durationMs` is accepted exactly when the status is `completed`,
/// `failed` or `cancelled`. Then it becomes one `subagent_finished`
/// lifecycle update that carries the status, the counts and the duration,
/// and says the parent will not be woken; any other status is refused as an
/// invalid terminal status.
pub proof fn lemma_finished_statuses(
    root: Seq<char>,
    payload: JsonView,
    replay: bool,
    sid: Seq<char>,
    cid: Seq<char>,
    sequence: u64,
)
    requires
        vstr(vget(payload, "status"@)) is Some,
        vu64(vget(payload, "toolCalls"@)) is Some,
        vu64(vget(payload, "turns"@)) is Some,
        vu64(vget(payload, "durationMs"@)) is Some,
    ensures
        ({
            let s = vstr(vget(payload, "status"@))->Some_0;
            let r = finished_v(root, payload, replay, sid, cid, sequence);
            &&& (s == "completed"@ || s == "failed"@ || s == "cancelled"@) ==> reports_finish(
                r,
                s,
                payload,
                root,
                sid,
                cid,
            )
            &&& !(s == "completed"@ || s == "failed"@ || s == "cancelled"@) ==> r == Err::<
                Seq<OpV>,
                ErrV,
            >(ErrV::InvalidStatus(s))
        }),
{
    let s = vstr(vget(payload, "status"@))->Some_0;
    if s == "completed"@ || s == "failed"@ || s == "cancelled"@ {
        let tool_calls = vu64(vget(payload, "toolCalls"@))->Some_0;
        let turns = vu64(vget(payload, "turns"@))->Some_0;
        let duration = vu64(vget(payload, "durationMs"@))->Some_0;
        let base = seq![
            ("sessionUpdate"@, JsonView::Str("subagent_finished"@)),
            ("subagent_id"@, JsonView::Str(sid)),
            ("child_session_id"@, JsonView::Str(cid)),
            ("status"@, JsonView::Str(s)),
            ("tool_calls"@, uint(tool_calls)),
            ("turns"@, uint(turns)),
            ("duration_ms"@, uint(duration)),
            ("tokens_used"@, uint(u64_or_zero_v(payload, "tokensUsed"@))),
            ("will_wake"@, JsonView::Bool(false)),
        ];
        let u1 = copy_present_v(base, payload, "error"@, "error"@);
        let u = copy_present_v(u1, payload, "output"@, "output"@);
        reveal_strlit("sessionUpdate");
        reveal_strlit("subagent_id");
        reveal_strlit("child_session_id");
        reveal_strlit("status");
        reveal_strlit("tool_calls");
        reveal_strlit("turns");
        reveal_strlit("duration_ms");
        reveal_strlit("tokens_used");
        reveal_strlit("will_wake");
        reveal_strlit("error");
        reveal_strlit("output");
        reveal_strlit("update");
        reveal_strlit("sessionId");
        assert("error"@[0] != "turns"@[0]);
        assert("output"@[0] != "status"@[0]);
        assert("duration_ms"@[0] != "subagent_id"@[0]);
        assert("duration_ms"@[0] != "tokens_used"@[0]);
        assert forall|i: int| 0 <= i < 9 implies #[trigger] u[i] == base[i] by {
            if present_v(payload, "error"@) is Some {
                lemma_vset_keeps_other(base, "error"@, present_v(payload, "error"@)->Some_0, i);
            }
            assert(u1.len() >= 9 && u1[i] == base[i]);
            if present_v(payload, "output"@) is Some {
                lemma_vset_keeps_other(u1, "output"@, present_v(payload, "output"@)->Some_0, i);
            }
        }
        assert(u[0] == base[0] && u[1] == base[1] && u[2] == base[2] && u[3] == base[3]);
        assert(u[4] == base[4] && u[5] == base[5] && u[6] == base[6] && u[7] == base[7]);
        assert(u[8] == base[8]);
        if present_v(payload, "error"@) is Some {
            lemma_vset_keeps_other(base, "error"@, present_v(payload, "error"@)->Some_0, 0);
        }
        if present_v(payload, "output"@) is Some {
            lemma_vset_keeps_other(u1, "output"@, present_v(payload, "output"@)->Some_0, 0);
        }
        assert(u.len() >= 9);
        assert(u[0].0.len() == 13 && u[1].0.len() == 11 && u[2].0.len() == 16);
        assert(u[3].0.len() == 6 && u[4].0.len() == 10 && u[5].0.len() == 5);
        assert(u[6].0.len() == 11 && u[7].0.len() == 11);
        assert(u[6].0[0] != u[1].0[0] && u[6].0[0] != u[7].0[0]);
        assert(u[7].0[0] != u[1].0[0]);
        lemma_vget_at(u, "sessionUpdate"@, 0);
        lemma_vget_at(u, "subagent_id"@, 1);
        lemma_vget_at(u, "child_session_id"@, 2);
        lemma_vget_at(u, "tokens_used"@, 7);
        lemma_vget_at(u, "status"@, 3);
        lemma_vget_at(u, "tool_calls"@, 4);
        lemma_vget_at(u, "turns"@, 5);
        lemma_vget_at(u, "duration_ms"@, 6);
        lemma_vget_at(u, "will_wake"@, 8);
        assert(base[5].0[0] != "error"@[0] && base[3].0[0] != "output"@[0]);
        assert forall|j: int| 0 <= j < base.len() implies #[trigger] base[j].0 != "error"@
            && base[j].0 != "output"@ by {
            assert(j == 0 || j == 1 || j == 2 || j == 3 || j == 4 || j == 5 || j == 6 || j == 7
                || j == 8);
        }
        lemma_vget_absent(base, "error"@);
        match present_v(payload, "error"@) {
            Some(ev) => {
                assert(u1 == base.push(("error"@, ev)));
            },
            None => {
                assert(u1 == base);
            },
        }
        assert forall|j: int| 0 <= j < u1.len() implies #[trigger] u1[j].0 != "output"@ by {
            if j < base.len() {
                assert(u1[j] == base[j]);
            }
        }
        lemma_vget_absent(u1, "output"@);
        match present_v(payload, "output"@) {
            Some(ov) => {
                assert(u == u1.push(("output"@, ov)));
                lemma_vget_at(u, "output"@, u1.len() as int);
            },
            None => {
                assert(u == u1);
            },
        }
        match present_v(payload, "error"@) {
            Some(ev) => {
                assert(u[9] == ("error"@, ev));
                lemma_vget_at(u, "error"@, 9);
            },
            None => {
                assert forall|j: int| 0 <= j < u.len() implies #[trigger] u[j].0 != "error"@ by {
                    if j < base.len() {
                        assert(u[j] == base[j]);
                    }
                }
                lemma_vget_absent(u, "error"@);
            },
        }
        let env = envelope_v(root, JsonView::Object(u), meta_v(replay, sid, sequence));
        assert(env->Object_0[0].0.len() == 9 && env->Object_0[1].0.len() == 6);
        lemma_vget_at(env->Object_0, "update"@, 1);
        lemma_vget_at(env->Object_0, "sessionId"@, 0);
        assert(finished_v(root, payload, replay, sid, cid, sequence) == Ok::<Seq<OpV>, ErrV>(
            seq![OpV::ParentLifecycle(env)],
        ));
    }
}

/// A `finished` event needs a status, then (for a terminal status) numeric
/// `toolCalls`, `turns` and `durationMs`, in that order: the first one
/// missing is the error.
pub proof fn lemma_finished_requires_fields(
    root: Seq<char>,
    payload: JsonView,
    replay: bool,
    sid: Seq<char>,
    cid: Seq<char>,
    sequence: u64,
)
    ensures
        ({
            let st = vstr(vget(payload, "status"@));
            let terminal = st matches Some(s) && (s == "completed"@ || s == "failed"@ || s
                == "cancelled"@);
            let r = finished_v(root, payload, replay, sid, cid, sequence);
            &&& st is None ==> r == Err::<Seq<OpV>, ErrV>(ErrV::PayloadRequired("status"@))
            &&& terminal && vu64(vget(payload, "toolCalls"@)) is None ==> r == Err::<Seq<OpV>, ErrV>(
                ErrV::PayloadRequired("toolCalls"@),
            )
            &&& terminal && vu64(vget(payload, "toolCalls"@)) is Some && vu64(vget(payload, "turns"@))
                is None ==> r == Err::<Seq<OpV>, ErrV>(ErrV::PayloadRequired("turns"@))
            &&& terminal && vu64(vget(payload, "toolCalls"@)) is Some && vu64(vget(payload, "turns"@))
                is Some && vu64(vget(payload, "durationMs"@)) is None ==> r == Err::<Seq<OpV>, ErrV>(
                ErrV::PayloadRequired("durationMs"@),
            )
        }),
{
}

fn finished_ops(
    root: &str,
    payload: &Json,
    replay: bool,
    sid: &str,
    cid: &str,
    sequence: u64,
) -> (r: Result<Vec<BridgeOperation>, BridgeError>)
    ensures
        ops_result_ok(r, finished_v(root@, jv(*payload), replay, sid@, cid@, sequence)),
{
    let status = match required_str_value(payload, "status") {
        Ok(x) => x,
        Err(e) => {
            return Err(e);
        },
    };
    if !(str_eq(status, "completed") || str_eq(status, "failed") || str_eq(status, "cancelled")) {
        return Err(BridgeError::InvalidStatus(status.to_owned()));
    }
    let tool_calls = match required_u64_value(payload, "toolCalls") {
        Ok(n) => n,
        Err(e) => {
            return Err(e);
        },
    };
    let turns = match required_u64_value(payload, "turns") {
        Ok(n) => n,
        Err(e) => {
            return Err(e);
        },
    };
    let duration = match required_u64_value(payload, "durationMs") {
        Ok(n) => n,
        Err(e) => {
            return Err(e);
        },
    };
    let mut update = vec![
        ("sessionUpdate".to_owned(), jstr("subagent_finished")),
        ("subagent_id".to_owned(), jstr(sid)),
        ("child_session_id".to_owned(), jstr(cid)),
        ("status".to_owned(), jstr(status)),
        ("tool_calls".to_owned(), uint_json(tool_calls)),
        ("turns".to_owned(), uint_json(turns)),
        ("duration_ms".to_owned(), uint_json(duration)),
        ("tokens_used".to_owned(), uint_json(u64_or_zero(payload, "tokensUsed"))),
        ("will_wake".to_owned(), Json::Bool(false)),
    ];
    let ghost base = members_view(update@);
    proof {
        let want = seq![
            ("sessionUpdate"@, JsonView::Str("subagent_finished"@)),
            ("subagent_id"@, JsonView::Str(sid@)),
            ("child_session_id"@, JsonView::Str(cid@)),
            ("status"@, JsonView::Str(status@)),
            ("tool_calls"@, uint(tool_calls)),
            ("turns"@, uint(turns)),
            ("duration_ms"@, uint(duration)),
            ("tokens_used"@, uint(u64_or_zero_v(jv(*payload), "tokensUsed"@))),
            ("will_wake"@, JsonView::Bool(false)),
        ];
        assert(base =~= want);
    }
    copy_present(&mut update, payload, "error", "error");
    copy_present(&mut update, payload, "output", "output");
    let u = jobj(update);
    let lifecycle = session_update_envelope(root, u, replay, sid, sequence);
    let ops = vec![BridgeOperation::ParentLifecycle(lifecycle)];
    proof {
        let want = finished_v(root@, jv(*payload), replay, sid@, cid@, sequence)->Ok_0;
        assert(ops_view(ops@) =~= want);
    }
    Ok(ops)
}

pub open spec fn opt_proj_view(p: Option<BridgeProjection>) -> Option<ProjV> {
    match p {
        Some(x) => Some(x@),
        None => None,
    }
}

/// Parse a subagent bridge event for the active Pi session `root_session_id`.
/// `Ok(None)` for other traffic; an error for malformed bridge traffic or
/// traffic of another parent session.
pub fn parse_bridge_message(event: &Json, root_session_id: &str) -> (r: Result<
    Option<BridgeProjection>,
    BridgeError,
>)
    ensures
        match r {
            Ok(p) => bridge_v(jv(*event), root_session_id@) == Ok::<Option<ProjV>, ErrV>(
                opt_proj_view(p),
            ),
            Err(e) => bridge_v(jv(*event), root_session_id@) == Err::<Option<ProjV>, ErrV>(e@),
        },
{
    let details = match bridge_details(event) {
        Err(e) => {
            return Err(e);
        },
        Ok(None) => {
            return Ok(None);
        },
        Ok(Some(d)) => d,
    };
    match field_u64(details, "version") {
        Some(1) => {},
        _ => {
            return Err(BridgeError::UnsupportedVersion);
        },
    }
    let sequence = match field_u64(details, "sequence") {
        Some(n) => n,
        None => {
            return Err(BridgeError::Required("sequence".to_owned()));
        },
    };
    let replay = flag(details, "replay");
    let parent = match field_str(details, "parentSessionId") {
        Some(p) => p,
        None => {
            return Err(BridgeError::Required("parentSessionId".to_owned()));
        },
    };
    if !str_eq(parent, root_session_id) {
        return Err(BridgeError::ParentMismatch);
    }
    let sid = match required_str(details, "subagentId") {
        Ok(x) => x,
        Err(e) => {
            return Err(e);
        },
    };
    let cid = match required_str(details, "childSessionId") {
        Ok(x) => x,
        Err(e) => {
            return Err(e);
        },
    };
    let payload = match field(details, "payload") {
        Some(p) => match p {
            Json::Object(_) => p,
            _ => {
                return Err(BridgeError::PayloadNotObject);
            },
        },
        None => {
            return Err(BridgeError::PayloadNotObject);
        },
    };
    proof {
        lemma_object_view(payload->Object_0);
    }
    let kind = match required_str(details, "kind") {
        Ok(x) => x,
        Err(e) => {
            return Err(e);
        },
    };
    let ops = if str_eq(kind, "spawned") {
        spawned_ops(root_session_id, payload, replay, sid, cid, sequence)
    } else if str_eq(kind, "progress") {
        progress_ops(root_session_id, payload, replay, sid, cid, sequence)
    } else if str_eq(kind, "finished") {
        finished_ops(root_session_id, payload, replay, sid, cid, sequence)
    } else if str_eq(kind, "child_update") {
        match parse_child_update(field(payload, "update")) {
            Ok(u) => {
                let v = vec![BridgeOperation::ChildUpdate { child_session_id: cid.to_owned(), update: u }];
                assert(ops_view(v@) =~= seq![OpV::ChildUpdate { child_session_id: cid@, update: u@ }]);
                Ok(v)
            },
            Err(e) => Err(e),
        }
    } else if str_eq(kind, "replay_complete") {
        match required_str_value(payload, "requestId") {
            Ok(x) => {
                let v = vec![BridgeOperation::ReplayComplete { request_id: x.to_owned() }];
                assert(ops_view(v@) =~= seq![OpV::ReplayComplete { request_id: x@ }]);
                Ok(v)
            },
            Err(e) => Err(e),
        }
    } else {
        Err(BridgeError::UnknownEvent(kind.to_owned()))
    };
    match ops {
        Err(e) => Err(e),
        Ok(operations) => Ok(
            Some(
                BridgeProjection {
                    sequence,
                    replay,
                    kind: kind.to_owned(),
                    subagent_id: sid.to_owned(),
                    child_session_id: cid.to_owned(),
                    operations,
                },
            ),
        ),
    }
}

} // verus!

//! Decoding of the client's extension requests and notifications: which
//! operation is asked for, with which parameters, or why it is refused.
use vstd::prelude::*;
use crate::json::{Json, JsonView, jv, vget, vstr, vbool, vu64, vget_either, field, field_bool, field_u64, field_either};
use crate::text::{str_eq, trim, trim_seq};
use crate::queue_bridge::{
    QueueEntry, QueueMirror, EntryView, entry_views, has_id, takeable, edited, reorder_pass,
    string_items, string_list,
};
use crate::seq_util::{first_where, strs};

verus! {

/// An extension request the adapter serves, with its decoded parameters.
#[derive(Debug, PartialEq, Eq)]
pub enum ExtCall {
    Interject,
    TerminalBackground,
    TaskKill,
    SchedulerDelete { task_id: String },
    Recap,
    Btw,
    CompactConversation { custom_instructions: Option<String> },
    SessionList { cwd: Option<String>, all: bool, use_psm_index: bool },
    SessionSearch { query: String, cwd: Option<String>, limit: u64 },
    SessionMessages { session_path: String, session_id: String, limit: u64 },
    SessionTree,
    NavigateTree { entry_id: String, summarize: bool, custom_instructions: Option<String> },
    TreeLabel { entry_id: String, label: Option<String> },
    ForkMessages,
    Fork { entry_id: String },
    CloneSession,
    ReloadSession,
    QueueMode { mode: String, steering: bool },
    RollbackPreview { entry_id: String },
    RollbackExecute { entry_id: String },
    Rename { title: String },
    SessionInfo,
    WorkflowsList,
    WorkflowLaunch { name: String, args: String },
    WorkflowPause { run_id: String },
    WorkflowStop { run_id: String },
    SubagentCancel { subagent_id: String },
}

pub enum ExtCallV {
    Interject,
    TerminalBackground,
    TaskKill,
    SchedulerDelete { task_id: Seq<char> },
    Recap,
    Btw,
    CompactConversation { custom_instructions: Option<Seq<char>> },
    SessionList { cwd: Option<Seq<char>>, all: bool, use_psm_index: bool },
    SessionSearch { query: Seq<char>, cwd: Option<Seq<char>>, limit: u64 },
    SessionMessages { session_path: Seq<char>, session_id: Seq<char>, limit: u64 },
    SessionTree,
    NavigateTree {
        entry_id: Seq<char>,
        summarize: bool,
        custom_instructions: Option<Seq<char>>,
    },
    TreeLabel { entry_id: Seq<char>, label: Option<Seq<char>> },
    ForkMessages,
    Fork { entry_id: Seq<char> },
    CloneSession,
    ReloadSession,
    QueueMode { mode: Seq<char>, steering: bool },
    RollbackPreview { entry_id: Seq<char> },
    RollbackExecute { entry_id: Seq<char> },
    Rename { title: Seq<char> },
    SessionInfo,
    WorkflowsList,
    WorkflowLaunch { name: Seq<char>, args: Seq<char> },
    WorkflowPause { run_id: Seq<char> },
    WorkflowStop { run_id: Seq<char> },
    SubagentCancel { subagent_id: Seq<char> },
}

pub open spec fn osv(s: Option<String>) -> Option<Seq<char>> {
    match s {
        Some(x) => Some(x@),
        None => None,
    }
}

impl View for ExtCall {
    type V = ExtCallV;

    open spec fn view(&self) -> ExtCallV {
        match self {
            ExtCall::Interject => ExtCallV::Interject,
            ExtCall::TerminalBackground => ExtCallV::TerminalBackground,
            ExtCall::TaskKill => ExtCallV::TaskKill,
            ExtCall::SchedulerDelete { task_id } => ExtCallV::SchedulerDelete { task_id: task_id@ },
            ExtCall::Recap => ExtCallV::Recap,
            ExtCall::Btw => ExtCallV::Btw,
            ExtCall::CompactConversation { custom_instructions } =>
                ExtCallV::CompactConversation { custom_instructions: osv(*custom_instructions) },
            ExtCall::SessionList { cwd, all, use_psm_index } => ExtCallV::SessionList {
                cwd: osv(*cwd),
                all: *all,
                use_psm_index: *use_psm_index,
            },
            ExtCall::SessionSearch { query, cwd, limit } => ExtCallV::SessionSearch {
                query: query@,
                cwd: osv(*cwd),
                limit: *limit,
            },
            ExtCall::SessionMessages { session_path, session_id, limit } =>
                ExtCallV::SessionMessages {
                session_path: session_path@,
                session_id: session_id@,
                limit: *limit,
            },
            ExtCall::SessionTree => ExtCallV::SessionTree,
            ExtCall::NavigateTree { entry_id, summarize, custom_instructions } =>
                ExtCallV::NavigateTree {
                entry_id: entry_id@,
                summarize: *summarize,
                custom_instructions: osv(*custom_instructions),
            },
            ExtCall::TreeLabel { entry_id, label } => ExtCallV::TreeLabel {
                entry_id: entry_id@,
                label: osv(*label),
            },
            ExtCall::ForkMessages => ExtCallV::ForkMessages,
            ExtCall::Fork { entry_id } => ExtCallV::Fork { entry_id: entry_id@ },
            ExtCall::CloneSession => ExtCallV::CloneSession,
            ExtCall::ReloadSession => ExtCallV::ReloadSession,
            ExtCall::QueueMode { mode, steering } => ExtCallV::QueueMode {
                mode: mode@,
                steering: *steering,
            },
            ExtCall::RollbackPreview { entry_id } => ExtCallV::RollbackPreview {
                entry_id: entry_id@,
            },
            ExtCall::RollbackExecute { entry_id } => ExtCallV::RollbackExecute {
                entry_id: entry_id@,
            },
            ExtCall::Rename { title } => ExtCallV::Rename { title: title@ },
            ExtCall::SessionInfo => ExtCallV::SessionInfo,
            ExtCall::WorkflowsList => ExtCallV::WorkflowsList,
            ExtCall::WorkflowLaunch { name, args } => ExtCallV::WorkflowLaunch {
                name: name@,
                args: args@,
            },
            ExtCall::WorkflowPause { run_id } => ExtCallV::WorkflowPause { run_id: run_id@ },
            ExtCall::WorkflowStop { run_id } => ExtCallV::WorkflowStop { run_id: run_id@ },
            ExtCall::SubagentCancel { subagent_id } => ExtCallV::SubagentCancel {
                subagent_id: subagent_id@,
            },
        }
    }
}

/// Why an extension request is refused.
#[derive(Debug, PartialEq, Eq)]
pub enum ExtMethodError {
    /// Invalid parameters, with the message the client sees.
    InvalidParams(String),
    /// The parameters of a request that needs them are not valid JSON.
    MalformedParams,
    /// No such method.
    MethodNotFound(String),
}

pub enum ExtErrV {
    InvalidParams(Seq<char>),
    MalformedParams,
    MethodNotFound(Seq<char>),
}

impl View for ExtMethodError {
    type V = ExtErrV;

    open spec fn view(&self) -> ExtErrV {
        match self {
            ExtMethodError::InvalidParams(m) => ExtErrV::InvalidParams(m@),
            ExtMethodError::MalformedParams => ExtErrV::MalformedParams,
            ExtMethodError::MethodNotFound(m) => ExtErrV::MethodNotFound(m@),
        }
    }
}

impl ExtMethodError {
    /// The error text the client sees.
    pub fn message(&self) -> (r: String)
        ensures
            r@ == match self@ {
                ExtErrV::InvalidParams(m) => m,
                ExtErrV::MalformedParams => "invalid request parameters"@,
                ExtErrV::MethodNotFound(m) => "Method not found: "@ + m,
            },
    {
        match self {
            ExtMethodError::InvalidParams(m) => m.clone(),
            ExtMethodError::MalformedParams => "invalid request parameters".to_owned(),
            ExtMethodError::MethodNotFound(m) => "Method not found: ".to_owned().concat(m.as_str()),
        }
    }
}

/// The first of `keys` whose member is a string, and that string.
pub open spec fn first_string_v(params: JsonView, keys: Seq<Seq<char>>) -> Option<Seq<char>>
    decreases keys.len(),
{
    if keys.len() == 0 {
        None
    } else {
        match vstr(vget(params, keys[0])) {
            Some(s) => Some(s),
            None => first_string_v(params, keys.drop_first()),
        }
    }
}

/// A string parameter, trimmed, that is not empty.
pub open spec fn required_id_v(params: JsonView, keys: Seq<Seq<char>>) -> Option<Seq<char>> {
    match first_string_v(params, keys) {
        Some(s) => if trim_seq(s).len() > 0 {
            Some(trim_seq(s))
        } else {
            None
        },
        None => None,
    }
}

/// A string parameter kept as given when it is not blank.
pub open spec fn nonblank_v(params: JsonView, keys: Seq<Seq<char>>) -> Option<Seq<char>> {
    match first_string_v(params, keys) {
        Some(s) => if trim_seq(s).len() > 0 {
            Some(s)
        } else {
            None
        },
        None => None,
    }
}

/// A string parameter, trimmed, empty when missing.
pub open spec fn trimmed_or_empty_v(params: JsonView, keys: Seq<Seq<char>>) -> Seq<char> {
    match first_string_v(params, keys) {
        Some(s) => trim_seq(s),
        None => Seq::empty(),
    }
}

pub open spec fn bool_or_false_v(params: JsonView, key: Seq<char>) -> bool {
    vbool(vget(params, key)) == Some(true)
}

pub open spec fn u64_or_v(params: JsonView, key: Seq<char>, d: u64) -> u64 {
    match vu64(vget(params, key)) {
        Some(n) => n,
        None => d,
    }
}

pub open spec fn entry_keys() -> Seq<Seq<char>> {
    seq!["entryId"@, "id"@, "targetId"@]
}

pub open spec fn run_keys() -> Seq<Seq<char>> {
    seq!["runId"@, "run_id"@, "name"@]
}

/// A request whose id parameter is required.
pub open spec fn with_id_v(
    params: JsonView,
    keys: Seq<Seq<char>>,
    missing: Seq<char>,
    make: spec_fn(Seq<char>) -> ExtCallV,
) -> Result<ExtCallV, ExtErrV> {
    match required_id_v(params, keys) {
        Some(id) => Ok(make(id)),
        None => Err(ExtErrV::InvalidParams(missing)),
    }
}

/// Methods whose parameters must be valid JSON; the others read invalid
/// parameters as `null`.
pub open spec fn strict_method(m: Seq<char>) -> bool {
    m == "x.ai/scheduler/delete"@ || m == "x.ai/session/rename"@ || m == "x.ai/workflow/launch"@
        || m == "x.ai/workflow/pause"@ || m == "x.ai/workflow/stop"@ || m
        == "x.ai/subagent/cancel"@
}

/// The request `method` with `params` (`None` when they are not valid JSON).
pub open spec fn decode_v(method: Seq<char>, params: Option<JsonView>) -> Result<ExtCallV, ExtErrV> {
    if strict_method(method) && params is None {
        Err(ExtErrV::MalformedParams)
    } else {
        let p = match params {
            Some(v) => v,
            None => JsonView::Null,
        };
        if method == "x.ai/interject"@ {
            Ok(ExtCallV::Interject)
        } else if method == "x.ai/terminal/background"@ {
            Ok(ExtCallV::TerminalBackground)
        } else if method == "x.ai/task/kill"@ {
            Ok(ExtCallV::TaskKill)
        } else if method == "x.ai/scheduler/delete"@ {
            with_id_v(
                p,
                seq!["taskId"@, "task_id"@],
                "taskId is required"@,
                |id: Seq<char>| ExtCallV::SchedulerDelete { task_id: id },
            )
        } else if method == "x.ai/recap"@ {
            Ok(ExtCallV::Recap)
        } else if method == "x.ai/btw"@ {
            Ok(ExtCallV::Btw)
        } else if method == "x.ai/compact_conversation"@ {
            Ok(
                ExtCallV::CompactConversation {
                    custom_instructions: nonblank_v(
                        p,
                        seq!["customInstructions"@, "instructions"@, "context"@],
                    ),
                },
            )
        } else if method == "pi/session/list"@ {
            Ok(
                ExtCallV::SessionList {
                    cwd: nonblank_v(p, seq!["cwd"@]),
                    all: first_string_v(p, seq!["scope"@]) == Some("all"@),
                    use_psm_index: bool_or_false_v(p, "usePsmIndex"@),
                },
            )
        } else if method == "pi/session/search"@ {
            Ok(
                ExtCallV::SessionSearch {
                    query: trimmed_or_empty_v(p, seq!["query"@]),
                    cwd: nonblank_v(p, seq!["cwd"@]),
                    limit: u64_or_v(p, "limit"@, 20),
                },
            )
        } else if method == "pi/session/messages"@ {
            Ok(
                ExtCallV::SessionMessages {
                    session_path: trimmed_or_empty_v(p, seq!["sessionPath"@, "session_path"@]),
                    session_id: trimmed_or_empty_v(p, seq!["sessionId"@, "session_id"@]),
                    limit: u64_or_v(p, "limit"@, 200),
                },
            )
        } else if method == "pi/session/tree"@ {
            Ok(ExtCallV::SessionTree)
        } else if method == "pi/session/navigate_tree"@ {
            match required_id_v(p, entry_keys()) {
                Some(id) => Ok(
                    ExtCallV::NavigateTree {
                        entry_id: id,
                        summarize: bool_or_false_v(p, "summarize"@),
                        custom_instructions: first_string_v(
                            p,
                            seq!["customInstructions"@, "instructions"@],
                        ),
                    },
                ),
                None => Err(ExtErrV::InvalidParams("entryId is required"@)),
            }
        } else if method == "pi/session/tree_label"@ {
            match required_id_v(p, entry_keys()) {
                Some(id) => Ok(
                    ExtCallV::TreeLabel {
                        entry_id: id,
                        label: if bool_or_false_v(p, "clear"@) {
                            None
                        } else {
                            first_string_v(p, seq!["label"@, "text"@])
                        },
                    },
                ),
                None => Err(ExtErrV::InvalidParams("entryId is required"@)),
            }
        } else if method == "pi/session/fork_messages"@ {
            Ok(ExtCallV::ForkMessages)
        } else if method == "pi/session/fork"@ {
            with_id_v(
                p,
                entry_keys(),
                "entryId is required"@,
                |id: Seq<char>| ExtCallV::Fork { entry_id: id },
            )
        } else if method == "pi/session/clone"@ {
            Ok(ExtCallV::CloneSession)
        } else if method == "pi/session/reload"@ {
            Ok(ExtCallV::ReloadSession)
        } else if method == "pi/queue/mode"@ {
            match first_string_v(p, seq!["mode"@]) {
                Some(m) => if trim_seq(m) == "all"@ || trim_seq(m) == "one-at-a-time"@ {
                    Ok(
                        ExtCallV::QueueMode {
                            mode: trim_seq(m),
                            steering: bool_or_false_v(p, "steering"@),
                        },
                    )
                } else {
                    Err(ExtErrV::InvalidParams("mode must be 'all' or 'one-at-a-time'"@))
                },
                None => Err(ExtErrV::InvalidParams("mode must be 'all' or 'one-at-a-time'"@)),
            }
        } else if method == "pi/session/rollback_preview"@ {
            with_id_v(
                p,
                entry_keys(),
                "entryId is required"@,
                |id: Seq<char>| ExtCallV::RollbackPreview { entry_id: id },
            )
        } else if method == "pi/session/rollback_execute"@ {
            with_id_v(
                p,
                entry_keys(),
                "entryId is required"@,
                |id: Seq<char>| ExtCallV::RollbackExecute { entry_id: id },
            )
        } else if method == "x.ai/session/rename"@ {
            with_id_v(
                p,
                seq!["title"@, "name"@],
                "session title is empty"@,
                |t: Seq<char>| ExtCallV::Rename { title: t },
            )
        } else if method == "x.ai/session/info"@ {
            Ok(ExtCallV::SessionInfo)
        } else if method == "x.ai/workflows/list"@ {
            Ok(ExtCallV::WorkflowsList)
        } else if method == "x.ai/workflow/launch"@ {
            match required_id_v(p, seq!["name"@, "workflow"@]) {
                Some(name) => Ok(
                    ExtCallV::WorkflowLaunch {
                        name,
                        args: match first_string_v(p, seq!["args"@, "input"@]) {
                            Some(a) => a,
                            None => Seq::empty(),
                        },
                    },
                ),
                None => Err(ExtErrV::InvalidParams("name is required"@)),
            }
        } else if method == "x.ai/workflow/pause"@ {
            with_id_v(
                p,
                run_keys(),
                "runId is required"@,
                |id: Seq<char>| ExtCallV::WorkflowPause { run_id: id },
            )
        } else if method == "x.ai/workflow/stop"@ {
            with_id_v(
                p,
                run_keys(),
                "runId is required"@,
                |id: Seq<char>| ExtCallV::WorkflowStop { run_id: id },
            )
        } else if method == "x.ai/subagent/cancel"@ {
            with_id_v(
                p,
                seq!["subagentId"@, "subagent_id"@],
                "subagentId is required"@,
                |id: Seq<char>| ExtCallV::SubagentCancel { subagent_id: id },
            )
        } else {
            Err(ExtErrV::MethodNotFound(method))
        }
    }
}


pub(crate) fn str1<'a>(p: &'a Json, a: &str) -> (r: Option<&'a str>)
    ensures
        crate::json::opt_str_view(r) == first_string_v(jv(*p), seq![a@]),
{
    proof {
        reveal_with_fuel(first_string_v, 2);
        assert(seq![a@].drop_first() =~= Seq::<Seq<char>>::empty());
    }
    crate::json::field_str(p, a)
}

pub(crate) fn str2<'a>(p: &'a Json, a: &str, b: &str) -> (r: Option<&'a str>)
    ensures
        crate::json::opt_str_view(r) == first_string_v(jv(*p), seq![a@, b@]),
{
    proof {
        reveal_with_fuel(first_string_v, 3);
        assert(seq![a@, b@].drop_first() =~= seq![b@]);
        assert(seq![b@].drop_first() =~= Seq::<Seq<char>>::empty());
    }
    match crate::json::field_str(p, a) {
        Some(s) => Some(s),
        None => crate::json::field_str(p, b),
    }
}

pub(crate) fn str3<'a>(p: &'a Json, a: &str, b: &str, c: &str) -> (r: Option<&'a str>)
    ensures
        crate::json::opt_str_view(r) == first_string_v(jv(*p), seq![a@, b@, c@]),
{
    proof {
        reveal_with_fuel(first_string_v, 4);
        assert(seq![a@, b@, c@].drop_first() =~= seq![b@, c@]);
        assert(seq![b@, c@].drop_first() =~= seq![c@]);
        assert(seq![c@].drop_first() =~= Seq::<Seq<char>>::empty());
    }
    match crate::json::field_str(p, a) {
        Some(s) => Some(s),
        None => match crate::json::field_str(p, b) {
            Some(s) => Some(s),
            None => crate::json::field_str(p, c),
        },
    }
}

pub(crate) fn trimmed_id(s: Option<&str>) -> (r: Option<String>)
    ensures
        osv(r) == match crate::json::opt_str_view(s) {
            Some(x) => if trim_seq(x).len() > 0 {
                Some(trim_seq(x))
            } else {
                None
            },
            None => None,
        },
{
    match s {
        Some(x) => {
            let t = trim(x);
            if t.unicode_len() > 0 {
                Some(t.to_owned())
            } else {
                None
            }
        },
        None => None,
    }
}

fn nonblank(s: Option<&str>) -> (r: Option<String>)
    ensures
        osv(r) == match crate::json::opt_str_view(s) {
            Some(x) => if trim_seq(x).len() > 0 {
                Some(x)
            } else {
                None
            },
            None => None,
        },
{
    match s {
        Some(x) => if trim(x).unicode_len() > 0 {
            Some(x.to_owned())
        } else {
            None
        },
        None => None,
    }
}

fn trimmed_or_empty(s: Option<&str>) -> (r: String)
    ensures
        r@ == match crate::json::opt_str_view(s) {
            Some(x) => trim_seq(x),
            None => Seq::empty(),
        },
{
    match s {
        Some(x) => trim(x).to_owned(),
        None => String::new(),
    }
}

fn owned(s: Option<&str>) -> (r: Option<String>)
    ensures
        osv(r) == crate::json::opt_str_view(s),
{
    match s {
        Some(x) => Some(x.to_owned()),
        None => None,
    }
}

fn flag(p: &Json, key: &str) -> (r: bool)
    ensures
        r == bool_or_false_v(jv(*p), key@),
{
    match field_bool(p, key) {
        Some(b) => b,
        None => false,
    }
}

fn u64_or(p: &Json, key: &str, d: u64) -> (r: u64)
    ensures
        r == u64_or_v(jv(*p), key@, d),
{
    match field_u64(p, key) {
        Some(n) => n,
        None => d,
    }
}

pub open spec fn opt_jv(p: Option<&Json>) -> Option<JsonView> {
    match p {
        Some(x) => Some(jv(*x)),
        None => None,
    }
}

pub open spec fn decode_ok(r: Result<ExtCall, ExtMethodError>, want: Result<ExtCallV, ExtErrV>) -> bool {
    match r {
        Ok(c) => want == Ok::<ExtCallV, ExtErrV>(c@),
        Err(e) => want == Err::<ExtCallV, ExtErrV>(e@),
    }
}

/// Decode the extension request `method`; `params` is `None` when its
/// parameters are not valid JSON.
pub fn decode_ext_method(method: &str, params: Option<&Json>) -> (r: Result<ExtCall, ExtMethodError>)
    ensures
        decode_ok(r, decode_v(method@, opt_jv(params))),
{
    proof {
        reveal_strlit("");
    }
    let strict = str_eq(method, "x.ai/scheduler/delete") || str_eq(method, "x.ai/session/rename")
        || str_eq(method, "x.ai/workflow/launch") || str_eq(method, "x.ai/workflow/pause")
        || str_eq(method, "x.ai/workflow/stop") || str_eq(method, "x.ai/subagent/cancel");
    let null = Json::Null;
    let p: &Json = match params {
        Some(v) => v,
        None => {
            if strict {
                return Err(ExtMethodError::MalformedParams);
            }
            &null
        },
    };
    assert(jv(*p) == match opt_jv(params) {
        Some(v) => v,
        None => JsonView::Null,
    });
    if str_eq(method, "x.ai/interject") {
        Ok(ExtCall::Interject)
    } else if str_eq(method, "x.ai/terminal/background") {
        Ok(ExtCall::TerminalBackground)
    } else if str_eq(method, "x.ai/task/kill") {
        Ok(ExtCall::TaskKill)
    } else if str_eq(method, "x.ai/scheduler/delete") {
        match trimmed_id(str2(p, "taskId", "task_id")) {
            Some(id) => Ok(ExtCall::SchedulerDelete { task_id: id }),
            None => Err(ExtMethodError::InvalidParams("taskId is required".to_owned())),
        }
    } else if str_eq(method, "x.ai/recap") {
        Ok(ExtCall::Recap)
    } else if str_eq(method, "x.ai/btw") {
        Ok(ExtCall::Btw)
    } else if str_eq(method, "x.ai/compact_conversation") {
        Ok(
            ExtCall::CompactConversation {
                custom_instructions: nonblank(str3(p, "customInstructions", "instructions", "context")),
            },
        )
    } else if str_eq(method, "pi/session/list") {
        let all = match str1(p, "scope") {
            Some(s) => str_eq(s, "all"),
            None => false,
        };
        Ok(
            ExtCall::SessionList {
                cwd: nonblank(str1(p, "cwd")),
                all,
                use_psm_index: flag(p, "usePsmIndex"),
            },
        )
    } else if str_eq(method, "pi/session/search") {
        Ok(
            ExtCall::SessionSearch {
                query: trimmed_or_empty(str1(p, "query")),
                cwd: nonblank(str1(p, "cwd")),
                limit: u64_or(p, "limit", 20),
            },
        )
    } else if str_eq(method, "pi/session/messages") {
        Ok(
            ExtCall::SessionMessages {
                session_path: trimmed_or_empty(str2(p, "sessionPath", "session_path")),
                session_id: trimmed_or_empty(str2(p, "sessionId", "session_id")),
                limit: u64_or(p, "limit", 200),
            },
        )
    } else if str_eq(method, "pi/session/tree") {
        Ok(ExtCall::SessionTree)
    } else if str_eq(method, "pi/session/navigate_tree") {
        match trimmed_id(str3(p, "entryId", "id", "targetId")) {
            Some(id) => Ok(
                ExtCall::NavigateTree {
                    entry_id: id,
                    summarize: flag(p, "summarize"),
                    custom_instructions: owned(str2(p, "customInstructions", "instructions")),
                },
            ),
            None => Err(ExtMethodError::InvalidParams("entryId is required".to_owned())),
        }
    } else if str_eq(method, "pi/session/tree_label") {
        match trimmed_id(str3(p, "entryId", "id", "targetId")) {
            Some(id) => {
                let label = if flag(p, "clear") {
                    None
                } else {
                    owned(str2(p, "label", "text"))
                };
                Ok(ExtCall::TreeLabel { entry_id: id, label })
            },
            None => Err(ExtMethodError::InvalidParams("entryId is required".to_owned())),
        }
    } else if str_eq(method, "pi/session/fork_messages") {
        Ok(ExtCall::ForkMessages)
    } else if str_eq(method, "pi/session/fork") {
        match trimmed_id(str3(p, "entryId", "id", "targetId")) {
            Some(id) => Ok(ExtCall::Fork { entry_id: id }),
            None => Err(ExtMethodError::InvalidParams("entryId is required".to_owned())),
        }
    } else if str_eq(method, "pi/session/clone") {
        Ok(ExtCall::CloneSession)
    } else if str_eq(method, "pi/session/reload") {
        Ok(ExtCall::ReloadSession)
    } else if str_eq(method, "pi/queue/mode") {
        let mode = match str1(p, "mode") {
            Some(m) => {
                let t = trim(m);
                if str_eq(t, "all") || str_eq(t, "one-at-a-time") {
                    Some(t.to_owned())
                } else {
                    None
                }
            },
            None => None,
        };
        match mode {
            Some(mode) => Ok(ExtCall::QueueMode { mode, steering: flag(p, "steering") }),
            None => Err(
                ExtMethodError::InvalidParams("mode must be 'all' or 'one-at-a-time'".to_owned()),
            ),
        }
    } else if str_eq(method, "pi/session/rollback_preview") {
        match trimmed_id(str3(p, "entryId", "id", "targetId")) {
            Some(id) => Ok(ExtCall::RollbackPreview { entry_id: id }),
            None => Err(ExtMethodError::InvalidParams("entryId is required".to_owned())),
        }
    } else if str_eq(method, "pi/session/rollback_execute") {
        match trimmed_id(str3(p, "entryId", "id", "targetId")) {
            Some(id) => Ok(ExtCall::RollbackExecute { entry_id: id }),
            None => Err(ExtMethodError::InvalidParams("entryId is required".to_owned())),
        }
    } else if str_eq(method, "x.ai/session/rename") {
        match trimmed_id(str2(p, "title", "name")) {
            Some(t) => Ok(ExtCall::Rename { title: t }),
            None => Err(ExtMethodError::InvalidParams("session title is empty".to_owned())),
        }
    } else if str_eq(method, "x.ai/session/info") {
        Ok(ExtCall::SessionInfo)
    } else if str_eq(method, "x.ai/workflows/list") {
        Ok(ExtCall::WorkflowsList)
    } else if str_eq(method, "x.ai/workflow/launch") {
        match trimmed_id(str2(p, "name", "workflow")) {
            Some(name) => {
                let args = match str2(p, "args", "input") {
                    Some(a) => a.to_owned(),
                    None => String::new(),
                };
                Ok(ExtCall::WorkflowLaunch { name, args })
            },
            None => Err(ExtMethodError::InvalidParams("name is required".to_owned())),
        }
    } else if str_eq(method, "x.ai/workflow/pause") {
        match trimmed_id(str3(p, "runId", "run_id", "name")) {
            Some(id) => Ok(ExtCall::WorkflowPause { run_id: id }),
            None => Err(ExtMethodError::InvalidParams("runId is required".to_owned())),
        }
    } else if str_eq(method, "x.ai/workflow/stop") {
        match trimmed_id(str3(p, "runId", "run_id", "name")) {
            Some(id) => Ok(ExtCall::WorkflowStop { run_id: id }),
            None => Err(ExtMethodError::InvalidParams("runId is required".to_owned())),
        }
    } else if str_eq(method, "x.ai/subagent/cancel") {
        match trimmed_id(str2(p, "subagentId", "subagent_id")) {
            Some(id) => Ok(ExtCall::SubagentCancel { subagent_id: id }),
            None => Err(ExtMethodError::InvalidParams("subagentId is required".to_owned())),
        }
    } else {
        Err(ExtMethodError::MethodNotFound(method.to_owned()))
    }
}


/// Warning shown when a queue row cannot be removed.
pub const REMOVE_WARNING: &'static str = "This queue row is already running or belongs to Pi's external queue";

/// Warning shown when a queue row cannot be edited.
pub const EDIT_WARNING: &'static str = "Only pending adapter queue rows can be edited";

/// What a queue notification did: the rows taken out of the queue (their
/// prompts finish as cancelled) and the warning to show, if any. The queue
/// snapshot is published afterwards in every case.
#[derive(Debug)]
pub struct QueueNotice {
    pub finished: Vec<QueueEntry>,
    pub warning: Option<String>,
}

/// The row id of a queue notification, empty when missing.
pub open spec fn notice_id(p: JsonView) -> Seq<char> {
    match first_string_v(p, seq!["id"@]) {
        Some(s) => s,
        None => Seq::empty(),
    }
}

/// The version a removal expects, if it names one.
pub open spec fn notice_version(p: JsonView) -> Option<u64> {
    vu64(vget_either(p, "expectedVersion"@, "version"@))
}

/// The ids of a reorder notification.
pub open spec fn notice_ids(p: JsonView) -> Seq<Seq<char>> {
    match vget_either(p, "orderedIds"@, "ids"@) {
        Some(JsonView::Array(items)) => string_items_v(items),
        _ => Seq::empty(),
    }
}

/// The string elements of an array view, in order.
pub open spec fn string_items_v(items: Seq<JsonView>) -> Seq<Seq<char>>
    decreases items.len(),
{
    if items.len() == 0 {
        Seq::empty()
    } else {
        let r = string_items_v(items.drop_last());
        match items.last() {
            JsonView::Str(s) => r.push(s),
            _ => r,
        }
    }
}

pub open spec fn unchanged_but_locals(a: QueueMirror, b: QueueMirror) -> bool {
    &&& b.pis() == a.pis()
    &&& b.reservations() == a.reservations()
    &&& b.parked_rows() == a.parked_rows()
    &&& b.seq() == a.seq()
    &&& b.running_row() == a.running_row()
}

pub open spec fn warning_is(w: Option<String>, text: Seq<char>) -> bool {
    w matches Some(s) && s@ == text
}

fn strings_of(items: &Vec<Json>) -> (r: Vec<String>)
    ensures
        strs(r@) == string_items_v(crate::json::items_view(items@)),
{
    let ghost iv = crate::json::items_view(items@);
    let mut out: Vec<String> = Vec::new();
    let mut i: usize = 0;
    assert(iv.take(0) =~= Seq::<JsonView>::empty());
    assert(strs(out@) =~= Seq::<Seq<char>>::empty());
    while i < items.len()
        invariant
            i <= items@.len(),
            iv == crate::json::items_view(items@),
            strs(out@) == string_items_v(iv.take(i as int)),
        decreases items@.len() - i,
    {
        proof {
            assert(iv.take(i + 1).drop_last() =~= iv.take(i as int));
            assert(iv.take(i + 1).last() == jv(items@[i as int]));
        }
        match &items[i] {
            Json::Str(t) => {
                out.push(t.clone());
                assert(strs(out@) =~= string_items_v(iv.take(i as int)).push(t@));
            },
            _ => {},
        }
        i = i + 1;
    }
    assert(iv.take(items@.len() as int) =~= iv);
    out
}

/// Apply a queue-editing notification (`x.ai/queue/remove`, `clear`, `edit`
/// or `reorder`) to the local queue; `None` for any other method, which
/// leaves the queue alone. Invalid parameters read as `null`.
pub fn apply_queue_notification(mirror: &mut QueueMirror, method: &str, params: &Json) -> (r: Option<
    QueueNotice,
>)
    ensures
        unchanged_but_locals(*old(mirror), *final(mirror)),
        ({
            let p = jv(*params);
            let old_locals = old(mirror).locals();
            let new_locals = final(mirror).locals();
            if method@ == "x.ai/queue/remove"@ {
                let k = first_where(old_locals, takeable(notice_id(p), notice_version(p)));
                r matches Some(n) && if k >= 0 {
                    &&& entry_views(n.finished@) == seq![old_locals[k]]
                    &&& new_locals == old_locals.remove(k)
                    &&& n.warning is None
                } else {
                    &&& n.finished@.len() == 0
                    &&& new_locals == old_locals
                    &&& warning_is(n.warning, REMOVE_WARNING@)
                }
            } else if method@ == "x.ai/queue/clear"@ {
                r matches Some(n) && entry_views(n.finished@) == old_locals && new_locals
                    == Seq::<EntryView>::empty() && n.warning is None
            } else if method@ == "x.ai/queue/edit"@ {
                let k = first_where(old_locals, has_id(notice_id(p)));
                let text = required_id_v(p, seq!["newText"@, "text"@]);
                r matches Some(n) && n.finished@.len() == 0 && if text is Some && k >= 0 {
                    new_locals == edited(old_locals, k, text->Some_0) && n.warning is None
                } else {
                    new_locals == old_locals && warning_is(n.warning, EDIT_WARNING@)
                }
            } else if method@ == "x.ai/queue/reorder"@ {
                r matches Some(n) && n.finished@.len() == 0 && n.warning is None && if old_locals.len()
                    < 2 {
                    new_locals == old_locals
                } else {
                    let out = reorder_pass(old_locals, notice_ids(p));
                    new_locals == out.0 + out.1
                }
            } else {
                r is None && new_locals == old_locals
            }
        }),
{
    proof {
        reveal_strlit("");
        assert(""@ =~= Seq::<char>::empty());
    }
    if str_eq(method, "x.ai/queue/remove") {
        let id = match str1(params, "id") {
            Some(s) => s,
            None => "",
        };
        let expected = match field_either(params, "expectedVersion", "version") {
            Some(v) => v.as_u64(),
            None => None,
        };
        match mirror.take_local(id, expected) {
            Some(entry) => {
                let finished = vec![entry];
                assert(entry_views(finished@) =~= seq![entry@]);
                Some(QueueNotice { finished, warning: None })
            },
            None => Some(QueueNotice { finished: Vec::new(), warning: Some(REMOVE_WARNING.to_owned()) }),
        }
    } else if str_eq(method, "x.ai/queue/clear") {
        let finished = mirror.clear_local();
        Some(QueueNotice { finished, warning: None })
    } else if str_eq(method, "x.ai/queue/edit") {
        let id = match str1(params, "id") {
            Some(s) => s,
            None => "",
        };
        let edited_ok = match trimmed_id(str2(params, "newText", "text")) {
            Some(text) => mirror.edit_local(id, text),
            None => false,
        };
        if edited_ok {
            Some(QueueNotice { finished: Vec::new(), warning: None })
        } else {
            Some(QueueNotice { finished: Vec::new(), warning: Some(EDIT_WARNING.to_owned()) })
        }
    } else if str_eq(method, "x.ai/queue/reorder") {
        let ids = match field_either(params, "orderedIds", "ids") {
            Some(v) => match v {
                Json::Array(items) => {
                    proof {
                        crate::json::lemma_array_view(*items);
                    }
                    strings_of(items)
                },
                _ => Vec::new(),
            },
            None => Vec::new(),
        };
        assert(strs(ids@) == notice_ids(jv(*params)));
        let _changed = mirror.reorder_local(ids.as_slice());
        Some(QueueNotice { finished: Vec::new(), warning: None })
    } else {
        None
    }
}

} // verus!

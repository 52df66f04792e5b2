//! Project Pi background-Bash custom messages into the pager's task updates.
use vstd::prelude::*;
use crate::json::{
    Json, JsonView, jv, vget, vstr, vbool, field, field_str, field_bool, jstr, jobj, members_view,
    opt_json_view,
};
use crate::seq_util::{first_where, lemma_first_where_at, lemma_first_where_none, lemma_first_where_props};
use crate::text::{str_eq, trim, trim_seq};

verus! {

/// `customType` of the bridge messages of the private Bash extension.
pub const BRIDGE_TYPE: &'static str = "pi-grok-background-bash/v1";

/// The pager's marker for a task that died with a previous process: the row
/// is finalized without a fresh failure block in the transcript.
pub const ORPHANED_SIGNAL: &'static str = "session_restart";

/// serde's wire shape of a `SystemTime`: whole seconds and nanoseconds since
/// the Unix epoch.
#[derive(Debug, Clone, Copy, PartialEq, Eq, Structural)]
pub struct WireTime {
    pub secs: u64,
    pub nanos: u32,
}

/// What a bridge event tells the pager.
#[derive(Debug, PartialEq)]
pub enum BackgroundBashProjection {
    Started {
        task_id: String,
        tool_call_id: String,
        command: String,
        cwd: String,
        output_file: String,
        description: Option<String>,
    },
    Completed { tool_call_id: String, task_snapshot: Json },
}

/// A projection as plain values.
pub enum ProjectionView {
    Started {
        task_id: Seq<char>,
        tool_call_id: Seq<char>,
        command: Seq<char>,
        cwd: Seq<char>,
        output_file: Seq<char>,
        description: Option<Seq<char>>,
    },
    Completed { tool_call_id: Seq<char>, task_snapshot: JsonView },
}

pub open spec fn opt_string_view(s: Option<String>) -> Option<Seq<char>> {
    match s {
        Some(x) => Some(x@),
        None => None,
    }
}

impl View for BackgroundBashProjection {
    type V = ProjectionView;

    open spec fn view(&self) -> ProjectionView {
        match self {
            BackgroundBashProjection::Started {
                task_id,
                tool_call_id,
                command,
                cwd,
                output_file,
                description,
            } => ProjectionView::Started {
                task_id: task_id@,
                tool_call_id: tool_call_id@,
                command: command@,
                cwd: cwd@,
                output_file: output_file@,
                description: opt_string_view(*description),
            },
            BackgroundBashProjection::Completed { tool_call_id, task_snapshot } =>
                ProjectionView::Completed {
                tool_call_id: tool_call_id@,
                task_snapshot: jv(*task_snapshot),
            },
        }
    }
}

pub open spec fn opt_projection_view(p: Option<BackgroundBashProjection>) -> Option<ProjectionView> {
    match p {
        Some(x) => Some(x@),
        None => None,
    }
}

/// A string member, trimmed, that is not blank.
pub open spec fn required_v(v: JsonView, key: Seq<char>) -> Option<Seq<char>> {
    match vstr(vget(v, key)) {
        Some(s) => if trim_seq(s).len() > 0 {
            Some(trim_seq(s))
        } else {
            None
        },
        None => None,
    }
}

/// The projection a details payload describes, if any.
pub open spec fn details_v(d: JsonView) -> Option<ProjectionView> {
    let ev = vstr(vget(d, "event"@));
    if ev == Some("started"@) {
        match (
            required_v(d, "taskId"@),
            required_v(d, "toolCallId"@),
            required_v(d, "command"@),
            required_v(d, "cwd"@),
            required_v(d, "outputFile"@),
        ) {
            (Some(task_id), Some(tool_call_id), Some(command), Some(cwd), Some(output_file)) => Some(
                ProjectionView::Started {
                    task_id,
                    tool_call_id,
                    command,
                    cwd,
                    output_file,
                    description: required_v(d, "description"@),
                },
            ),
            _ => None,
        }
    } else if ev == Some("completed"@) {
        match vget(d, "taskSnapshot"@) {
            Some(snap) => if vstr(vget(snap, "task_id"@)) is None {
                None
            } else {
                match required_v(d, "toolCallId"@) {
                    Some(t) => Some(ProjectionView::Completed { tool_call_id: t, task_snapshot: snap }),
                    None => None,
                }
            },
            None => None,
        }
    } else {
        None
    }
}

/// The message inside an event: its `message` member, or the event itself.
pub open spec fn message_v(event: JsonView) -> JsonView {
    match vget(event, "message"@) {
        Some(m) => m,
        None => event,
    }
}

/// The projection a Pi `message_end` event carries, if it is a bridge message.
pub open spec fn message_projection_v(event: JsonView) -> Option<ProjectionView> {
    let m = message_v(event);
    if vstr(vget(m, "role"@)) == Some("custom"@) && vstr(vget(m, "customType"@)) == Some(
        BRIDGE_TYPE@,
    ) {
        details_v(
            match vget(m, "details"@) {
                Some(d) => d,
                None => m,
            },
        )
    } else {
        None
    }
}

/// The trimmed, non-blank string member `key`.
pub fn required_string(value: &Json, key: &str) -> (r: Option<String>)
    ensures
        opt_string_view(r) == required_v(jv(*value), key@),
{
    match field_str(value, key) {
        Some(s) => {
            let t = trim(s);
            if t.unicode_len() > 0 {
                Some(t.to_owned())
            } else {
                None
            }
        },
        None => None,
    }
}

/// Same as `required_string`, for members that may be absent.
pub fn optional_string(value: &Json, key: &str) -> (r: Option<String>)
    ensures
        opt_string_view(r) == required_v(jv(*value), key@),
{
    required_string(value, key)
}

fn parse_background_bash_details(details: &Json) -> (r: Option<BackgroundBashProjection>)
    ensures
        opt_projection_view(r) == details_v(jv(*details)),
{
    let event = match field_str(details, "event") {
        Some(e) => e,
        None => {
            return None;
        },
    };
    if str_eq(event, "started") {
        let task_id = required_string(details, "taskId");
        let tool_call_id = required_string(details, "toolCallId");
        let command = required_string(details, "command");
        let cwd = required_string(details, "cwd");
        let output_file = required_string(details, "outputFile");
        match (task_id, tool_call_id, command, cwd, output_file) {
            (Some(task_id), Some(tool_call_id), Some(command), Some(cwd), Some(output_file)) => {
                Some(
                    BackgroundBashProjection::Started {
                        task_id,
                        tool_call_id,
                        command,
                        cwd,
                        output_file,
                        description: optional_string(details, "description"),
                    },
                )
            },
            _ => None,
        }
    } else if str_eq(event, "completed") {
        let snapshot = match field(details, "taskSnapshot") {
            Some(s) => s,
            None => {
                return None;
            },
        };
        if field_str(snapshot, "task_id").is_none() {
            return None;
        }
        match required_string(details, "toolCallId") {
            Some(tool_call_id) => Some(
                BackgroundBashProjection::Completed {
                    tool_call_id,
                    task_snapshot: snapshot.deep_clone(),
                },
            ),
            None => None,
        }
    } else {
        None
    }
}

/// Parse a Pi `message_end` custom message of the private Bash extension.
/// Other messages give `None` and keep their normal handling.
pub fn parse_background_bash_message(event: &Json) -> (r: Option<BackgroundBashProjection>)
    ensures
        opt_projection_view(r) == message_projection_v(jv(*event)),
{
    let message = match field(event, "message") {
        Some(m) => m,
        None => event,
    };
    let role_ok = match field_str(message, "role") {
        Some(r) => str_eq(r, "custom"),
        None => false,
    };
    let type_ok = match field_str(message, "customType") {
        Some(t) => str_eq(t, BRIDGE_TYPE),
        None => false,
    };
    if !role_ok || !type_ok {
        return None;
    }
    let details = match field(message, "details") {
        Some(d) => d,
        None => message,
    };
    parse_background_bash_details(details)
}

/// Parse the private `__pi_grok_bash_task__` status payload, which carries
/// terminal state besides the bridge message.
pub fn parse_background_bash_status(payload: &Json) -> (r: Option<BackgroundBashProjection>)
    ensures
        opt_projection_view(r) == details_v(jv(*payload)),
{
    parse_background_bash_details(payload)
}


/// The registration a background Bash tool result carries. The description
/// comes from the result, else from the call's `description` or `task_name`.
pub open spec fn tool_result_v(
    tool_name: Seq<char>,
    tool_call_id: Seq<char>,
    args: Option<JsonView>,
    result: JsonView,
) -> Option<ProjectionView> {
    if tool_name != "bash"@ {
        None
    } else {
        match vget(result, "details"@) {
            None => None,
            Some(d) => if vbool(vget(d, "background"@)) != Some(true) {
                None
            } else {
                let description = match required_v(d, "description"@) {
                    Some(x) => Some(x),
                    None => match args {
                        Some(a) => match required_v(a, "description"@) {
                            Some(x) => Some(x),
                            None => required_v(a, "task_name"@),
                        },
                        None => None,
                    },
                };
                match (
                    required_v(d, "taskId"@),
                    required_v(d, "command"@),
                    required_v(d, "cwd"@),
                    required_v(d, "outputFile"@),
                ) {
                    (Some(task_id), Some(command), Some(cwd), Some(output_file)) => Some(
                        ProjectionView::Started {
                            task_id,
                            tool_call_id,
                            command,
                            cwd,
                            output_file,
                            description,
                        },
                    ),
                    _ => None,
                }
            },
        }
    }
}

/// Extract the immediate background-task registration from the private Bash
/// tool result.
pub fn parse_background_bash_tool_result(
    tool_name: &str,
    tool_call_id: &str,
    args: Option<&Json>,
    result: &Json,
) -> (r: Option<BackgroundBashProjection>)
    ensures
        opt_projection_view(r) == tool_result_v(
            tool_name@,
            tool_call_id@,
            opt_json_view(args),
            jv(*result),
        ),
{
    if !str_eq(tool_name, "bash") {
        return None;
    }
    let details = match field(result, "details") {
        Some(d) => d,
        None => {
            return None;
        },
    };
    match field_bool(details, "background") {
        Some(true) => {},
        _ => {
            return None;
        },
    }
    let description = match optional_string(details, "description") {
        Some(x) => Some(x),
        None => match args {
            Some(a) => match optional_string(a, "description") {
                Some(x) => Some(x),
                None => optional_string(a, "task_name"),
            },
            None => None,
        },
    };
    let task_id = required_string(details, "taskId");
    let command = required_string(details, "command");
    let cwd = required_string(details, "cwd");
    let output_file = required_string(details, "outputFile");
    match (task_id, command, cwd, output_file) {
        (Some(task_id), Some(command), Some(cwd), Some(output_file)) => Some(
            BackgroundBashProjection::Started {
                task_id,
                tool_call_id: tool_call_id.to_owned(),
                command,
                cwd,
                output_file,
                description,
            },
        ),
        _ => None,
    }
}

/// The session notification the pager's background-task handlers consume.
pub open spec fn notification_v(session_id: Seq<char>, p: ProjectionView) -> (Seq<char>, JsonView) {
    match p {
        ProjectionView::Started { task_id, tool_call_id, command, cwd, output_file, description } => (
            "x.ai/task_backgrounded"@,
            JsonView::Object(
                seq![
                    ("sessionId"@, JsonView::Str(session_id)),
                    (
                        "update"@,
                        JsonView::Object(
                            seq![
                                ("sessionUpdate"@, JsonView::Str("task_backgrounded"@)),
                                ("tool_call_id"@, JsonView::Str(tool_call_id)),
                                ("task_id"@, JsonView::Str(task_id)),
                                ("command"@, JsonView::Str(command)),
                                ("cwd"@, JsonView::Str(cwd)),
                                ("output_file"@, JsonView::Str(output_file)),
                                (
                                    "description"@,
                                    match description {
                                        Some(d) => JsonView::Str(d),
                                        None => JsonView::Null,
                                    },
                                ),
                            ],
                        ),
                    ),
                ],
            ),
        ),
        ProjectionView::Completed { task_snapshot, .. } => (
            "x.ai/task_completed"@,
            JsonView::Object(
                seq![
                    ("sessionId"@, JsonView::Str(session_id)),
                    (
                        "update"@,
                        JsonView::Object(
                            seq![
                                ("sessionUpdate"@, JsonView::Str("task_completed"@)),
                                ("task_snapshot"@, task_snapshot),
                                ("will_wake"@, JsonView::Bool(false)),
                            ],
                        ),
                    ),
                ],
            ),
        ),
    }
}

/// Render a projection as the session-notification envelope (method and
/// params) of the pager's background-task handlers.
pub fn background_bash_notification(session_id: &str, projection: &BackgroundBashProjection) -> (r: (
    &'static str,
    Json,
))
    ensures
        (r.0@, jv(r.1)) == notification_v(session_id@, projection@),
{
    match projection {
        BackgroundBashProjection::Started {
            task_id,
            tool_call_id,
            command,
            cwd,
            output_file,
            description,
        } => {
            let desc = match description {
                Some(d) => jstr(d.as_str()),
                None => Json::Null,
            };
            let update = vec![
                ("sessionUpdate".to_owned(), jstr("task_backgrounded")),
                ("tool_call_id".to_owned(), jstr(tool_call_id.as_str())),
                ("task_id".to_owned(), jstr(task_id.as_str())),
                ("command".to_owned(), jstr(command.as_str())),
                ("cwd".to_owned(), jstr(cwd.as_str())),
                ("output_file".to_owned(), jstr(output_file.as_str())),
                ("description".to_owned(), desc),
            ];
            let ghost uv = members_view(update@);
            let u = jobj(update);
            let env = vec![("sessionId".to_owned(), jstr(session_id)), ("update".to_owned(), u)];
            let ghost ev = members_view(env@);
            let j = jobj(env);
            proof {
                let (m, want) = notification_v(session_id@, projection@);
                let wu = want->Object_0[1].1->Object_0;
                assert(uv =~= wu);
                assert(ev =~= want->Object_0);
            }
            ("x.ai/task_backgrounded", j)
        },
        BackgroundBashProjection::Completed { task_snapshot, .. } => {
            let update = vec![
                ("sessionUpdate".to_owned(), jstr("task_completed")),
                ("task_snapshot".to_owned(), task_snapshot.deep_clone()),
                ("will_wake".to_owned(), Json::Bool(false)),
            ];
            let ghost uv = members_view(update@);
            let u = jobj(update);
            let env = vec![("sessionId".to_owned(), jstr(session_id)), ("update".to_owned(), u)];
            let ghost ev = members_view(env@);
            let j = jobj(env);
            proof {
                let (m, want) = notification_v(session_id@, projection@);
                let wu = want->Object_0[1].1->Object_0;
                assert(uv =~= wu);
                assert(ev =~= want->Object_0);
            }
            ("x.ai/task_completed", j)
        },
    }
}

/// The cumulative Bash output update sent before a completion: only for a
/// completion whose snapshot holds a non-empty `output` string.
pub open spec fn output_update_v(p: ProjectionView) -> Option<JsonView> {
    match p {
        ProjectionView::Completed { tool_call_id, task_snapshot } => match vstr(
            vget(task_snapshot, "output"@),
        ) {
            Some(out) => if out.len() > 0 {
                Some(
                    JsonView::Object(
                        seq![
                            ("toolCallId"@, JsonView::Str(tool_call_id)),
                            (
                                "rawOutput"@,
                                JsonView::Object(
                                    seq![
                                        ("type"@, JsonView::Str("Bash"@)),
                                        ("output_for_prompt"@, JsonView::Str(out)),
                                        (
                                            "truncated"@,
                                            JsonView::Bool(
                                                vbool(vget(task_snapshot, "truncated"@)) == Some(
                                                    true,
                                                ),
                                            ),
                                        ),
                                    ],
                                ),
                            ),
                        ],
                    ),
                )
            } else {
                None
            },
            None => None,
        },
        _ => None,
    }
}

/// Build the cumulative Bash output update for the pager's stdout router.
pub fn background_bash_output_update(projection: &BackgroundBashProjection) -> (r: Option<Json>)
    ensures
        match r {
            Some(j) => output_update_v(projection@) == Some(jv(j)),
            None => output_update_v(projection@) is None,
        },
{
    match projection {
        BackgroundBashProjection::Completed { tool_call_id, task_snapshot } => {
            let output = match field_str(task_snapshot, "output") {
                Some(o) => o,
                None => {
                    return None;
                },
            };
            if output.unicode_len() == 0 {
                return None;
            }
            let truncated = match field_bool(task_snapshot, "truncated") {
                Some(b) => b,
                None => false,
            };
            let raw = vec![
                ("type".to_owned(), jstr("Bash")),
                ("output_for_prompt".to_owned(), jstr(output)),
                ("truncated".to_owned(), Json::Bool(truncated)),
            ];
            let ghost rv = members_view(raw@);
            let raw_output = jobj(raw);
            let top = vec![
                ("toolCallId".to_owned(), jstr(tool_call_id.as_str())),
                ("rawOutput".to_owned(), raw_output),
            ];
            let ghost tv = members_view(top@);
            let j = jobj(top);
            proof {
                let want = output_update_v(projection@)->Some_0;
                assert(rv =~= want->Object_0[1].1->Object_0);
                assert(tv =~= want->Object_0);
            }
            Some(j)
        },
        _ => None,
    }
}


/// What the pager has been told about one Pi-owned background task. Pi's
/// extension owns the process; the mirror only makes sure a terminal state is
/// projected once, and lets tasks orphaned by a Pi restart be settled.
#[derive(Debug)]
pub struct BackgroundBashTask {
    pub tool_call_id: String,
    pub command: String,
    pub cwd: String,
    pub output_file: String,
    pub started_at: WireTime,
    pub completed: bool,
}

/// A task as plain values.
pub struct TaskView {
    pub tool_call_id: Seq<char>,
    pub command: Seq<char>,
    pub cwd: Seq<char>,
    pub output_file: Seq<char>,
    pub started_at: WireTime,
    pub completed: bool,
}

impl View for BackgroundBashTask {
    type V = TaskView;

    open spec fn view(&self) -> TaskView {
        TaskView {
            tool_call_id: self.tool_call_id@,
            command: self.command@,
            cwd: self.cwd@,
            output_file: self.output_file@,
            started_at: self.started_at,
            completed: self.completed,
        }
    }
}

pub open spec fn or_empty(s: Option<Seq<char>>) -> Seq<char> {
    match s {
        Some(x) => x,
        None => Seq::empty(),
    }
}

/// A task whose terminal state came before its start: recorded completed,
/// from what the snapshot says.
pub open spec fn snapshot_task_v(tool_call_id: Seq<char>, snap: JsonView, now: WireTime) -> TaskView {
    TaskView {
        tool_call_id,
        command: or_empty(required_v(snap, "command"@)),
        cwd: or_empty(required_v(snap, "cwd"@)),
        output_file: or_empty(required_v(snap, "output_file"@)),
        started_at: now,
        completed: true,
    }
}

impl BackgroundBashTask {
    /// A task whose terminal state landed before its start was projected; it
    /// is recorded so a duplicate terminal state on the other channel is
    /// still dropped.
    pub fn completed_from_snapshot(tool_call_id: &str, task_snapshot: &Json, now: WireTime) -> (r:
        Self)
        ensures
            r@ == snapshot_task_v(tool_call_id@, jv(*task_snapshot), now),
    {
        BackgroundBashTask {
            tool_call_id: tool_call_id.to_owned(),
            command: unwrap_or_empty(optional_string(task_snapshot, "command")),
            cwd: unwrap_or_empty(optional_string(task_snapshot, "cwd")),
            output_file: unwrap_or_empty(optional_string(task_snapshot, "output_file")),
            started_at: now,
            completed: true,
        }
    }
}

fn unwrap_or_empty(s: Option<String>) -> (r: String)
    ensures
        r@ == or_empty(opt_string_view(s)),
{
    match s {
        Some(x) => x,
        None => String::new(),
    }
}

/// Tasks as (task id, task) pairs.
pub open spec fn rows_view(rows: Seq<(String, BackgroundBashTask)>) -> Seq<(Seq<char>, TaskView)> {
    rows.map_values(|r: (String, BackgroundBashTask)| (r.0@, r.1@))
}

pub open spec fn row_named(id: Seq<char>) -> spec_fn((Seq<char>, TaskView)) -> bool {
    |r: (Seq<char>, TaskView)| r.0 == id
}

/// No task id occurs twice.
pub open spec fn ids_unique(rows: Seq<(Seq<char>, TaskView)>) -> bool {
    forall|i: int, j: int| 0 <= i < j < rows.len() ==> rows[i].0 != rows[j].0
}

/// Recording a projection: the new task list and whether the projection is
/// forwarded to the pager. A start registers a task once (a repeated start
/// changes nothing). A terminal state is forwarded only the first time, and
/// registers a settled task when no start came before it.
pub open spec fn record_v(rows: Seq<(Seq<char>, TaskView)>, p: ProjectionView, now: WireTime) -> (
    Seq<(Seq<char>, TaskView)>,
    bool,
) {
    match p {
        ProjectionView::Started { task_id, tool_call_id, command, cwd, output_file, .. } => {
            if first_where(rows, row_named(task_id)) >= 0 {
                (rows, true)
            } else {
                (
                    rows.push(
                        (
                            task_id,
                            TaskView {
                                tool_call_id,
                                command,
                                cwd,
                                output_file,
                                started_at: now,
                                completed: false,
                            },
                        ),
                    ),
                    true,
                )
            }
        },
        ProjectionView::Completed { tool_call_id, task_snapshot } => match vstr(
            vget(task_snapshot, "task_id"@),
        ) {
            None => (rows, false),
            Some(id) => {
                let i = first_where(rows, row_named(id));
                if i >= 0 {
                    if rows[i].1.completed {
                        (rows, false)
                    } else {
                        let t = rows[i].1;
                        (
                            rows.update(
                                i,
                                (
                                    id,
                                    TaskView {
                                        tool_call_id: t.tool_call_id,
                                        command: t.command,
                                        cwd: t.cwd,
                                        output_file: t.output_file,
                                        started_at: t.started_at,
                                        completed: true,
                                    },
                                ),
                            ),
                            true,
                        )
                    }
                } else {
                    (rows.push((id, snapshot_task_v(tool_call_id, task_snapshot, now))), true)
                }
            },
        },
    }
}

/// The adapter's mirror of Pi-owned background tasks, by task id.
#[derive(Debug)]
pub struct BackgroundBashTasks {
    rows: Vec<(String, BackgroundBashTask)>,
}

impl BackgroundBashTasks {
    /// The tasks, in the order they were first recorded.
    pub closed spec fn tasks(&self) -> Seq<(Seq<char>, TaskView)> {
        rows_view(self.rows@)
    }

    /// No two tasks share an id.
    pub closed spec fn wf(&self) -> bool {
        ids_unique(self.tasks())
    }

    pub fn new() -> (r: Self)
        ensures
            r.tasks() == Seq::<(Seq<char>, TaskView)>::empty(),
            r.wf(),
    {
        let r = BackgroundBashTasks { rows: Vec::new() };
        assert(r.tasks() =~= Seq::<(Seq<char>, TaskView)>::empty());
        r
    }

    /// The task with id `task_id`.
    pub fn get(&self, task_id: &str) -> (r: Option<&BackgroundBashTask>)
        ensures
            ({
                let i = first_where(self.tasks(), row_named(task_id@));
                match r {
                    Some(t) => i >= 0 && self.tasks()[i].1 == t@,
                    None => i < 0,
                }
            }),
    {
        match self.find(task_id) {
            Some(i) => Some(&self.rows[i].1),
            None => None,
        }
    }

    /// How many tasks are mirrored.
    pub fn len(&self) -> (r: usize)
        ensures
            r == self.tasks().len(),
    {
        self.rows.len()
    }

    fn find(&self, task_id: &str) -> (r: Option<usize>)
        ensures
            match r {
                Some(i) => i < self.rows@.len() && first_where(self.tasks(), row_named(task_id@))
                    == i,
                None => first_where(self.tasks(), row_named(task_id@)) == -1,
            },
    {
        let n = self.rows.len();
        let mut i: usize = 0;
        while i < n
            invariant
                n == self.rows@.len(),
                i <= n,
                forall|j: int| 0 <= j < i ==> !row_named(task_id@)(#[trigger] self.tasks()[j]),
            decreases n - i,
        {
            if str_eq(self.rows[i].0.as_str(), task_id) {
                proof {
                    lemma_first_where_at(self.tasks(), row_named(task_id@), i as int);
                }
                return Some(i);
            }
            i = i + 1;
        }
        proof {
            lemma_first_where_none(self.tasks(), row_named(task_id@));
        }
        None
    }
}

/// Record a lifecycle transition in the mirror and report whether it should
/// be projected to the pager. Terminal state arrives on two channels (the
/// status payload and the bridge message); only the first is forwarded.
/// `now` is the time a newly registered task is stamped with.
pub fn record_background_bash(
    tasks: &mut BackgroundBashTasks,
    projection: &BackgroundBashProjection,
    now: WireTime,
) -> (r: bool)
    requires
        old(tasks).wf(),
    ensures
        final(tasks).wf(),
        (final(tasks).tasks(), r) == record_v(old(tasks).tasks(), projection@, now),
{
    proof {
        crate::seq_util::lemma_first_where_props(tasks.tasks(), row_named(projection_key(projection@)));
    }
    match projection {
        BackgroundBashProjection::Started { task_id, tool_call_id, command, cwd, output_file, .. } => {
            if tasks.find(task_id.as_str()).is_some() {
                return true;
            }
            tasks.rows.push(
                (
                    task_id.clone(),
                    BackgroundBashTask {
                        tool_call_id: tool_call_id.clone(),
                        command: command.clone(),
                        cwd: cwd.clone(),
                        output_file: output_file.clone(),
                        started_at: now,
                        completed: false,
                    },
                ),
            );
            proof {
                let (want, _) = record_v(old(tasks).tasks(), projection@, now);
                assert(tasks.tasks() =~= want);
            }
            true
        },
        BackgroundBashProjection::Completed { tool_call_id, task_snapshot } => {
            let task_id = match field_str(task_snapshot, "task_id") {
                Some(t) => t,
                None => {
                    return false;
                },
            };
            match tasks.find(task_id) {
                Some(i) => {
                    if tasks.rows[i].1.completed {
                        return false;
                    }
                    let (name, mut task) = tasks.rows.remove(i);
                    task.completed = true;
                    tasks.rows.insert(i, (name, task));
                    proof {
                        let (want, _) = record_v(old(tasks).tasks(), projection@, now);
                        assert(tasks.tasks() =~= want);
                    }
                    true
                },
                None => {
                    let task = BackgroundBashTask::completed_from_snapshot(
                        tool_call_id.as_str(),
                        task_snapshot,
                        now,
                    );
                    tasks.rows.push((task_id.to_owned(), task));
                    proof {
                        let (want, _) = record_v(old(tasks).tasks(), projection@, now);
                        assert(tasks.tasks() =~= want);
                    }
                    true
                },
            }
        },
    }
}

/// The id a projection is about.
pub open spec fn projection_key(p: ProjectionView) -> Seq<char> {
    match p {
        ProjectionView::Started { task_id, .. } => task_id,
        ProjectionView::Completed { task_snapshot, .. } => or_empty(
            vstr(vget(task_snapshot, "task_id"@)),
        ),
    }
}


/// serde's wire shape of a time.
pub open spec fn wire_v(t: WireTime) -> JsonView {
    JsonView::Object(
        seq![
            ("secs_since_epoch"@, JsonView::Int(t.secs as i128)),
            ("nanos_since_epoch"@, JsonView::Int(t.nanos as i128)),
        ],
    )
}

/// `{"secs_since_epoch", "nanos_since_epoch"}`, as the extension emits for its
/// own snapshots.
pub fn system_time_wire(time: WireTime) -> (r: Json)
    ensures
        jv(r) == wire_v(time),
{
    let f = vec![
        ("secs_since_epoch".to_owned(), Json::Int(time.secs as i128)),
        ("nanos_since_epoch".to_owned(), Json::Int(time.nanos as i128)),
    ];
    let ghost fv = members_view(f@);
    let r = jobj(f);
    assert(fv =~= wire_v(time)->Object_0);
    r
}

/// The terminal projection of a task whose Pi process is gone: its shells
/// died with it, and `session_restart` stops the pager's running row without
/// claiming the task failed now.
pub open spec fn orphan_v(id: Seq<char>, t: TaskView, now: WireTime) -> ProjectionView {
    ProjectionView::Completed {
        tool_call_id: t.tool_call_id,
        task_snapshot: JsonView::Object(
            seq![
                ("task_id"@, JsonView::Str(id)),
                ("command"@, JsonView::Str(t.command)),
                ("cwd"@, JsonView::Str(t.cwd)),
                ("start_time"@, wire_v(t.started_at)),
                ("end_time"@, wire_v(now)),
                ("output"@, JsonView::Str(""@)),
                ("output_file"@, JsonView::Str(t.output_file)),
                ("truncated"@, JsonView::Bool(false)),
                ("exit_code"@, JsonView::Null),
                ("signal"@, JsonView::Str(ORPHANED_SIGNAL@)),
                ("completed"@, JsonView::Bool(true)),
                ("kind"@, JsonView::Str("bash"@)),
                ("block_waited"@, JsonView::Bool(false)),
                ("explicitly_killed"@, JsonView::Bool(false)),
            ],
        ),
    }
}

/// Terminal projection for a task whose owning Pi process is gone, settled
/// at `now`.
pub fn orphaned_background_bash_completion(
    task_id: &str,
    task: &BackgroundBashTask,
    now: WireTime,
) -> (r: BackgroundBashProjection)
    ensures
        r@ == orphan_v(task_id@, task@, now),
{
    let f = vec![
        ("task_id".to_owned(), jstr(task_id)),
        ("command".to_owned(), jstr(task.command.as_str())),
        ("cwd".to_owned(), jstr(task.cwd.as_str())),
        ("start_time".to_owned(), system_time_wire(task.started_at)),
        ("end_time".to_owned(), system_time_wire(now)),
        ("output".to_owned(), jstr("")),
        ("output_file".to_owned(), jstr(task.output_file.as_str())),
        ("truncated".to_owned(), Json::Bool(false)),
        ("exit_code".to_owned(), Json::Null),
        ("signal".to_owned(), jstr(ORPHANED_SIGNAL)),
        ("completed".to_owned(), Json::Bool(true)),
        ("kind".to_owned(), jstr("bash")),
        ("block_waited".to_owned(), Json::Bool(false)),
        ("explicitly_killed".to_owned(), Json::Bool(false)),
    ];
    let ghost fv = members_view(f@);
    let snapshot = jobj(f);
    proof {
        let want = orphan_v(task_id@, task@, now);
        assert(fv =~= want->Completed_task_snapshot->Object_0);
    }
    BackgroundBashProjection::Completed {
        tool_call_id: task.tool_call_id.clone(),
        task_snapshot: snapshot,
    }
}

/// The completions of the tasks still running, in order.
pub open spec fn orphans_v(rows: Seq<(Seq<char>, TaskView)>, now: WireTime) -> Seq<ProjectionView>
    decreases rows.len(),
{
    if rows.len() == 0 {
        Seq::empty()
    } else {
        let o = orphans_v(rows.drop_last(), now);
        if !rows.last().1.completed {
            o.push(orphan_v(rows.last().0, rows.last().1, now))
        } else {
            o
        }
    }
}

/// Every task marked settled.
pub open spec fn settled_v(rows: Seq<(Seq<char>, TaskView)>) -> Seq<(Seq<char>, TaskView)> {
    rows.map_values(
        |r: (Seq<char>, TaskView)|
            (
                r.0,
                TaskView {
                    tool_call_id: r.1.tool_call_id,
                    command: r.1.command,
                    cwd: r.1.cwd,
                    output_file: r.1.output_file,
                    started_at: r.1.started_at,
                    completed: true,
                },
            ),
    )
}

pub open spec fn projections_view(v: Seq<BackgroundBashProjection>) -> Seq<ProjectionView> {
    v.map_values(|p: BackgroundBashProjection| p@)
}

/// Settle every task still mirrored as running and hand back their terminal
/// projections, stamped `now`. Used when the Pi process that owned the
/// shells is gone.
pub fn drain_running_background_bash(tasks: &mut BackgroundBashTasks, now: WireTime) -> (r: Vec<
    BackgroundBashProjection,
>)
    requires
        old(tasks).wf(),
    ensures
        final(tasks).wf(),
        final(tasks).tasks() == settled_v(old(tasks).tasks()),
        projections_view(r@) == orphans_v(old(tasks).tasks(), now),
{
    let ghost orig = tasks.tasks();
    let n = tasks.rows.len();
    let mut out: Vec<BackgroundBashProjection> = Vec::new();
    let mut i: usize = 0;
    assert(orig.take(0) =~= Seq::<(Seq<char>, TaskView)>::empty());
    assert(projections_view(out@) =~= Seq::<ProjectionView>::empty());
    while i < n
        invariant
            n == tasks.rows@.len(),
            n == orig.len(),
            i <= n,
            ids_unique(orig),
            tasks.tasks().len() == n,
            forall|k: int| 0 <= k < i ==> #[trigger] tasks.tasks()[k] == settled_v(orig)[k],
            forall|k: int| i <= k < n ==> #[trigger] tasks.tasks()[k] == orig[k],
            projections_view(out@) == orphans_v(orig.take(i as int), now),
        decreases n - i,
    {
        proof {
            assert(orig.take(i + 1).drop_last() =~= orig.take(i as int));
            assert(tasks.tasks()[i as int] == orig[i as int]);
        }
        if !tasks.rows[i].1.completed {
            let p = orphaned_background_bash_completion(
                tasks.rows[i].0.as_str(),
                &tasks.rows[i].1,
                now,
            );
            out.push(p);
            let ghost before = tasks.rows@;
            let (name, mut task) = tasks.rows.remove(i);
            task.completed = true;
            tasks.rows.insert(i, (name, task));
            proof {
                assert(tasks.rows@ =~= before.update(i as int, (name, task)));
                assert forall|k: int| 0 <= k < n && k != i implies #[trigger] tasks.tasks()[k]
                    == rows_view(before)[k] by {
                    assert(tasks.rows@[k] == before[k]);
                }
                assert(tasks.tasks()[i as int] == settled_v(orig)[i as int]);
                assert(projections_view(out@) =~= orphans_v(orig.take(i + 1), now));
            }
        } else {
            proof {
                assert(tasks.tasks()[i as int] == settled_v(orig)[i as int]);
            }
        }
        i = i + 1;
    }
    proof {
        assert(orig.take(n as int) =~= orig);
        assert(tasks.tasks() =~= settled_v(orig));
    }
    out
}


/// The task `id` is mirrored and settled.
pub open spec fn settled(rows: Seq<(Seq<char>, TaskView)>, id: Seq<char>) -> bool {
    let i = first_where(rows, row_named(id));
    i >= 0 && rows[i].1.completed
}

proof fn lemma_record_completion_settles(
    rows: Seq<(Seq<char>, TaskView)>,
    p: ProjectionView,
    now: WireTime,
    id: Seq<char>,
)
    requires
        p is Completed,
        vstr(vget(p->Completed_task_snapshot, "task_id"@)) == Some(id),
    ensures
        settled(record_v(rows, p, now).0, id),
{
    lemma_first_where_props(rows, row_named(id));
    let i = first_where(rows, row_named(id));
    let rows1 = record_v(rows, p, now).0;
    if i >= 0 {
        if !rows[i].1.completed {
            assert forall|k: int| 0 <= k < i implies !row_named(id)(#[trigger] rows1[k]) by {
                assert(rows1[k] == rows[k]);
            }
            lemma_first_where_at(rows1, row_named(id), i);
        }
    } else {
        assert forall|k: int| 0 <= k < rows.len() implies !row_named(id)(#[trigger] rows1[k]) by {
            assert(rows1[k] == rows[k]);
        }
        lemma_first_where_at(rows1, row_named(id), rows.len() as int);
    }
}

proof fn lemma_record_keeps_settled(
    rows: Seq<(Seq<char>, TaskView)>,
    q: ProjectionView,
    now: WireTime,
    id: Seq<char>,
)
    requires
        settled(rows, id),
    ensures
        settled(record_v(rows, q, now).0, id),
        (q is Completed && vstr(vget(q->Completed_task_snapshot, "task_id"@)) == Some(id)) ==> !record_v(
            rows,
            q,
            now,
        ).1,
{
    lemma_first_where_props(rows, row_named(id));
    let i = first_where(rows, row_named(id));
    let rows1 = record_v(rows, q, now).0;
    let k = first_where(rows, row_named(projection_key(q)));
    lemma_first_where_props(rows, row_named(projection_key(q)));
    if rows1 != rows {
        assert forall|j: int| 0 <= j < i implies !row_named(id)(#[trigger] rows1[j]) by {
            assert(rows1[j].0 == rows[j].0);
        }
        assert(rows1[i].0 == rows[i].0);
        lemma_first_where_at(rows1, row_named(id), i);
        if q is Completed && k >= 0 && k == i {
            assert(false);
        }
    }
}

/// A task's terminal state reaches the pager once: after a completion is
/// recorded, any later completion for the same task, on either channel and
/// after any other transitions, is dropped, and a late start does not make
/// the task run again.
pub proof fn lemma_terminal_state_projected_once(
    rows: Seq<(Seq<char>, TaskView)>,
    p: ProjectionView,
    between: Seq<ProjectionView>,
    q: ProjectionView,
    now: WireTime,
)
    requires
        p is Completed,
        q is Completed,
        vstr(vget(p->Completed_task_snapshot, "task_id"@)) is Some,
        vstr(vget(q->Completed_task_snapshot, "task_id"@)) == vstr(
            vget(p->Completed_task_snapshot, "task_id"@),
        ),
    ensures
        settled(record_all(record_v(rows, p, now).0, between, now), projection_key(p)),
        !record_v(record_all(record_v(rows, p, now).0, between, now), q, now).1,
    decreases between.len(),
{
    let id = vstr(vget(p->Completed_task_snapshot, "task_id"@))->Some_0;
    if between.len() == 0 {
        lemma_record_completion_settles(rows, p, now, id);
    } else {
        lemma_terminal_state_projected_once(rows, p, between.drop_last(), q, now);
        let mid = record_all(record_v(rows, p, now).0, between.drop_last(), now);
        lemma_record_keeps_settled(mid, between.last(), now, id);
    }
    lemma_record_keeps_settled(record_all(record_v(rows, p, now).0, between, now), q, now, id);
}

/// Recording several projections in turn.
pub open spec fn record_all(
    rows: Seq<(Seq<char>, TaskView)>,
    ps: Seq<ProjectionView>,
    now: WireTime,
) -> Seq<(Seq<char>, TaskView)>
    decreases ps.len(),
{
    if ps.len() == 0 {
        rows
    } else {
        record_v(record_all(rows, ps.drop_last(), now), ps.last(), now).0
    }
}

/// After a drain nothing is left running: a second drain settles nothing.
pub proof fn lemma_drain_settles_everything(rows: Seq<(Seq<char>, TaskView)>, now: WireTime)
    ensures
        orphans_v(settled_v(rows), now) == Seq::<ProjectionView>::empty(),
    decreases rows.len(),
{
    if rows.len() > 0 {
        assert(settled_v(rows).drop_last() =~= settled_v(rows.drop_last()));
        lemma_drain_settles_everything(rows.drop_last(), now);
    }
}

} // verus!

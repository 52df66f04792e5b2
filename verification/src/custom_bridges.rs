//! Custom-message bridges from the host-feature extensions (workflow, loop,
//! goal): recognising their messages and reading a workflow tool request.
//!
//! Pi delivers an extension's custom message as the event itself, or under
//! its `message` or `entry` member; the message names its bridge in
//! `customType` (or `type`) and carries its payload in `details` (or
//! `data`).
use vstd::prelude::*;
use crate::json::{
    Json, JsonView, jv, vget, vstr, vget_either, field, field_either, opt_as_str,
    jobj, jstr,
};

verus! {

/// Custom type of workflow bridge messages.
pub const WORKFLOW_BRIDGE_TYPE: &'static str = "pi-grok-workflow/v1";

/// Custom type of scheduled-task (loop) bridge messages.
pub const LOOP_BRIDGE_TYPE: &'static str = "pi-grok-loop/v1";

/// Custom type of goal bridge messages.
pub const GOAL_BRIDGE_TYPE: &'static str = "pi-grok-goal/v1";

/// The custom message an event carries: its `message`, else its `entry`,
/// else the event itself.
pub open spec fn bridge_message_v(event: JsonView) -> JsonView {
    match vget_either(event, "message"@, "entry"@) {
        Some(m) => m,
        None => event,
    }
}

/// The message's custom type: a string `customType`, else a string `type`.
pub open spec fn custom_type_v(message: JsonView) -> Option<Seq<char>> {
    match vstr(vget(message, "customType"@)) {
        Some(t) => Some(t),
        None => vstr(vget(message, "type"@)),
    }
}

/// The message's payload: its `details`, else its `data`, else null.
pub open spec fn bridge_details_v(message: JsonView) -> JsonView {
    match vget_either(message, "details"@, "data"@) {
        Some(d) => d,
        None => JsonView::Null,
    }
}

fn bridge_message(event: &Json) -> (r: &Json)
    ensures
        jv(*r) == bridge_message_v(jv(*event)),
{
    match field_either(event, "message", "entry") {
        Some(m) => m,
        None => event,
    }
}

fn custom_type(message: &Json) -> (r: Option<&str>)
    ensures
        crate::json::opt_str_view(r) == custom_type_v(jv(*message)),
{
    match opt_as_str(field(message, "customType")) {
        Some(t) => Some(t),
        None => opt_as_str(field(message, "type")),
    }
}

/// Whether `event` is a custom message of bridge `custom_type`.
pub fn is_bridge_message(event: &Json, custom_type_name: &str) -> (b: bool)
    ensures
        b == (custom_type_v(bridge_message_v(jv(*event))) == Some(custom_type_name@)),
{
    match custom_type(bridge_message(event)) {
        Some(t) => crate::text::str_eq(t, custom_type_name),
        None => false,
    }
}

/// The payload of `event` when it is a custom message of bridge
/// `custom_type_name`, a copy; `None` for any other event.
pub fn bridge_details(event: &Json, custom_type_name: &str) -> (r: Option<Json>)
    ensures
        match r {
            Some(d) => custom_type_v(bridge_message_v(jv(*event))) == Some(custom_type_name@) && jv(d)
                == bridge_details_v(bridge_message_v(jv(*event))),
            None => custom_type_v(bridge_message_v(jv(*event))) != Some(custom_type_name@),
        },
{
    if !is_bridge_message(event, custom_type_name) {
        return None;
    }
    let message = bridge_message(event);
    match field_either(message, "details", "data") {
        Some(d) => Some(d.deep_clone()),
        None => Some(Json::Null),
    }
}

/// What a workflow bridge message asks for.
#[derive(Clone, Debug, PartialEq, Eq)]
pub enum WorkflowBridgeEvent {
    /// Run workflow tool `name` with `args`; when `response_path` is given,
    /// run it to completion and write the response there (the extension
    /// polls that file).
    ToolRequest { name: String, args: String, response_path: Option<String> },
    /// Anything else: re-publish the workflow notifications.
    Refresh,
}

/// The text of member `key` of `v`, empty when it is missing or not a
/// string.
pub open spec fn text_or_empty(v: JsonView, key: Seq<char>) -> Seq<char> {
    match vstr(vget(v, key)) {
        Some(s) => s,
        None => Seq::empty(),
    }
}

/// The workflow request of `event`: `None` unless it is a workflow bridge
/// message; a tool request when its payload's `kind` is `tool_request`
/// (`name` and `args` default to empty, the response path is
/// `responsePath`, else `response_path`, when a string); otherwise a
/// refresh.
pub fn parse_workflow_bridge(event: &Json) -> (r: Option<WorkflowBridgeEvent>)
    ensures
        ({
            let m = bridge_message_v(jv(*event));
            let d = bridge_details_v(m);
            if custom_type_v(m) != Some(WORKFLOW_BRIDGE_TYPE@) {
                r is None
            } else if vstr(vget(d, "kind"@)) == Some("tool_request"@) {
                r matches Some(WorkflowBridgeEvent::ToolRequest { name, args, response_path })
                    && name@ == text_or_empty(d, "name"@) && args@ == text_or_empty(d, "args"@)
                    && crate::queue_runtime::opt_text(response_path) == vstr(
                    vget_either(d, "responsePath"@, "response_path"@),
                )
            } else {
                r == Some(WorkflowBridgeEvent::Refresh)
            }
        }),
{
    let details = match bridge_details(event, WORKFLOW_BRIDGE_TYPE) {
        None => return None,
        Some(d) => d,
    };
    let kind = opt_as_str(field(&details, "kind"));
    let is_tool = match kind {
        Some(k) => crate::text::str_eq(k, "tool_request"),
        None => false,
    };
    if !is_tool {
        return Some(WorkflowBridgeEvent::Refresh);
    }
    let name = match opt_as_str(field(&details, "name")) {
        Some(s) => s.to_owned(),
        None => String::new(),
    };
    let args = match opt_as_str(field(&details, "args")) {
        Some(s) => s.to_owned(),
        None => String::new(),
    };
    let response_path = match opt_as_str(field_either(&details, "responsePath", "response_path")) {
        Some(s) => Some(s.to_owned()),
        None => None,
    };
    Some(WorkflowBridgeEvent::ToolRequest { name, args, response_path })
}

/// The notice for a failed workflow request: `Workflow request failed: `
/// and the error.
pub fn workflow_failure_text(error: &str) -> (r: String)
    ensures
        r@ == "Workflow request failed: "@ + error@,
{
    let mut out = String::new();
    out.append("Workflow request failed: ");
    out.append(error);
    out
}

/// The response file written for a failed workflow tool request: the error
/// and the notice text.
pub fn workflow_failure_payload(error: &str) -> (r: Json)
    ensures
        jv(r) == JsonView::Object(
            seq![
                ("error"@, JsonView::Str(error@)),
                ("text"@, JsonView::Str("Workflow request failed: "@ + error@)),
            ],
        ),
{
    let mut f: Vec<(String, Json)> = Vec::new();
    f.push(("error".to_owned(), jstr(error)));
    let text = workflow_failure_text(error);
    f.push(("text".to_owned(), Json::Str(text)));
    let r = jobj(f);
    assert(crate::json::members_view(f@) =~= seq![
        ("error"@, JsonView::Str(error@)),
        ("text"@, JsonView::Str("Workflow request failed: "@ + error@)),
    ]);
    r
}

} // verus!

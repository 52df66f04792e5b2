//! Session-tree commands: the arguments of the navigate and label bridge
//! commands and of the RPC `fork` request, and what a fork answered.
use vstd::prelude::*;
use crate::ext_requests::{ExtMethodError, ExtErrV};
use crate::json::{Json, JsonView, jv, vget, vbool, vstr, field_bool, field_str, jobj, jstr, members_view};
use crate::text::{trim, trim_seq};

verus! {

pub open spec fn text_result(r: Result<String, ExtMethodError>) -> Result<Seq<char>, ExtErrV> {
    match r {
        Ok(s) => Ok(s@),
        Err(e) => Err(e@),
    }
}

pub open spec fn opt_text(o: Option<&str>) -> Option<Seq<char>> {
    match o {
        Some(s) => Some(s@),
        None => None,
    }
}

/// Refused while a response is still running.
pub const NAVIGATE_BUSY_MESSAGE: &'static str =
    "wait for the current Pi response before navigating the session tree";

/// The navigate command's arguments: the trimmed entry id, then
/// ` --summarize` when asked, then ` --instructions <text>` for non-blank
/// instructions (trimmed). Refused for a blank entry id, then while a run
/// is in progress or a client awaits a prompt (`busy`).
pub open spec fn navigate_args_v(
    entry_id: Seq<char>,
    summarize: bool,
    instructions: Option<Seq<char>>,
    busy: bool,
) -> Result<Seq<char>, ExtErrV> {
    let id = trim_seq(entry_id);
    if id.len() == 0 {
        Err(ExtErrV::InvalidParams("tree entry id is empty"@))
    } else if busy {
        Err(ExtErrV::InvalidParams(NAVIGATE_BUSY_MESSAGE@))
    } else {
        let with_summary = if summarize {
            id + " --summarize"@
        } else {
            id
        };
        Ok(
            match instructions {
                Some(t) if trim_seq(t).len() > 0 => with_summary + " --instructions "@ + trim_seq(t),
                _ => with_summary,
            },
        )
    }
}

/// Navigating with non-blank instructions gives the arguments without them
/// followed by ` --instructions ` and the trimmed instructions, whether or
/// not a summary is asked for; those arguments are the trimmed entry id,
/// with ` --summarize` exactly when a summary is asked for. Blank
/// instructions are the same as none, and a busy adapter refuses.
pub proof fn lemma_navigate_args_parts(entry_id: Seq<char>, summarize: bool, instructions: Seq<char>)
    requires
        trim_seq(entry_id).len() > 0,
    ensures
        navigate_args_v(entry_id, false, None, false) == Ok::<Seq<char>, ExtErrV>(trim_seq(entry_id)),
        navigate_args_v(entry_id, true, None, false) == Ok::<Seq<char>, ExtErrV>(
            trim_seq(entry_id) + " --summarize"@,
        ),
        trim_seq(instructions).len() > 0 ==> navigate_args_v(
            entry_id,
            summarize,
            Some(instructions),
            false,
        ) == Ok::<Seq<char>, ExtErrV>(navigate_args_v(entry_id, summarize, None, false)->Ok_0
            + " --instructions "@ + trim_seq(instructions)),
        trim_seq(instructions).len() == 0 ==> navigate_args_v(
            entry_id,
            summarize,
            Some(instructions),
            false,
        ) == navigate_args_v(entry_id, summarize, None, false),
        navigate_args_v(entry_id, summarize, Some(instructions), true) == Err::<Seq<char>, ExtErrV>(
            ExtErrV::InvalidParams(NAVIGATE_BUSY_MESSAGE@),
        ),
{
}

/// Navigating is refused for a blank entry id, busy or not, and else while
/// the adapter is busy.
pub proof fn lemma_navigate_refusals(
    entry_id: Seq<char>,
    summarize: bool,
    instructions: Option<Seq<char>>,
    busy: bool,
)
    ensures
        trim_seq(entry_id).len() == 0 ==> navigate_args_v(entry_id, summarize, instructions, busy)
            == Err::<Seq<char>, ExtErrV>(ExtErrV::InvalidParams("tree entry id is empty"@)),
        trim_seq(entry_id).len() > 0 && busy ==> navigate_args_v(
            entry_id,
            summarize,
            instructions,
            busy,
        ) == Err::<Seq<char>, ExtErrV>(ExtErrV::InvalidParams(NAVIGATE_BUSY_MESSAGE@)),
{
}

pub fn navigate_tree_args(
    entry_id: &str,
    summarize: bool,
    custom_instructions: Option<&str>,
    busy: bool,
) -> (r: Result<String, ExtMethodError>)
    ensures
        text_result(r) == navigate_args_v(entry_id@, summarize, opt_text(custom_instructions), busy),
{
    let id = trim(entry_id);
    if id.unicode_len() == 0 {
        return Err(ExtMethodError::InvalidParams("tree entry id is empty".to_owned()));
    }
    if busy {
        return Err(ExtMethodError::InvalidParams(NAVIGATE_BUSY_MESSAGE.to_owned()));
    }
    let mut args = id.to_owned();
    if summarize {
        args.append(" --summarize");
    }
    match custom_instructions {
        Some(t) => {
            let text = trim(t);
            if text.unicode_len() > 0 {
                args.append(" --instructions ");
                args.append(text);
            }
        },
        None => {},
    }
    Ok(args)
}

/// The label command's arguments: the trimmed entry id and the trimmed
/// label, or `--clear` for a missing or blank label. Refused for a blank
/// entry id.
pub open spec fn label_args_v(entry_id: Seq<char>, label: Option<Seq<char>>) -> Result<Seq<char>, ExtErrV> {
    let id = trim_seq(entry_id);
    if id.len() == 0 {
        Err(ExtErrV::InvalidParams("tree entry id is empty"@))
    } else {
        Ok(
            match label {
                Some(t) if trim_seq(t).len() > 0 => id + " "@ + trim_seq(t),
                _ => id + " --clear"@,
            },
        )
    }
}

pub fn tree_label_args(entry_id: &str, label: Option<&str>) -> (r: Result<String, ExtMethodError>)
    ensures
        text_result(r) == label_args_v(entry_id@, opt_text(label)),
{
    let id = trim(entry_id);
    if id.unicode_len() == 0 {
        return Err(ExtMethodError::InvalidParams("tree entry id is empty".to_owned()));
    }
    let mut args = id.to_owned();
    match label {
        Some(t) => {
            let text = trim(t);
            if text.unicode_len() > 0 {
                args.append(" ");
                args.append(text);
            } else {
                args.append(" --clear");
            }
        },
        None => {
            args.append(" --clear");
        },
    }
    Ok(args)
}

/// The RPC request that forks Pi from a user-message entry (the entry id
/// trimmed); refused for a blank id.
pub fn fork_request(entry_id: &str) -> (r: Result<Json, ExtMethodError>)
    ensures
        trim_seq(entry_id@).len() == 0 ==> (r matches Err(e) && e@ == ExtErrV::InvalidParams(
            "entryId is empty"@,
        )),
        trim_seq(entry_id@).len() > 0 ==> (r matches Ok(j) && jv(j) == JsonView::Object(
            seq![("type"@, JsonView::Str("fork"@)), ("entryId"@, JsonView::Str(trim_seq(entry_id@)))],
        )),
{
    let id = trim(entry_id);
    if id.unicode_len() == 0 {
        return Err(ExtMethodError::InvalidParams("entryId is empty".to_owned()));
    }
    let mut f: Vec<(String, Json)> = Vec::new();
    f.push(("type".to_owned(), jstr("fork")));
    f.push(("entryId".to_owned(), jstr(id)));
    let r = jobj(f);
    assert(members_view(f@) =~= seq![
        ("type"@, JsonView::Str("fork"@)),
        ("entryId"@, JsonView::Str(trim_seq(entry_id@))),
    ]);
    Ok(r)
}

/// What Pi answered a fork with: whether it was cancelled (a boolean
/// `cancelled`, false otherwise) and its `text`, when a string.
pub fn fork_outcome(response: &Json) -> (r: (bool, Option<String>))
    ensures
        r.0 == (vbool(vget(jv(*response), "cancelled"@)) == Some(true)),
        crate::ext_requests::osv(r.1) == vstr(vget(jv(*response), "text"@)),
{
    let cancelled = match field_bool(response, "cancelled") {
        Some(b) => b,
        None => false,
    };
    let text = match field_str(response, "text") {
        Some(t) => Some(t.to_owned()),
        None => None,
    };
    (cancelled, text)
}

} // verus!

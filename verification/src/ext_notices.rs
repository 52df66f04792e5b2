//! The client's extension notifications that are not queue edits: slash
//! commands for Pi extensions, remote-TUI keys and extension shortcuts.
use vstd::prelude::*;
use crate::ext_requests::{first_string_v, required_id_v, str1, trimmed_id, osv};
use crate::json::{Json, JsonView, jv, jobj, jstr, members_view};
use crate::seq_util::{first_where, lemma_first_where_at, lemma_first_where_none};
use crate::text::{eq_ignore_ascii_case_seq, is_ws, trim, trim_seq, has_prefix};

verus! {

pub open spec fn ws_pred() -> spec_fn(char) -> bool {
    |c: char| is_ws(c)
}

/// The first whitespace-separated word of a text that does not start with
/// whitespace.
pub open spec fn first_word(s: Seq<char>) -> Seq<char> {
    let p = first_where(s, ws_pred());
    if p >= 0 {
        s.take(p)
    } else {
        s
    }
}

/// A slash command for Pi: the trimmed `command` parameter when it starts
/// with `/`, and whether it is `/btw-history` (its first word, any case),
/// after which the side-question history is re-published.
pub open spec fn extension_command_v(params: JsonView) -> Option<(Seq<char>, bool)> {
    match first_string_v(params, seq!["command"@]) {
        Some(c) => {
            let t = trim_seq(c);
            if has_prefix(t, "/"@) {
                Some((t, eq_ignore_ascii_case_seq(first_word(t), "/btw-history"@)))
            } else {
                None
            }
        },
        None => None,
    }
}

fn first_word_of(s: &str) -> (r: String)
    ensures
        r@ == first_word(s@),
{
    let n = s.unicode_len();
    let mut i: usize = 0;
    while i < n
        invariant
            n == s@.len(),
            i <= n,
            forall|j: int| 0 <= j < i ==> !ws_pred()(#[trigger] s@[j]),
        decreases n - i,
    {
        if crate::text::is_whitespace(s.get_char(i)) {
            proof {
                lemma_first_where_at(s@, ws_pred(), i as int);
            }
            return s.substring_char(0, i).to_owned();
        }
        i = i + 1;
    }
    proof {
        lemma_first_where_none(s@, ws_pred());
    }
    s.to_owned()
}

/// `pi/extension_command`: the slash command to prompt Pi with, and
/// whether it is `/btw-history`; `None` for a missing command or one that
/// does not start with `/` (ignored).
pub fn extension_command(params: &Json) -> (r: Option<(String, bool)>)
    ensures
        match r {
            Some((c, h)) => extension_command_v(jv(*params)) == Some((c@, h)),
            None => extension_command_v(jv(*params)) is None,
        },
{
    let raw = match str1(params, "command") {
        Some(c) => c,
        None => return None,
    };
    let t = trim(raw);
    if !crate::text::starts_with(t, "/") {
        return None;
    }
    let word = first_word_of(t);
    let history = crate::text::eq_ignore_ascii_case(word.as_str(), "/btw-history");
    Some((t.to_owned(), history))
}

/// `pi/ui/remote_tui/input`: the key event to append for the remote TUI,
/// `{"op": "input", "data": <data>}`, when `data` is a string.
pub fn remote_tui_input_event(params: &Json) -> (r: Option<Json>)
    ensures
        match first_string_v(jv(*params), seq!["data"@]) {
            Some(d) => r matches Some(e) && jv(e) == JsonView::Object(
                seq![("op"@, JsonView::Str("input"@)), ("data"@, JsonView::Str(d))],
            ),
            None => r is None,
        },
{
    match str1(params, "data") {
        None => None,
        Some(d) => {
            let mut f: Vec<(String, Json)> = Vec::new();
            f.push(("op".to_owned(), jstr("input")));
            f.push(("data".to_owned(), jstr(d)));
            let e = jobj(f);
            assert(members_view(f@) =~= seq![
                ("op"@, JsonView::Str("input"@)),
                ("data"@, JsonView::Str(d@)),
            ]);
            Some(e)
        },
    }
}

/// `pi/ui/remote_tui/cancel`: the key event `{"op": "cancel"}`.
pub fn remote_tui_cancel_event() -> (r: Json)
    ensures
        jv(r) == JsonView::Object(seq![("op"@, JsonView::Str("cancel"@))]),
{
    let mut f: Vec<(String, Json)> = Vec::new();
    f.push(("op".to_owned(), jstr("cancel")));
    let e = jobj(f);
    assert(members_view(f@) =~= seq![("op"@, JsonView::Str("cancel"@))]);
    e
}

/// `pi/ui/shortcut_dispatch`: the trimmed shortcut key to dispatch, `None`
/// when it is missing or blank (ignored).
pub fn shortcut_dispatch_key(params: &Json) -> (r: Option<String>)
    ensures
        osv(r) == required_id_v(jv(*params), seq!["key"@]),
{
    trimmed_id(str1(params, "key"))
}

} // verus!

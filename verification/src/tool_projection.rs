//! Projection of Pi tool calls onto the cards the pager renders natively.
use vstd::prelude::*;
use crate::json::{
    Json, JsonView, key_pos, member, member_set, str_spec, find_member, set_member, jv, ojv,
    members_view, vset, vmember, vstr, named, lemma_member_set_view, lemma_member_view,
    lemma_key_pos_view, lemma_object_view, lemma_array_view, items_view, jstr, jobj,
    vget, vu64, vi64, field, field_i64, field_str, opt_json_view, opt_as_str, opt_str_view,
};
use crate::seq_util::{first_where, strs};
use crate::recap_bridge::{content_text, content_text_v};
use crate::text::{str_eq, starts_with, trim, trim_seq, has_prefix};

verus! {

/// The card a tool's calls are shown on.
#[derive(Clone, Copy, Debug, PartialEq, Eq)]
pub enum ToolKind {
    Read,
    Edit,
    Search,
    Execute,
    Other,
}

/// The card of each of Pi's built-in tools: `read` reads, `bash` executes,
/// `edit` and `write` edit, `grep` and `find` search. Every other tool,
/// `ls` and `eval` among them and whatever its name merely contains, is shown
/// on the generic card.
pub open spec fn tool_kind_v(name: Seq<char>) -> ToolKind {
    if name == "read"@ {
        ToolKind::Read
    } else if name == "bash"@ {
        ToolKind::Execute
    } else if name == "edit"@ || name == "write"@ {
        ToolKind::Edit
    } else if name == "grep"@ || name == "find"@ {
        ToolKind::Search
    } else {
        ToolKind::Other
    }
}

/// The card a call of the tool `name` is shown on.
pub fn tool_kind(name: &str) -> (r: ToolKind)
    ensures
        r == tool_kind_v(name@),
{
    if str_eq(name, "read") {
        ToolKind::Read
    } else if str_eq(name, "bash") {
        ToolKind::Execute
    } else if str_eq(name, "edit") || str_eq(name, "write") {
        ToolKind::Edit
    } else if str_eq(name, "grep") || str_eq(name, "find") {
        ToolKind::Search
    } else {
        ToolKind::Other
    }
}

/// `r` is the argument object `f` of tool `name` prepared for the pager:
/// a bash call gets its `task_name` as `description` (an existing
/// description wins), `eval` and `write` calls are marked with their card
/// variant, a `find` call is a files-with-matches search, an `ls` call names
/// its `path` as `target_directory`, and every other tool keeps its
/// arguments untouched.
pub open spec fn normalized_members(
    name: Seq<char>,
    f: Seq<(String, Json)>,
    r: Seq<(String, Json)>,
) -> bool {
    if name == "bash"@ {
        if key_pos(f, "description"@) < 0 && str_spec(member(f, "task_name"@)) is Some {
            member_set(f, "description"@, r) && member(r, "description"@) == member(f, "task_name"@)
        } else {
            r == f
        }
    } else if name == "eval"@ {
        member_set(f, "variant"@, r) && str_spec(member(r, "variant"@)) == Some("Eval"@)
    } else if name == "write"@ {
        member_set(f, "variant"@, r) && str_spec(member(r, "variant"@)) == Some("Write"@)
    } else if name == "find"@ {
        member_set(f, "output_mode"@, r) && str_spec(member(r, "output_mode"@)) == Some(
            "files_with_matches"@,
        )
    } else if name == "ls"@ {
        if key_pos(f, "target_directory"@) < 0 && str_spec(member(f, "path"@)) is Some {
            member_set(f, "target_directory"@, r) && member(r, "target_directory"@) == member(
                f,
                "path"@,
            )
        } else {
            r == f
        }
    } else {
        r == f
    }
}

/// View members with the string member `from` copied to an absent `to`.
pub open spec fn alias_v(f: Seq<(Seq<char>, JsonView)>, from: Seq<char>, to: Seq<char>) -> Seq<
    (Seq<char>, JsonView),
> {
    if first_where(f, named(to)) < 0 && vstr(vmember(f, from)) is Some {
        vset(f, to, vmember(f, from)->Some_0)
    } else {
        f
    }
}

/// `normalized_members` on views.
pub open spec fn normalized_v(name: Seq<char>, f: Seq<(Seq<char>, JsonView)>) -> Seq<
    (Seq<char>, JsonView),
> {
    if name == "bash"@ {
        alias_v(f, "task_name"@, "description"@)
    } else if name == "eval"@ {
        vset(f, "variant"@, JsonView::Str("Eval"@))
    } else if name == "write"@ {
        vset(f, "variant"@, JsonView::Str("Write"@))
    } else if name == "find"@ {
        vset(f, "output_mode"@, JsonView::Str("files_with_matches"@))
    } else if name == "ls"@ {
        alias_v(f, "path"@, "target_directory"@)
    } else {
        f
    }
}

/// The arguments of tool `name` as the pager gets them, on views.
pub open spec fn normalize_v(name: Seq<char>, input: Option<JsonView>) -> Option<JsonView> {
    match input {
        None => None,
        Some(JsonView::Object(f)) => Some(JsonView::Object(normalized_v(name, f))),
        Some(other) => Some(other),
    }
}

/// Copy the string member `from` to the absent member `to`.
fn alias_string_member(fields: &mut Vec<(String, Json)>, from: &str, to: &str)
    ensures
        members_view(final(fields)@) == alias_v(members_view(old(fields)@), from@, to@),
        if key_pos(old(fields)@, to@) < 0 && str_spec(member(old(fields)@, from@)) is Some {
            member_set(old(fields)@, to@, final(fields)@) && member(final(fields)@, to@) == member(
                old(fields)@,
                from@,
            )
        } else {
            final(fields)@ == old(fields)@
        },
{
    proof {
        lemma_key_pos_view(fields@, to@);
        lemma_member_view(fields@, from@);
    }
    if find_member(fields, to).is_some() {
        return ;
    }
    match find_member(fields, from) {
        Some(p) => {
            let v = match &fields[p].1 {
                Json::Str(t) => Json::Str(t.clone()),
                _ => {
                    return ;
                },
            };
            set_member(fields, to, v);
            proof {
                lemma_member_set_view(old(fields)@, to@, fields@, v);
            }
        },
        None => {},
    }
}

/// Prepare the raw arguments of a Pi tool call for the pager's native cards.
pub fn normalize_tool_raw_input(tool_name: &str, raw_input: Option<Json>) -> (r: Option<Json>)
    ensures
        match raw_input {
            None => r is None,
            Some(Json::Object(f)) => match r {
                Some(Json::Object(g)) => normalized_members(tool_name@, f@, g@),
                _ => false,
            },
            Some(other) => r == Some(other),
        },
        ojv(r) == normalize_v(tool_name@, ojv(raw_input)),
{
    proof {
        if raw_input is Some && raw_input->Some_0 is Object {
            lemma_object_view(raw_input->Some_0->Object_0);
        }
    }
    let mut fields = match raw_input {
        None => {
            return None;
        },
        Some(Json::Object(fields)) => fields,
        Some(other) => {
            return Some(other);
        },
    };
    let ghost f0 = fields@;
    if str_eq(tool_name, "bash") {
        alias_string_member(&mut fields, "task_name", "description");
    } else if str_eq(tool_name, "eval") {
        let v = Json::Str("Eval".to_owned());
        set_member(&mut fields, "variant", v);
        proof {
            lemma_member_set_view(f0, "variant"@, fields@, v);
        }
    } else if str_eq(tool_name, "write") {
        let v = Json::Str("Write".to_owned());
        set_member(&mut fields, "variant", v);
        proof {
            lemma_member_set_view(f0, "variant"@, fields@, v);
        }
    } else if str_eq(tool_name, "find") {
        let v = Json::Str("files_with_matches".to_owned());
        set_member(&mut fields, "output_mode", v);
        proof {
            lemma_member_set_view(f0, "output_mode"@, fields@, v);
        }
    } else if str_eq(tool_name, "ls") {
        alias_string_member(&mut fields, "path", "target_directory");
    }
    proof {
        lemma_object_view(fields);
    }
    Some(Json::Object(fields))
}

pub open spec fn is_digit(c: char) -> bool {
    '0' <= c && c <= '9'
}

/// The number written by a run of decimal digits.
pub open spec fn digits_value(d: Seq<char>) -> int
    decreases d.len(),
{
    if d.len() == 0 {
        0
    } else {
        digits_value(d.drop_last()) * 10 + (d.last() as int - '0' as int)
    }
}

/// The first index at or after `k` that does not hold a digit.
pub open spec fn digit_run_end(s: Seq<char>, k: int) -> int
    decreases s.len() - k,
{
    if k < 0 || k >= s.len() || !is_digit(s[k]) {
        k
    } else {
        digit_run_end(s, k + 1)
    }
}

/// At `i` stands the `:<line>:` that ends the path of a grep match line.
pub open spec fn grep_sep_at(s: Seq<char>, i: int) -> bool {
    let j = digit_run_end(s, i + 1);
    &&& 0 < i < s.len()
    &&& s[i] == ':'
    &&& i + 1 < j < s.len()
    &&& s[j] == ':'
    &&& digits_value(s.subrange(i + 1, j)) <= u64::MAX
}

/// The first separator at or after `i`, or -1.
pub open spec fn first_grep_sep(s: Seq<char>, i: int) -> int
    decreases s.len() - i,
{
    if i >= s.len() {
        -1
    } else if grep_sep_at(s, i) {
        i
    } else {
        first_grep_sep(s, i + 1)
    }
}

pub open spec fn strip_one_space(t: Seq<char>) -> Seq<char> {
    if t.len() > 0 && t[0] == ' ' {
        t.drop_first()
    } else {
        t
    }
}

/// `path:line: content` split at its first separator.
pub open spec fn grep_split(s: Seq<char>) -> Option<(Seq<char>, int, Seq<char>)> {
    let i = first_grep_sep(s, 0);
    if i < 0 {
        None
    } else {
        let j = digit_run_end(s, i + 1);
        Some(
            (
                s.subrange(0, i),
                digits_value(s.subrange(i + 1, j)),
                strip_one_space(s.subrange(j + 1, s.len() as int)),
            ),
        )
    }
}

proof fn lemma_digits_step(s: Seq<char>, a: int, k: int)
    requires
        0 <= a <= k < s.len(),
    ensures
        digits_value(s.subrange(a, k + 1)) == digits_value(s.subrange(a, k)) * 10 + (s[k] as int
            - '0' as int),
{
    let t = s.subrange(a, k + 1);
    assert(t.drop_last() =~= s.subrange(a, k));
    assert(t.last() == s[k]);
}

/// The end of the digit run at `k` and its value, when that fits `u64`.
fn read_digits(s: &str, k: usize) -> (r: (usize, Option<u64>))
    requires
        k <= s@.len(),
    ensures
        r.0 == digit_run_end(s@, k as int),
        k <= r.0 <= s@.len(),
        match r.1 {
            Some(v) => v == digits_value(s@.subrange(k as int, r.0 as int)),
            None => digits_value(s@.subrange(k as int, r.0 as int)) > u64::MAX,
        },
{
    let ghost t = s@;
    let n = s.unicode_len();
    let mut j: usize = k;
    let mut acc: u64 = 0;
    let mut overflow = false;
    while j < n && '0' <= s.get_char(j) && s.get_char(j) <= '9'
        invariant
            n == t.len(),
            t == s@,
            k <= j <= n,
            digit_run_end(t, k as int) == digit_run_end(t, j as int),
            !overflow ==> acc == digits_value(t.subrange(k as int, j as int)),
            overflow ==> digits_value(t.subrange(k as int, j as int)) > u64::MAX,
            digits_value(t.subrange(k as int, j as int)) >= 0,
        decreases n - j,
    {
        let c = s.get_char(j);
        let d: u64 = (c as u32 - '0' as u32) as u64;
        proof {
            lemma_digits_step(t, k as int, j as int);
        }
        if !overflow {
            match acc.checked_mul(10) {
                Some(m) => match m.checked_add(d) {
                    Some(a) => {
                        acc = a;
                    },
                    None => {
                        overflow = true;
                    },
                },
                None => {
                    overflow = true;
                },
            }
        }
        j = j + 1;
    }
    if overflow {
        (j, None)
    } else {
        (j, Some(acc))
    }
}

/// The end of the digit run after `i` and its value, when `i` starts a
/// `:<line>:` separator.
fn grep_sep(line: &str, i: usize) -> (r: Option<(usize, u64)>)
    requires
        i < line@.len(),
    ensures
        match r {
            Some((j, v)) => grep_sep_at(line@, i as int) && j == digit_run_end(line@, i + 1) && v
                == digits_value(line@.subrange(i + 1, j as int)),
            None => !grep_sep_at(line@, i as int),
        },
{
    let n = line.unicode_len();
    if i == 0 || line.get_char(i) != ':' {
        return None;
    }
    let (k, v) = read_digits(line, i + 1);
    if k == i + 1 || k >= n || line.get_char(k) != ':' {
        return None;
    }
    match v {
        Some(v) => Some((k, v)),
        None => None,
    }
}

/// Split one grep match line of the form `path:line: content`. Context lines
/// (`path-line- content`) and anything else give `None`.
pub fn split_pi_grep_match_line(line: &str) -> (r: Option<(String, u64, String)>)
    ensures
        match (r, grep_split(line@)) {
            (Some((p, n, c)), Some((sp, sn, sc))) => p@ == sp && n == sn && c@ == sc,
            (None, None) => true,
            _ => false,
        },
{
    let ghost s = line@;
    let n = line.unicode_len();
    let mut i: usize = 0;
    while i < n
        invariant
            n == s.len(),
            s == line@,
            i <= n,
            first_grep_sep(s, 0) == first_grep_sep(s, i as int),
        decreases n - i,
    {
        match grep_sep(line, i) {
            Some((j, v)) => {
                let path = line.substring_char(0, i);
                let rest = line.substring_char(j + 1, n);
                let content = if rest.unicode_len() > 0 && rest.get_char(0) == ' ' {
                    rest.substring_char(1, rest.unicode_len())
                } else {
                    rest
                };
                proof {
                    assert(first_grep_sep(s, i as int) == i);
                    let t = s.subrange(j + 1, n as int);
                    if t.len() > 0 && t[0] == ' ' {
                        assert(t.drop_first() =~= t.subrange(1, t.len() as int));
                    }
                }
                return Some((path.to_owned(), v, content.to_owned()));
            },
            None => {},
        }
        i = i + 1;
    }
    None
}

/// The first index at or after `k` that holds a newline, or the length.
pub open spec fn line_end(s: Seq<char>, k: int) -> int
    decreases s.len() - k,
{
    if k < 0 || k >= s.len() || s[k] == '\n' {
        k
    } else {
        line_end(s, k + 1)
    }
}

/// The lines of `s` from index `k` on: the pieces between newlines, where a
/// final newline ends the last line and starts none.
pub open spec fn lines_from(s: Seq<char>, k: int) -> Seq<Seq<char>>
    decreases s.len() - k,
{
    if k < 0 || k >= s.len() {
        Seq::empty()
    } else {
        let e = line_end(s, k);
        if e < k || e >= s.len() {
            seq![s.subrange(k, s.len() as int)]
        } else {
            seq![s.subrange(k, e)] + lines_from(s, e + 1)
        }
    }
}

/// The lines of a text.
pub open spec fn lines_v(s: Seq<char>) -> Seq<Seq<char>> {
    lines_from(s, 0)
}

proof fn lemma_line_end_bounds(s: Seq<char>, k: int)
    requires
        0 <= k <= s.len(),
    ensures
        k <= line_end(s, k) <= s.len(),
        line_end(s, k) < s.len() ==> s[line_end(s, k)] == '\n',
    decreases s.len() - k,
{
    if k < s.len() && s[k] != '\n' {
        lemma_line_end_bounds(s, k + 1);
    }
}

/// Split a text into its lines.
pub fn split_lines(text: &str) -> (r: Vec<String>)
    ensures
        strs(r@) == lines_v(text@),
{
    let ghost s = text@;
    let n = text.unicode_len();
    let mut out: Vec<String> = Vec::new();
    let mut start: usize = 0;
    let mut i: usize = 0;
    while i < n
        invariant
            n == s.len(),
            s == text@,
            start <= i <= n,
            line_end(s, start as int) == line_end(s, i as int),
            strs(out@) + lines_from(s, start as int) == lines_from(s, 0),
        decreases n - i,
    {
        if text.get_char(i) == '\n' {
            let piece = text.substring_char(start, i);
            let ghost before = out@;
            proof {
                lemma_line_end_bounds(s, start as int);
                assert(lines_from(s, start as int) == seq![piece@] + lines_from(s, i + 1));
            }
            out.push(piece.to_owned());
            proof {
                assert(strs(out@) =~= strs(before).push(piece@));
                assert(strs(out@) + lines_from(s, i + 1) =~= strs(before) + (seq![piece@]
                    + lines_from(s, i + 1)));
            }
            start = i + 1;
        }
        i = i + 1;
    }
    proof {
        lemma_line_end_bounds(s, start as int);
    }
    if start < n {
        let piece = text.substring_char(start, n);
        let ghost before = out@;
        assert(lines_from(s, start as int) == seq![piece@]);
        out.push(piece.to_owned());
        assert(strs(out@) =~= strs(before) + seq![piece@]);
    } else {
        assert(strs(out@) =~= strs(out@) + lines_from(s, start as int));
    }
    out
}

/// The text a tool result shows: the joined text items of its `content`
/// array, or its string `content`; empty when it has none.
pub open spec fn result_text_v(result: JsonView) -> Seq<char> {
    match content_text_v(result) {
        Some(t) => t,
        None => Seq::empty(),
    }
}

fn result_text(result: &Json) -> (r: String)
    ensures
        r@ == result_text_v(jv(*result)),
{
    match content_text(result) {
        Some(t) => t,
        None => String::new(),
    }
}

/// A block of a tool card's content: text, or the diff of a file change.
#[derive(Debug, PartialEq)]
pub enum ToolContent {
    Text(String),
    Diff(EditDiff),
}

pub enum ToolContentV {
    Text(Seq<char>),
    Diff(EditDiffV),
}

impl View for ToolContent {
    type V = ToolContentV;

    open spec fn view(&self) -> ToolContentV {
        match self {
            ToolContent::Text(t) => ToolContentV::Text(t@),
            ToolContent::Diff(d) => ToolContentV::Diff(d@),
        }
    }
}

pub open spec fn blocks_view(v: Seq<ToolContent>) -> Seq<ToolContentV> {
    v.map_values(|c: ToolContent| c@)
}

/// What a tool result shows on its card: its text as one text block, when it
/// has any.
pub open spec fn tool_content_v(result: JsonView) -> Seq<ToolContentV> {
    match content_text_v(result) {
        Some(t) => seq![ToolContentV::Text(t)],
        None => Seq::empty(),
    }
}

/// The text blocks a tool result shows on its card.
pub fn tool_content(result: &Json) -> (r: Vec<ToolContent>)
    ensures
        blocks_view(r@) == tool_content_v(jv(*result)),
{
    let mut out: Vec<ToolContent> = Vec::new();
    match content_text(result) {
        Some(t) => {
            let ghost tv = t@;
            out.push(ToolContent::Text(t));
            assert(blocks_view(out@) =~= seq![ToolContentV::Text(tv)]);
        },
        None => {
            assert(blocks_view(out@) =~= Seq::<ToolContentV>::empty());
        },
    }
    out
}

/// Diffs as content blocks.
pub open spec fn diff_blocks_v(d: Seq<EditDiffV>) -> Seq<ToolContentV> {
    d.map_values(|x: EditDiffV| ToolContentV::Diff(x))
}

/// Turn diffs into content blocks.
pub fn diff_blocks(diffs: Vec<EditDiff>) -> (r: Vec<ToolContent>)
    ensures
        blocks_view(r@) == diff_blocks_v(diffs_view(diffs@)),
{
    let ghost want = diff_blocks_v(diffs_view(diffs@));
    let ghost n = diffs@.len();
    let mut rest = diffs;
    let mut out: Vec<ToolContent> = Vec::new();
    while rest.len() > 0
        invariant
            out@.len() + rest@.len() == n,
            want.len() == n,
            want == diff_blocks_v(diffs_view(diffs@)),
            diffs_view(rest@) == diffs_view(diffs@).subrange(out@.len() as int, n as int),
            blocks_view(out@) == want.take(out@.len() as int),
        decreases rest@.len(),
    {
        let ghost k = out@.len() as int;
        let ghost r0 = rest@;
        let d = rest.remove(0);
        proof {
            assert(diffs_view(r0)[0] == d@);
            assert(diffs_view(diffs@).subrange(k, n as int)[0] == diffs_view(diffs@)[k]);
            assert(want[k] == ToolContentV::Diff(d@));
            assert(diffs_view(rest@) =~= diffs_view(r0).drop_first());
        }
        let ghost before = out@;
        out.push(ToolContent::Diff(d));
        assert(blocks_view(out@) =~= blocks_view(before).push(want[k]));
        assert(want.take(k + 1) =~= want.take(k).push(want[k]));
        assert(diffs_view(rest@) =~= diffs_view(diffs@).subrange(k + 1, n as int));
    }
    assert(want.take(n as int) =~= want);
    out
}

/// The first index at or after `k` that does not hold a space.
pub open spec fn space_run_end(s: Seq<char>, k: int) -> int
    decreases s.len() - k,
{
    if k < 0 || k >= s.len() || s[k] != ' ' {
        k
    } else {
        space_run_end(s, k + 1)
    }
}

/// A match line under a file header of rtk's grep output, `    6: text`:
/// indented, then the line number, a colon and the matched text.
pub open spec fn rtk_match(s: Seq<char>) -> Option<(int, Seq<char>)> {
    let k = space_run_end(s, 0);
    let d = digit_run_end(s, k);
    if s.len() > 0 && s[0] == ' ' && k < d < s.len() && s[d] == ':' && digits_value(
        s.subrange(k, d),
    ) <= u64::MAX {
        Some((digits_value(s.subrange(k, d)), strip_one_space(s.subrange(d + 1, s.len() as int))))
    } else {
        None
    }
}

/// At `k` stands ` (`.
pub open spec fn paren_at(s: Seq<char>, k: int) -> bool {
    0 <= k && k + 1 < s.len() && s[k] == ' ' && s[k + 1] == '('
}

/// The first ` (` at or after `k`, or the length.
pub open spec fn first_paren(s: Seq<char>, k: int) -> int
    decreases s.len() - k,
{
    if k < 0 || k >= s.len() {
        s.len() as int
    } else if paren_at(s, k) {
        k
    } else {
        first_paren(s, k + 1)
    }
}

/// A file header of rtk's grep output, `> path (n matches):`, gives its path.
pub open spec fn rtk_header(s: Seq<char>) -> Option<Seq<char>> {
    let p = first_paren(s, 2);
    if s.len() >= 2 && s[0] == '>' && s[1] == ' ' && s.last() == ':' && p < s.len() {
        Some(s.subrange(2, p))
    } else {
        None
    }
}

fn strip_space(t: &str) -> (r: &str)
    ensures
        r@ == strip_one_space(t@),
{
    let n = t.unicode_len();
    if n > 0 && t.get_char(0) == ' ' {
        let r = t.substring_char(1, n);
        assert(t@.drop_first() =~= t@.subrange(1, n as int));
        r
    } else {
        t
    }
}

fn rtk_match_line(line: &str) -> (r: Option<(u64, String)>)
    ensures
        match (r, rtk_match(line@)) {
            (Some((n, c)), Some((sn, sc))) => n == sn && c@ == sc,
            (None, None) => true,
            _ => false,
        },
{
    let ghost s = line@;
    let n = line.unicode_len();
    if n == 0 || line.get_char(0) != ' ' {
        return None;
    }
    let mut k: usize = 0;
    while k < n && line.get_char(k) == ' '
        invariant
            n == s.len(),
            s == line@,
            k <= n,
            space_run_end(s, 0) == space_run_end(s, k as int),
        decreases n - k,
    {
        k = k + 1;
    }
    let (d, v) = read_digits(line, k);
    if d == k || d >= n || line.get_char(d) != ':' {
        return None;
    }
    match v {
        Some(v) => {
            let rest = line.substring_char(d + 1, n);
            let content = strip_space(rest);
            Some((v, content.to_owned()))
        },
        None => None,
    }
}

fn rtk_header_line(line: &str) -> (r: Option<String>)
    ensures
        match (r, rtk_header(line@)) {
            (Some(p), Some(sp)) => p@ == sp,
            (None, None) => true,
            _ => false,
        },
{
    let ghost s = line@;
    let n = line.unicode_len();
    if n < 2 || line.get_char(0) != '>' || line.get_char(1) != ' ' || line.get_char(n - 1) != ':' {
        return None;
    }
    let mut k: usize = 2;
    while k < n
        invariant
            n == s.len(),
            s == line@,
            2 <= k <= n,
            s[0] == '>' && s[1] == ' ' && s[n - 1] == ':',
            first_paren(s, 2) == first_paren(s, k as int),
        decreases n - k,
    {
        if k + 1 < n && line.get_char(k) == ' ' && line.get_char(k + 1) == '(' {
            proof {
                assert(paren_at(s, k as int));
                assert(first_paren(s, k as int) == k);
                assert(s.last() == s[n - 1]);
            }
            return Some(line.substring_char(2, k).to_owned());
        }
        k = k + 1;
    }
    None
}

/// A file of a grep result and its matches, each a line number and text.
pub type FileMatchesV = (Seq<char>, Seq<(int, Seq<char>)>);

/// Whether a line of grep output adds a match to the files read so far.
pub open spec fn adds_match(prev: Seq<FileMatchesV>, line: Seq<char>) -> bool {
    rtk_header(line) is None && ((prev.len() > 0 && rtk_match(line) is Some) || grep_split(
        line,
    ) is Some)
}

/// `prev` with the match `m` added to its last file.
pub open spec fn add_to_last(prev: Seq<FileMatchesV>, m: (int, Seq<char>)) -> Seq<FileMatchesV> {
    prev.update(prev.len() - 1, (prev.last().0, prev.last().1.push(m)))
}

/// One line of grep output read into the files so far. An rtk file header
/// starts a file; an rtk match line under it, or a `path:line: content`
/// line, adds a match (to the last file when the path is the same, else to
/// a new one); every other line is skipped.
pub open spec fn grep_step(prev: Seq<FileMatchesV>, line: Seq<char>) -> Seq<FileMatchesV> {
    match rtk_header(line) {
        Some(p) => prev.push((p, Seq::empty())),
        None => if prev.len() > 0 && rtk_match(line) is Some {
            add_to_last(prev, rtk_match(line)->Some_0)
        } else {
            match grep_split(line) {
                Some((p, n, c)) => if prev.len() > 0 && prev.last().0 == p {
                    add_to_last(prev, (n, c))
                } else {
                    prev.push((p, seq![(n, c)]))
                },
                None => prev,
            }
        },
    }
}

/// The files and matches of grep output, by its lines.
pub open spec fn grep_files(ls: Seq<Seq<char>>) -> Seq<FileMatchesV>
    decreases ls.len(),
{
    if ls.len() == 0 {
        Seq::empty()
    } else {
        grep_step(grep_files(ls.drop_last()), ls.last())
    }
}

/// The number of matches in grep output, by its lines.
pub open spec fn grep_count(ls: Seq<Seq<char>>) -> int
    decreases ls.len(),
{
    if ls.len() == 0 {
        0
    } else {
        grep_count(ls.drop_last()) + if adds_match(grep_files(ls.drop_last()), ls.last()) {
            1int
        } else {
            0int
        }
    }
}

pub open spec fn match_view(m: (u64, String)) -> (int, Seq<char>) {
    (m.0 as int, m.1@)
}

pub open spec fn file_view(f: (String, Vec<(u64, String)>)) -> FileMatchesV {
    (f.0@, f.1@.map_values(|m: (u64, String)| match_view(m)))
}

pub open spec fn files_view(v: Seq<(String, Vec<(u64, String)>)>) -> Seq<FileMatchesV> {
    v.map_values(|f: (String, Vec<(u64, String)>)| file_view(f))
}

fn add_match(files: &mut Vec<(String, Vec<(u64, String)>)>, n: u64, c: String)
    requires
        old(files)@.len() > 0,
    ensures
        files_view(final(files)@) == add_to_last(files_view(old(files)@), (n as int, c@)),
{
    let ghost before = files_view(files@);
    match files.pop() {
        Some((p, mut ms)) => {
            let ghost ms0 = ms@;
            ms.push((n, c));
            assert(ms@.map_values(|m: (u64, String)| match_view(m)) =~= ms0.map_values(
                |m: (u64, String)| match_view(m),
            ).push((n as int, c@)));
            files.push((p, ms));
            assert(files_view(files@) =~= add_to_last(before, (n as int, c@)));
        },
        None => {},
    }
}

fn grep_step_exec(files: &mut Vec<(String, Vec<(u64, String)>)>, line: &str) -> (added: bool)
    ensures
        files_view(final(files)@) == grep_step(files_view(old(files)@), line@),
        added == adds_match(files_view(old(files)@), line@),
{
    let ghost before = files_view(files@);
    match rtk_header_line(line) {
        Some(p) => {
            let ghost pv = p@;
            let ms: Vec<(u64, String)> = Vec::new();
            assert(ms@.map_values(|m: (u64, String)| match_view(m)) =~= Seq::empty());
            files.push((p, ms));
            assert(files_view(files@) =~= before.push((pv, Seq::empty())));
            return false;
        },
        None => {},
    }
    if files.len() > 0 {
        match rtk_match_line(line) {
            Some((n, c)) => {
                add_match(files, n, c);
                return true;
            },
            None => {},
        }
    }
    match split_pi_grep_match_line(line) {
        Some((p, n, c)) => {
            let same = files.len() > 0 && str_eq(files[files.len() - 1].0.as_str(), p.as_str());
            if same {
                add_match(files, n, c);
            } else {
                let ghost pv = p@;
                let ghost cv = c@;
                let mut ms: Vec<(u64, String)> = Vec::new();
                ms.push((n, c));
                assert(ms@.map_values(|m: (u64, String)| match_view(m)) =~= seq![(n as int, cv)]);
                files.push((p, ms));
                assert(files_view(files@) =~= before.push((pv, seq![(n as int, cv)])));
            }
            true
        },
        None => false,
    }
}

/// Read grep output line by line: its files with their matches, and the
/// number of matches.
fn grep_scan(lines: &Vec<String>) -> (r: (Vec<(String, Vec<(u64, String)>)>, usize))
    ensures
        files_view(r.0@) == grep_files(strs(lines@)),
        r.1 == grep_count(strs(lines@)),
{
    let mut files: Vec<(String, Vec<(u64, String)>)> = Vec::new();
    let mut count: usize = 0;
    let mut i: usize = 0;
    let ghost ls = strs(lines@);
    assert(ls.take(0) =~= Seq::<Seq<char>>::empty());
    assert(files_view(files@) =~= Seq::<FileMatchesV>::empty());
    while i < lines.len()
        invariant
            i <= lines@.len(),
            ls == strs(lines@),
            count <= i,
            files_view(files@) == grep_files(ls.take(i as int)),
            count == grep_count(ls.take(i as int)),
        decreases lines@.len() - i,
    {
        proof {
            assert(ls.take(i + 1).drop_last() =~= ls.take(i as int));
            assert(ls.take(i + 1).last() == lines@[i as int]@);
        }
        let added = grep_step_exec(&mut files, lines[i].as_str());
        if added {
            count = count + 1;
        }
        i = i + 1;
    }
    assert(ls.take(lines@.len() as int) =~= ls);
    (files, count)
}

/// A grep match as the pager's search card reads it.
pub open spec fn match_json(m: (int, Seq<char>)) -> JsonView {
    JsonView::Object(
        seq![("line_number"@, JsonView::Int(m.0 as i128)), ("content"@, JsonView::Str(m.1))],
    )
}

/// A file of a search result with its matches.
pub open spec fn file_json(f: FileMatchesV) -> JsonView {
    JsonView::Object(
        seq![
            ("path"@, JsonView::Str(f.0)),
            ("matches"@, JsonView::Array(f.1.map_values(|m: (int, Seq<char>)| match_json(m)))),
        ],
    )
}

/// The pager's native search output: `GrepSearch` with the number of matches
/// and the files.
pub open spec fn search_json(count: int, files: Seq<FileMatchesV>) -> JsonView {
    JsonView::Object(
        seq![
            ("type"@, JsonView::Str("GrepSearch"@)),
            ("match_count"@, JsonView::Int(count as i128)),
            ("file_matches"@, JsonView::Array(files.map_values(|f: FileMatchesV| file_json(f)))),
        ],
    )
}

fn file_json_exec(f: &(String, Vec<(u64, String)>)) -> (r: Json)
    ensures
        jv(r) == file_json(file_view(*f)),
{
    let ghost mv = file_view(*f).1;
    let mut items: Vec<Json> = Vec::new();
    let mut i: usize = 0;
    while i < f.1.len()
        invariant
            i <= f.1@.len(),
            mv == file_view(*f).1,
            mv.len() == f.1@.len(),
            items_view(items@) == mv.take(i as int).map_values(|m: (int, Seq<char>)| match_json(m)),
        decreases f.1@.len() - i,
    {
        let m = &f.1[i];
        let mut fields: Vec<(String, Json)> = Vec::new();
        fields.push(("line_number".to_owned(), Json::Int(m.0 as i128)));
        fields.push(("content".to_owned(), Json::Str(m.1.clone())));
        let j = jobj(fields);
        proof {
            assert(members_view(fields@) =~= seq![
                ("line_number"@, JsonView::Int(m.0 as i128)),
                ("content"@, JsonView::Str(m.1@)),
            ]);
            assert(mv[i as int] == match_view(*m));
        }
        let ghost prev = items@;
        items.push(j);
        proof {
            assert(items_view(items@) =~= items_view(prev).push(jv(j)));
            assert(mv.take(i + 1) =~= mv.take(i as int).push(mv[i as int]));
            assert(mv.take(i + 1).map_values(|m: (int, Seq<char>)| match_json(m)) =~= mv.take(
                i as int,
            ).map_values(|m: (int, Seq<char>)| match_json(m)).push(match_json(mv[i as int])));
        }
        i = i + 1;
    }
    assert(mv.take(mv.len() as int) =~= mv);
    let arr = Json::Array(items);
    proof {
        lemma_array_view(items);
    }
    let mut fields: Vec<(String, Json)> = Vec::new();
    fields.push(("path".to_owned(), Json::Str(f.0.clone())));
    fields.push(("matches".to_owned(), arr));
    let r = jobj(fields);
    assert(members_view(fields@) =~= seq![
        ("path"@, JsonView::Str(f.0@)),
        ("matches"@, JsonView::Array(mv.map_values(|m: (int, Seq<char>)| match_json(m)))),
    ]);
    r
}

fn search_output(files: &Vec<(String, Vec<(u64, String)>)>, count: usize) -> (r: Json)
    ensures
        jv(r) == search_json(count as int, files_view(files@)),
{
    let ghost fv = files_view(files@);
    let mut items: Vec<Json> = Vec::new();
    let mut i: usize = 0;
    while i < files.len()
        invariant
            i <= files@.len(),
            fv == files_view(files@),
            fv.len() == files@.len(),
            items_view(items@) == fv.take(i as int).map_values(|f: FileMatchesV| file_json(f)),
        decreases files@.len() - i,
    {
        let j = file_json_exec(&files[i]);
        let ghost prev = items@;
        items.push(j);
        proof {
            assert(fv[i as int] == file_view(files@[i as int]));
            assert(items_view(items@) =~= items_view(prev).push(jv(j)));
            assert(fv.take(i + 1) =~= fv.take(i as int).push(fv[i as int]));
            assert(fv.take(i + 1).map_values(|f: FileMatchesV| file_json(f)) =~= fv.take(
                i as int,
            ).map_values(|f: FileMatchesV| file_json(f)).push(file_json(fv[i as int])));
        }
        i = i + 1;
    }
    assert(fv.take(fv.len() as int) =~= fv);
    let arr = Json::Array(items);
    proof {
        lemma_array_view(items);
    }
    let mut fields: Vec<(String, Json)> = Vec::new();
    fields.push(("type".to_owned(), jstr("GrepSearch")));
    fields.push(("match_count".to_owned(), Json::Int(count as i128)));
    fields.push(("file_matches".to_owned(), arr));
    let r = jobj(fields);
    assert(members_view(fields@) =~= seq![
        ("type"@, JsonView::Str("GrepSearch"@)),
        ("match_count"@, JsonView::Int(count as i128)),
        ("file_matches"@, JsonView::Array(fv.map_values(|f: FileMatchesV| file_json(f)))),
    ]);
    r
}

/// Grep output as the pager's native search output.
pub open spec fn grep_output_v(text: Seq<char>) -> JsonView {
    search_json(grep_count(lines_v(text)), grep_files(lines_v(text)))
}

fn grep_output(text: &str) -> (r: Json)
    ensures
        jv(r) == grep_output_v(text@),
{
    let lines = split_lines(text);
    let (files, count) = grep_scan(&lines);
    search_output(&files, count)
}

/// The paths that `find` printed, one per non-blank line, trimmed.
pub open spec fn find_files(ls: Seq<Seq<char>>) -> Seq<FileMatchesV>
    decreases ls.len(),
{
    if ls.len() == 0 {
        Seq::empty()
    } else {
        let prev = find_files(ls.drop_last());
        let t = trim_seq(ls.last());
        if t.len() > 0 {
            prev.push((t, Seq::empty()))
        } else {
            prev
        }
    }
}

/// `find` output as a files-with-matches search: one file per path printed.
pub open spec fn find_output_v(text: Seq<char>) -> JsonView {
    search_json(find_files(lines_v(text)).len() as int, find_files(lines_v(text)))
}

fn find_output(text: &str) -> (r: Json)
    ensures
        jv(r) == find_output_v(text@),
{
    let lines = split_lines(text);
    let ghost ls = strs(lines@);
    let mut files: Vec<(String, Vec<(u64, String)>)> = Vec::new();
    let mut i: usize = 0;
    assert(ls.take(0) =~= Seq::<Seq<char>>::empty());
    assert(files_view(files@) =~= Seq::<FileMatchesV>::empty());
    while i < lines.len()
        invariant
            i <= lines@.len(),
            ls == strs(lines@),
            files@.len() <= i,
            files_view(files@) == find_files(ls.take(i as int)),
        decreases lines@.len() - i,
    {
        proof {
            assert(ls.take(i + 1).drop_last() =~= ls.take(i as int));
            assert(ls.take(i + 1).last() == lines@[i as int]@);
        }
        let t = trim(lines[i].as_str());
        if t.unicode_len() > 0 {
            let ghost before = files_view(files@);
            let ms: Vec<(u64, String)> = Vec::new();
            assert(ms@.map_values(|m: (u64, String)| match_view(m)) =~= Seq::empty());
            files.push((t.to_owned(), ms));
            assert(files_view(files@) =~= before.push((t@, Seq::empty())));
        }
        i = i + 1;
    }
    assert(ls.take(lines@.len() as int) =~= ls);
    search_output(&files, files.len())
}

/// The member `key` of the tool's arguments.
pub open spec fn arg_v(args: Option<JsonView>, key: Seq<char>) -> Option<JsonView> {
    match args {
        Some(a) => vget(a, key),
        None => None,
    }
}

fn arg<'a>(args: Option<&'a Json>, key: &str) -> (r: Option<&'a Json>)
    ensures
        opt_json_view(r) == arg_v(opt_json_view(args), key@),
{
    match args {
        Some(a) => field(a, key),
        None => None,
    }
}

/// The total line count of a read notice,
/// `[Showing lines <first>-<last> of <total>...`.
pub open spec fn showing_total(s: Seq<char>) -> Option<int> {
    let a = digit_run_end(s, 15);
    let b = digit_run_end(s, a + 1);
    let n = digit_run_end(s, b + 4);
    if has_prefix(s, "[Showing lines "@) && 15 < a < s.len() && s[a] == '-' && a + 1 < b && b + 4
        < n && s.subrange(b, b + 4) == " of "@ && digits_value(s.subrange(b + 4, n)) <= u64::MAX {
        Some(digits_value(s.subrange(b + 4, n)))
    } else {
        None
    }
}

/// The total of the last read notice among the lines.
pub open spec fn last_total(ls: Seq<Seq<char>>) -> Option<int>
    decreases ls.len(),
{
    if ls.len() == 0 {
        None
    } else {
        match showing_total(ls.last()) {
            Some(n) => Some(n),
            None => last_total(ls.drop_last()),
        }
    }
}

fn showing_total_line(line: &str) -> (r: Option<u64>)
    ensures
        match (r, showing_total(line@)) {
            (Some(n), Some(sn)) => n == sn,
            (None, None) => true,
            _ => false,
        },
{
    let ghost s = line@;
    proof {
        reveal_strlit("[Showing lines ");
        reveal_strlit(" of ");
    }
    let n = line.unicode_len();
    if !starts_with(line, "[Showing lines ") {
        return None;
    }
    let (a, _) = read_digits(line, 15);
    if a == 15 || a >= n || line.get_char(a) != '-' {
        return None;
    }
    let (b, _) = read_digits(line, a + 1);
    if b == a + 1 || n - b < 4 {
        return None;
    }
    let of = line.get_char(b) == ' ' && line.get_char(b + 1) == 'o' && line.get_char(b + 2) == 'f'
        && line.get_char(b + 3) == ' ';
    if !of {
        assert(s.subrange(b as int, b + 4) != " of "@) by {
            if s.subrange(b as int, b + 4) == " of "@ {
                assert(s.subrange(b as int, b + 4)[0] == s[b as int]);
                assert(s.subrange(b as int, b + 4)[1] == s[b + 1]);
                assert(s.subrange(b as int, b + 4)[2] == s[b + 2]);
                assert(s.subrange(b as int, b + 4)[3] == s[b + 3]);
            }
        }
        return None;
    }
    assert(s.subrange(b as int, b + 4) =~= " of "@);
    let (e, v) = read_digits(line, b + 4);
    if e == b + 4 {
        return None;
    }
    v
}

fn last_showing_total(lines: &Vec<String>) -> (r: Option<u64>)
    ensures
        match (r, last_total(strs(lines@))) {
            (Some(n), Some(sn)) => n == sn,
            (None, None) => true,
            _ => false,
        },
{
    let ghost ls = strs(lines@);
    let mut r: Option<u64> = None;
    let mut i: usize = 0;
    assert(ls.take(0) =~= Seq::<Seq<char>>::empty());
    while i < lines.len()
        invariant
            i <= lines@.len(),
            ls == strs(lines@),
            match (r, last_total(ls.take(i as int))) {
                (Some(n), Some(sn)) => n == sn,
                (None, None) => true,
                _ => false,
            },
        decreases lines@.len() - i,
    {
        proof {
            assert(ls.take(i + 1).drop_last() =~= ls.take(i as int));
            assert(ls.take(i + 1).last() == lines@[i as int]@);
        }
        match showing_total_line(lines[i].as_str()) {
            Some(n) => {
                r = Some(n);
            },
            None => {},
        }
        i = i + 1;
    }
    assert(ls.take(lines@.len() as int) =~= ls);
    r
}

/// An optional number, `null` when absent.
pub open spec fn num_or_null(n: Option<int>) -> JsonView {
    match n {
        Some(v) => JsonView::Int(v as i128),
        None => JsonView::Null,
    }
}

/// A string argument, or `d` when the tool was not given one.
pub open spec fn str_arg_or_v(args: Option<JsonView>, key: Seq<char>, d: Seq<char>) -> Seq<char> {
    match vstr(arg_v(args, key)) {
        Some(s) => s,
        None => d,
    }
}

/// A `read` result as the pager's native file card: the path read, the
/// zero-based first line (`offset` counts from one), the line limit and the
/// file's total lines (from the read notice) where known, and the text.
pub open spec fn read_output_v(args: Option<JsonView>, text: Seq<char>) -> JsonView {
    let offset = match vu64(arg_v(args, "offset"@)) {
        Some(o) => if o > 0 {
            o - 1
        } else {
            0
        },
        None => 0,
    };
    let limit = match vu64(arg_v(args, "limit"@)) {
        Some(l) => Some(l as int),
        None => None,
    };
    JsonView::Object(
        seq![
            ("type"@, JsonView::Str("ReadFile"@)),
            (
                "FileContent"@,
                JsonView::Object(
                    seq![
                        ("absolute_path"@, JsonView::Str(str_arg_or_v(args, "path"@, Seq::empty()))),
                        ("offset"@, JsonView::Int(offset as i128)),
                        ("limit"@, num_or_null(limit)),
                        ("total_lines"@, num_or_null(last_total(lines_v(text)))),
                        ("raw_output"@, JsonView::Str(text)),
                    ],
                ),
            ),
        ],
    )
}

fn opt_u64(v: Option<&Json>) -> (r: Option<u64>)
    ensures
        r == vu64(opt_json_view(v)),
{
    match v {
        Some(x) => x.as_u64(),
        None => None,
    }
}

fn u64_or_null(n: Option<u64>) -> (r: Json)
    ensures
        jv(r) == num_or_null(
            match n {
                Some(v) => Some(v as int),
                None => None,
            },
        ),
{
    match n {
        Some(v) => Json::Int(v as i128),
        None => Json::Null,
    }
}

fn str_arg_or<'a>(args: Option<&'a Json>, key: &str, d: &'a str) -> (r: &'a str)
    ensures
        r@ == str_arg_or_v(opt_json_view(args), key@, d@),
{
    match opt_as_str(arg(args, key)) {
        Some(s) => s,
        None => d,
    }
}

fn read_output(args: Option<&Json>, text: &str) -> (r: Json)
    ensures
        jv(r) == read_output_v(opt_json_view(args), text@),
{
    let ghost av = opt_json_view(args);
    let offset: u64 = match opt_u64(arg(args, "offset")) {
        Some(o) => if o > 0 {
            o - 1
        } else {
            0
        },
        None => 0,
    };
    let limit = opt_u64(arg(args, "limit"));
    let lines = split_lines(text);
    let total = last_showing_total(&lines);
    proof {
        reveal_strlit("");
    }
    let path = str_arg_or(args, "path", "");
    assert(path@ == str_arg_or_v(av, "path"@, Seq::empty()));
    let mut inner: Vec<(String, Json)> = Vec::new();
    inner.push(("absolute_path".to_owned(), Json::Str(path.to_owned())));
    inner.push(("offset".to_owned(), Json::Int(offset as i128)));
    inner.push(("limit".to_owned(), u64_or_null(limit)));
    let tj = u64_or_null(total);
    proof {
        let lt = last_total(lines_v(text@));
        if total is Some {
            assert(lt is Some);
        }
        assert(jv(tj) == num_or_null(lt));
    }
    inner.push(("total_lines".to_owned(), tj));
    inner.push(("raw_output".to_owned(), Json::Str(text.to_owned())));
    let file = jobj(inner);
    let mut outer: Vec<(String, Json)> = Vec::new();
    outer.push(("type".to_owned(), jstr("ReadFile")));
    outer.push(("FileContent".to_owned(), file));
    let r = jobj(outer);
    assert(members_view(inner@)[1] == read_output_v(av, text@)->Object_0[1].1->Object_0[1]);
    assert(members_view(inner@)[2] == read_output_v(av, text@)->Object_0[1].1->Object_0[2]);
    assert(members_view(inner@)[3] == read_output_v(av, text@)->Object_0[1].1->Object_0[3]);
    assert(members_view(inner@) =~= read_output_v(av, text@)->Object_0[1].1->Object_0);
    assert(members_view(outer@) =~= read_output_v(av, text@)->Object_0);
    r
}

/// An `ls` result as the pager's native directory listing: the directory
/// listed (`.` when none was named) and the listing.
pub open spec fn ls_output_v(args: Option<JsonView>, text: Seq<char>) -> JsonView {
    JsonView::Object(
        seq![
            ("type"@, JsonView::Str("ListDir"@)),
            (
                "Content"@,
                JsonView::Object(
                    seq![
                        ("absolute_root_path"@, JsonView::Str(str_arg_or_v(args, "path"@, "."@))),
                        ("content"@, JsonView::Str(text)),
                    ],
                ),
            ),
        ],
    )
}

fn ls_output(args: Option<&Json>, text: &str) -> (r: Json)
    ensures
        jv(r) == ls_output_v(opt_json_view(args), text@),
{
    let path = str_arg_or(args, "path", ".");
    let mut inner: Vec<(String, Json)> = Vec::new();
    inner.push(("absolute_root_path".to_owned(), Json::Str(path.to_owned())));
    inner.push(("content".to_owned(), Json::Str(text.to_owned())));
    let content = jobj(inner);
    let mut outer: Vec<(String, Json)> = Vec::new();
    outer.push(("type".to_owned(), jstr("ListDir")));
    outer.push(("Content".to_owned(), content));
    let r = jobj(outer);
    assert(members_view(inner@) =~= ls_output_v(opt_json_view(args), text@)->Object_0[1].1->Object_0);
    assert(members_view(outer@) =~= ls_output_v(opt_json_view(args), text@)->Object_0);
    r
}

/// The pager's native shell card: the command, its description where there
/// is one, the exit code and the output.
pub open spec fn bash_json(
    command: Seq<char>,
    description: Option<Seq<char>>,
    exit_code: int,
    output: Seq<char>,
) -> JsonView {
    JsonView::Object(
        seq![
            ("type"@, JsonView::Str("Bash"@)),
            ("command"@, JsonView::Str(command)),
            (
                "description"@,
                match description {
                    Some(d) => JsonView::Str(d),
                    None => JsonView::Null,
                },
            ),
            ("exit_code"@, JsonView::Int(exit_code as i128)),
            ("output_for_prompt"@, JsonView::Str(output)),
        ],
    )
}

/// The exit code a shell run reports in its details, else 1 for a failed
/// run and 0 for one that succeeded.
pub open spec fn exit_code_v(details: JsonView, is_error: bool) -> int {
    match vi64(vget(details, "exitCode"@)) {
        Some(c) => c as int,
        None => if is_error {
            1
        } else {
            0
        },
    }
}

fn exit_code(details: &Json, is_error: bool) -> (r: i64)
    ensures
        r == exit_code_v(jv(*details), is_error),
{
    match field_i64(details, "exitCode") {
        Some(c) => c,
        None => if is_error {
            1
        } else {
            0
        },
    }
}

fn bash_json_exec(command: &str, description: Option<&str>, exit_code: i64, output: &str) -> (r:
    Json)
    ensures
        jv(r) == bash_json(command@, opt_str_view(description), exit_code as int, output@),
{
    let d = match description {
        Some(d) => Json::Str(d.to_owned()),
        None => Json::Null,
    };
    let mut f: Vec<(String, Json)> = Vec::new();
    f.push(("type".to_owned(), jstr("Bash")));
    f.push(("command".to_owned(), Json::Str(command.to_owned())));
    f.push(("description".to_owned(), d));
    f.push(("exit_code".to_owned(), Json::Int(exit_code as i128)));
    f.push(("output_for_prompt".to_owned(), Json::Str(output.to_owned())));
    let r = jobj(f);
    assert(members_view(f@) =~= bash_json(
        command@,
        opt_str_view(description),
        exit_code as int,
        output@,
    )->Object_0);
    r
}

/// What a shell run printed, by its details: their `output`, else nothing.
pub open spec fn details_output_v(details: JsonView) -> Seq<char> {
    match vstr(vget(details, "output"@)) {
        Some(o) => o,
        None => Seq::empty(),
    }
}

/// The shell card of a run from its command, description and details.
pub fn bash_tool_output(command: &str, description: Option<&str>, details: &Json, is_error: bool) -> (r:
    Json)
    ensures
        jv(r) == bash_json(
            command@,
            opt_str_view(description),
            exit_code_v(jv(*details), is_error),
            details_output_v(jv(*details)),
        ),
{
    proof {
        reveal_strlit("");
    }
    let output = match field_str(details, "output") {
        Some(o) => o,
        None => "",
    };
    assert(output@ =~= details_output_v(jv(*details)));
    bash_json_exec(command, description, exit_code(details, is_error), output)
}

/// The description of a shell call: its `description`, else its `task_name`.
pub open spec fn bash_description_v(args: Option<JsonView>) -> Option<Seq<char>> {
    match vstr(arg_v(args, "description"@)) {
        Some(d) => Some(d),
        None => vstr(arg_v(args, "task_name"@)),
    }
}

/// The details of a tool result, `null` when it has none.
pub open spec fn details_v(result: JsonView) -> JsonView {
    match vget(result, "details"@) {
        Some(d) => d,
        None => JsonView::Null,
    }
}

/// What a `bash` result printed: its text, else the `output` of its details.
pub open spec fn bash_text_v(result: JsonView) -> Seq<char> {
    match content_text_v(result) {
        Some(t) => t,
        None => details_output_v(details_v(result)),
    }
}

/// The raw output of a Pi tool result prepared for the pager's native cards:
/// a `bash` run becomes a shell card; a successful `read`, `grep`, `find` or
/// `ls` becomes a file, search or directory card; every other result, and a
/// failed call of another tool than `bash`, is handed on as it came.
pub open spec fn raw_output_v(
    name: Seq<char>,
    args: Option<JsonView>,
    result: JsonView,
    is_error: bool,
) -> JsonView {
    if name == "bash"@ {
        bash_json(
            str_arg_or_v(args, "command"@, Seq::empty()),
            bash_description_v(args),
            exit_code_v(details_v(result), is_error),
            bash_text_v(result),
        )
    } else if is_error {
        result
    } else if name == "read"@ {
        read_output_v(args, result_text_v(result))
    } else if name == "grep"@ {
        grep_output_v(result_text_v(result))
    } else if name == "find"@ {
        find_output_v(result_text_v(result))
    } else if name == "ls"@ {
        ls_output_v(args, result_text_v(result))
    } else {
        result
    }
}

/// Prepare the raw output of a Pi tool result for the pager's native cards.
pub fn normalize_tool_raw_output(
    tool_name: &str,
    args: Option<&Json>,
    result: &Json,
    is_error: bool,
) -> (r: Json)
    ensures
        jv(r) == raw_output_v(tool_name@, opt_json_view(args), jv(*result), is_error),
{
    proof {
        reveal_strlit("");
    }
    if str_eq(tool_name, "bash") {
        let command = str_arg_or(args, "command", "");
        let description = match opt_as_str(arg(args, "description")) {
            Some(d) => Some(d),
            None => opt_as_str(arg(args, "task_name")),
        };
        let null = Json::Null;
        let details = match field(result, "details") {
            Some(d) => d,
            None => &null,
        };
        let text = match content_text(result) {
            Some(t) => t,
            None => match field_str(details, "output") {
                Some(o) => o.to_owned(),
                None => String::new(),
            },
        };
        assert(text@ =~= bash_text_v(jv(*result)));
        assert(jv(*details) == details_v(jv(*result)));
        assert(command@ == str_arg_or_v(opt_json_view(args), "command"@, Seq::empty()));
        assert(opt_str_view(description) == bash_description_v(opt_json_view(args)));
        return bash_json_exec(command, description, exit_code(details, is_error), text.as_str());
    }
    if is_error {
        return result.deep_clone();
    }
    if str_eq(tool_name, "read") {
        read_output(args, result_text(result).as_str())
    } else if str_eq(tool_name, "grep") {
        grep_output(result_text(result).as_str())
    } else if str_eq(tool_name, "find") {
        find_output(result_text(result).as_str())
    } else if str_eq(tool_name, "ls") {
        ls_output(args, result_text(result).as_str())
    } else {
        result.deep_clone()
    }
}

/// The first `+` at or after `k`, or the length.
pub open spec fn first_plus(s: Seq<char>, k: int) -> int
    decreases s.len() - k,
{
    if k < 0 || k >= s.len() {
        s.len() as int
    } else if s[k] == '+' {
        k
    } else {
        first_plus(s, k + 1)
    }
}

/// The first new-file line of a hunk header, `@@ -a,b +c,d @@`.
pub open spec fn hunk_new_start(s: Seq<char>) -> Option<int> {
    let p = first_plus(s, 3);
    let d = digit_run_end(s, p + 1);
    if has_prefix(s, "@@ "@) && p < s.len() && p + 1 < d && digits_value(s.subrange(p + 1, d))
        <= u64::MAX {
        Some(digits_value(s.subrange(p + 1, d)))
    } else {
        None
    }
}

/// One more, short of the largest `u64`.
pub open spec fn next_line(c: int) -> int {
    if c < u64::MAX {
        c + 1
    } else {
        c
    }
}

/// One line of a unified patch, read while looking for the added line
/// `target`: the new-file line the reading is at (inside a hunk) and where
/// `target` was found. A hunk header sets the line; a context line moves it
/// on; an added line moves it on unless it is `target`, which is then found;
/// a removed line leaves it. Once found, the rest is not read.
pub open spec fn patch_step(st: (Option<int>, Option<int>), line: Seq<char>, target: Seq<char>) -> (
    Option<int>,
    Option<int>,
) {
    if st.1 is Some {
        st
    } else {
        match hunk_new_start(line) {
            Some(n) => (Some(n), None),
            None => match st.0 {
                None => st,
                Some(c) => if line.len() > 0 && line[0] == '+' {
                    if line.drop_first() == target {
                        (Some(c), Some(c))
                    } else {
                        (Some(next_line(c)), None)
                    }
                } else if line.len() > 0 && line[0] == ' ' {
                    (Some(next_line(c)), None)
                } else {
                    st
                },
            },
        }
    }
}

pub open spec fn scan_patch(ls: Seq<Seq<char>>, target: Seq<char>) -> (Option<int>, Option<int>)
    decreases ls.len(),
{
    if ls.len() == 0 {
        (None, None)
    } else {
        patch_step(scan_patch(ls.drop_last(), target), ls.last(), target)
    }
}

/// The first line of a text.
pub open spec fn first_line(t: Seq<char>) -> Seq<char> {
    t.subrange(0, line_end(t, 0))
}

/// The new-file line at which a patch adds the first line of `new_text`.
pub open spec fn patch_line_v(patch: Seq<char>, new_text: Seq<char>) -> Option<int> {
    scan_patch(lines_v(patch), first_line(new_text)).1
}

fn hunk_start_line(line: &str) -> (r: Option<u64>)
    ensures
        match (r, hunk_new_start(line@)) {
            (Some(n), Some(sn)) => n == sn,
            (None, None) => true,
            _ => false,
        },
{
    let ghost s = line@;
    let n = line.unicode_len();
    if !starts_with(line, "@@ ") {
        return None;
    }
    proof {
        reveal_strlit("@@ ");
    }
    let mut p: usize = 3;
    while p < n && line.get_char(p) != '+'
        invariant
            n == s.len(),
            s == line@,
            3 <= p <= n,
            first_plus(s, 3) == first_plus(s, p as int),
        decreases n - p,
    {
        p = p + 1;
    }
    if p >= n {
        return None;
    }
    let (d, v) = read_digits(line, p + 1);
    if d == p + 1 {
        return None;
    }
    v
}

fn next_line_exec(c: u64) -> (r: u64)
    ensures
        r == next_line(c as int),
{
    if c < u64::MAX {
        c + 1
    } else {
        c
    }
}

/// The new-file line at which `patch` adds `target`.
fn patch_line(patch: &str, target: &str) -> (r: Option<u64>)
    ensures
        match (r, scan_patch(lines_v(patch@), target@).1) {
            (Some(n), Some(sn)) => n == sn,
            (None, None) => true,
            _ => false,
        },
{
    let lines = split_lines(patch);
    let ghost ls = strs(lines@);
    let mut cur: Option<u64> = None;
    let mut found: Option<u64> = None;
    let mut i: usize = 0;
    assert(ls.take(0) =~= Seq::<Seq<char>>::empty());
    while i < lines.len()
        invariant
            i <= lines@.len(),
            ls == strs(lines@),
            ({
                let st = scan_patch(ls.take(i as int), target@);
                &&& match (cur, st.0) {
                    (Some(c), Some(sc)) => c == sc,
                    (None, None) => true,
                    _ => false,
                }
                &&& match (found, st.1) {
                    (Some(c), Some(sc)) => c == sc,
                    (None, None) => true,
                    _ => false,
                }
            }),
        decreases lines@.len() - i,
    {
        proof {
            assert(ls.take(i + 1).drop_last() =~= ls.take(i as int));
            assert(ls.take(i + 1).last() == lines@[i as int]@);
        }
        if found.is_none() {
            let line = lines[i].as_str();
            match hunk_start_line(line) {
                Some(h) => {
                    cur = Some(h);
                },
                None => match cur {
                    None => {},
                    Some(c) => {
                        let n = line.unicode_len();
                        if n > 0 && line.get_char(0) == '+' {
                            let rest = line.substring_char(1, n);
                            assert(rest@ =~= line@.drop_first());
                            if str_eq(rest, target) {
                                found = Some(c);
                            } else {
                                cur = Some(next_line_exec(c));
                            }
                        } else if n > 0 && line.get_char(0) == ' ' {
                            cur = Some(next_line_exec(c));
                        }
                    },
                },
            }
        }
        i = i + 1;
    }
    assert(ls.take(lines@.len() as int) =~= ls);
    found
}

/// A file change shown as a diff on an edit tool's card: the file, the text
/// replaced (none for a written file), the new text, and the new-file line
/// where the change starts, where the tool's patch shows it.
#[derive(Debug, PartialEq)]
pub struct EditDiff {
    pub path: String,
    pub old_text: Option<String>,
    pub new_text: String,
    pub new_line: Option<u64>,
}

pub struct EditDiffV {
    pub path: Seq<char>,
    pub old_text: Option<Seq<char>>,
    pub new_text: Seq<char>,
    pub new_line: Option<int>,
}

impl View for EditDiff {
    type V = EditDiffV;

    open spec fn view(&self) -> EditDiffV {
        EditDiffV {
            path: self.path@,
            old_text: match self.old_text {
                Some(t) => Some(t@),
                None => None,
            },
            new_text: self.new_text@,
            new_line: match self.new_line {
                Some(n) => Some(n as int),
                None => None,
            },
        }
    }
}

pub open spec fn diffs_view(v: Seq<EditDiff>) -> Seq<EditDiffV> {
    v.map_values(|d: EditDiff| d@)
}

/// The replacements of an `edits` array: `oldText` and `newText` of each
/// item that has both.
pub open spec fn edit_items(items: Seq<JsonView>) -> Seq<(Seq<char>, Seq<char>)>
    decreases items.len(),
{
    if items.len() == 0 {
        Seq::empty()
    } else {
        let prev = edit_items(items.drop_last());
        let it = items.last();
        match (vstr(vget(it, "oldText"@)), vstr(vget(it, "newText"@))) {
            (Some(o), Some(n)) => prev.push((o, n)),
            _ => prev,
        }
    }
}

/// The replacements an `edit` call makes: those of its `edits` array, else
/// its own `oldText` and `newText`.
pub open spec fn edit_pairs(a: JsonView) -> Seq<(Seq<char>, Seq<char>)> {
    match vget(a, "edits"@) {
        Some(JsonView::Array(items)) => edit_items(items),
        _ => match (vstr(vget(a, "oldText"@)), vstr(vget(a, "newText"@))) {
            (Some(o), Some(n)) => seq![(o, n)],
            _ => Seq::empty(),
        },
    }
}

/// The unified patch of an edit result: `details.patch`, else `patch`.
pub open spec fn patch_v(result: Option<JsonView>) -> Option<Seq<char>> {
    match result {
        None => None,
        Some(r) => match vstr(vget(details_v(r), "patch"@)) {
            Some(p) => Some(p),
            None => vstr(vget(r, "patch"@)),
        },
    }
}

/// The diff of one replacement in `path`.
pub open spec fn pair_diff(path: Seq<char>, patch: Option<Seq<char>>, e: (Seq<char>, Seq<char>)) -> EditDiffV {
    EditDiffV {
        path,
        old_text: Some(e.0),
        new_text: e.1,
        new_line: match patch {
            Some(p) => patch_line_v(p, e.1),
            None => None,
        },
    }
}

/// The diffs an `edit` or `write` call shows: one per replacement of an
/// edit, one with no old text for a write; `None` for any other tool, or
/// when the call names no `path` or has nothing to show.
pub open spec fn edit_diff_content_v(
    name: Seq<char>,
    args: Option<JsonView>,
    result: Option<JsonView>,
) -> Option<Seq<EditDiffV>> {
    match args {
        None => None,
        Some(a) => match vstr(vget(a, "path"@)) {
            None => None,
            Some(path) => if name == "write"@ {
                match vstr(vget(a, "content"@)) {
                    Some(c) => Some(
                        seq![EditDiffV { path, old_text: None, new_text: c, new_line: None }],
                    ),
                    None => None,
                }
            } else if name == "edit"@ && edit_pairs(a).len() > 0 {
                Some(
                    edit_pairs(a).map_values(
                        |e: (Seq<char>, Seq<char>)| pair_diff(path, patch_v(result), e),
                    ),
                )
            } else {
                None
            },
        },
    }
}

pub open spec fn pairs_view(v: Seq<(String, String)>) -> Seq<(Seq<char>, Seq<char>)> {
    v.map_values(|p: (String, String)| (p.0@, p.1@))
}

fn edit_pairs_exec(a: &Json) -> (r: Vec<(String, String)>)
    ensures
        pairs_view(r@) == edit_pairs(jv(*a)),
{
    let mut out: Vec<(String, String)> = Vec::new();
    match field(a, "edits") {
        Some(Json::Array(items)) => {
            proof {
                lemma_array_view(*items);
            }
            let ghost iv = items_view(items@);
            let mut i: usize = 0;
            assert(iv.take(0) =~= Seq::<JsonView>::empty());
            assert(pairs_view(out@) =~= Seq::<(Seq<char>, Seq<char>)>::empty());
            while i < items.len()
                invariant
                    i <= items@.len(),
                    iv == items_view(items@),
                    pairs_view(out@) == edit_items(iv.take(i as int)),
                decreases items@.len() - i,
            {
                proof {
                    assert(iv.take(i + 1).drop_last() =~= iv.take(i as int));
                    assert(iv.take(i + 1).last() == jv(items@[i as int]));
                }
                match (field_str(&items[i], "oldText"), field_str(&items[i], "newText")) {
                    (Some(o), Some(n)) => {
                        let ghost before = pairs_view(out@);
                        out.push((o.to_owned(), n.to_owned()));
                        assert(pairs_view(out@) =~= before.push((o@, n@)));
                    },
                    _ => {},
                }
                i = i + 1;
            }
            assert(iv.take(iv.len() as int) =~= iv);
        },
        _ => {
            match (field_str(a, "oldText"), field_str(a, "newText")) {
                (Some(o), Some(n)) => {
                    out.push((o.to_owned(), n.to_owned()));
                    assert(pairs_view(out@) =~= seq![(o@, n@)]);
                },
                _ => {
                    assert(pairs_view(out@) =~= Seq::<(Seq<char>, Seq<char>)>::empty());
                },
            }
        },
    }
    out
}

fn first_line_of(t: &str) -> (r: &str)
    ensures
        r@ == first_line(t@),
{
    let ghost s = t@;
    let n = t.unicode_len();
    let mut k: usize = 0;
    while k < n && t.get_char(k) != '\n'
        invariant
            n == s.len(),
            s == t@,
            k <= n,
            line_end(s, 0) == line_end(s, k as int),
        decreases n - k,
    {
        k = k + 1;
    }
    t.substring_char(0, k)
}

fn patch_of(result: Option<&Json>) -> (r: Option<&str>)
    ensures
        opt_str_view(r) == patch_v(opt_json_view(result)),
{
    match result {
        None => None,
        Some(res) => {
            let from_details = match field(res, "details") {
                Some(d) => field_str(d, "patch"),
                None => None,
            };
            match from_details {
                Some(p) => Some(p),
                None => field_str(res, "patch"),
            }
        },
    }
}

/// The diffs an edit tool's call shows, from its arguments and, once it has
/// run, its result.
pub fn edit_diff_content(tool_name: &str, args: Option<&Json>, result: Option<&Json>) -> (r: Option<
    Vec<EditDiff>,
>)
    ensures
        match r {
            Some(v) => edit_diff_content_v(tool_name@, opt_json_view(args), opt_json_view(result))
                == Some(diffs_view(v@)),
            None => edit_diff_content_v(tool_name@, opt_json_view(args), opt_json_view(result))
                is None,
        },
{
    let a = match args {
        Some(a) => a,
        None => {
            return None;
        },
    };
    let path = match field_str(a, "path") {
        Some(p) => p,
        None => {
            return None;
        },
    };
    if str_eq(tool_name, "write") {
        return match field_str(a, "content") {
            Some(c) => {
                let mut v: Vec<EditDiff> = Vec::new();
                v.push(
                    EditDiff {
                        path: path.to_owned(),
                        old_text: None,
                        new_text: c.to_owned(),
                        new_line: None,
                    },
                );
                assert(diffs_view(v@) =~= seq![
                    EditDiffV { path: path@, old_text: None, new_text: c@, new_line: None },
                ]);
                Some(v)
            },
            None => None,
        };
    }
    if !str_eq(tool_name, "edit") {
        return None;
    }
    let pairs = edit_pairs_exec(a);
    if pairs.len() == 0 {
        return None;
    }
    let patch = patch_of(result);
    let ghost pv = pairs_view(pairs@);
    let ghost want = pv.map_values(
        |e: (Seq<char>, Seq<char>)| pair_diff(path@, patch_v(opt_json_view(result)), e),
    );
    let mut out: Vec<EditDiff> = Vec::new();
    let mut i: usize = 0;
    while i < pairs.len()
        invariant
            i <= pairs@.len(),
            pv == pairs_view(pairs@),
            pv.len() == pairs@.len(),
            want.len() == pv.len(),
            want == pv.map_values(
                |e: (Seq<char>, Seq<char>)| pair_diff(path@, patch_v(opt_json_view(result)), e),
            ),
            opt_str_view(patch) == patch_v(opt_json_view(result)),
            diffs_view(out@) == want.take(i as int),
        decreases pairs@.len() - i,
    {
        let (o, n) = (&pairs[i].0, &pairs[i].1);
        let line = match patch {
            Some(p) => patch_line(p, first_line_of(n.as_str())),
            None => None,
        };
        let d = EditDiff {
            path: path.to_owned(),
            old_text: Some(o.clone()),
            new_text: n.clone(),
            new_line: line,
        };
        proof {
            assert(pv[i as int] == (o@, n@));
            assert(d@ == want[i as int]);
        }
        let ghost before = out@;
        out.push(d);
        assert(diffs_view(out@) =~= diffs_view(before).push(d@));
        assert(want.take(i + 1) =~= want.take(i as int).push(want[i as int]));
        i = i + 1;
    }
    assert(want.take(want.len() as int) =~= want);
    Some(out)
}

} // verus!

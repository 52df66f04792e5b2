//! Pi command-line tool flags and the tool policies derived from them.
//!
//! grok-pi injects a bridge extension that applies the F2-selected built-in
//! tools. Explicit CLI allowlists (`--tools`, `-t`) and tool-disabling flags
//! (`--no-tools`, `-nt`, `--no-builtin-tools`, `-nbt`) take precedence, and
//! `--exclude-tools` / `-xt` is forwarded as an exclusion list.
use vstd::prelude::*;
use crate::seq_util::{join_seq, join_strings, strs};
use crate::text::{has_prefix, starts_with, str_eq};

verus! {

/// An explicit allowlist flag: `--tools`, `-t` or `--tools=<list>`.
pub open spec fn is_tools_flag(a: Seq<char>) -> bool {
    a == "--tools"@ || a == "-t"@ || has_prefix(a, "--tools="@)
}

/// A flag that disables all or all built-in tools.
pub open spec fn is_no_tools_flag(a: Seq<char>) -> bool {
    a == "--no-tools"@ || a == "-nt"@ || a == "--no-builtin-tools"@ || a == "-nbt"@
}

/// A flag that disables all tools (not only built-ins).
pub open spec fn is_no_all_tools_flag(a: Seq<char>) -> bool {
    a == "--no-tools"@ || a == "-nt"@
}

pub open spec fn spec_has_explicit_tools_arg(args: Seq<String>) -> bool {
    exists|i: int| 0 <= i < args.len() && is_tools_flag(#[trigger] args[i]@)
}

pub open spec fn spec_has_no_tools_arg(args: Seq<String>) -> bool {
    exists|i: int| 0 <= i < args.len() && is_no_tools_flag(#[trigger] args[i]@)
}

/// The value of the first exclusion flag at or after index `i`:
/// `--exclude-tools=<v>` yields `v` unless empty; `--exclude-tools <v>` and
/// `-xt <v>` yield the following argument unless it is missing or empty.
pub open spec fn excluded_tools_from(args: Seq<String>, i: int) -> Option<Seq<char>>
    decreases args.len() - i,
{
    if i < 0 || i >= args.len() {
        None
    } else {
        let a = args[i]@;
        let p = "--exclude-tools="@;
        if has_prefix(a, p) {
            let value = a.subrange(p.len() as int, a.len() as int);
            if value.len() == 0 {
                None
            } else {
                Some(value)
            }
        } else if a == "--exclude-tools"@ || a == "-xt"@ {
            if i + 1 < args.len() && args[i + 1]@.len() > 0 {
                Some(args[i + 1]@)
            } else {
                None
            }
        } else {
            excluded_tools_from(args, i + 1)
        }
    }
}

/// Whether the user passed an explicit `--tools` / `-t` allowlist. When
/// present, F2 preferences are skipped entirely.
pub fn has_explicit_tools_arg(args: &[String]) -> (b: bool)
    ensures
        b == spec_has_explicit_tools_arg(args@),
{
    let mut i: usize = 0;
    while i < args.len()
        invariant
            i <= args@.len(),
            forall|j: int| 0 <= j < i ==> !is_tools_flag(#[trigger] args@[j]@),
        decreases args.len() - i,
    {
        let a = args[i].as_str();
        if str_eq(a, "--tools") || str_eq(a, "-t") || starts_with(a, "--tools=") {
            assert(is_tools_flag(args@[i as int]@));
            return true;
        }
        i = i + 1;
    }
    false
}

/// Whether the user passed `--no-tools` / `-nt` or `--no-builtin-tools` /
/// `-nbt`; then the F2 extension must not re-enable tools.
pub fn has_no_tools_arg(args: &[String]) -> (b: bool)
    ensures
        b == spec_has_no_tools_arg(args@),
{
    let mut i: usize = 0;
    while i < args.len()
        invariant
            i <= args@.len(),
            forall|j: int| 0 <= j < i ==> !is_no_tools_flag(#[trigger] args@[j]@),
        decreases args.len() - i,
    {
        let a = args[i].as_str();
        if str_eq(a, "--no-tools") || str_eq(a, "-nt") || str_eq(a, "--no-builtin-tools")
            || str_eq(a, "-nbt") {
            assert(is_no_tools_flag(args@[i as int]@));
            return true;
        }
        i = i + 1;
    }
    false
}

/// The comma-separated tool names given to `--exclude-tools` / `-xt`, or
/// `None` when the flag is absent or its value is empty.
pub fn excluded_tools(args: &[String]) -> (r: Option<String>)
    ensures
        r matches Some(v) ==> excluded_tools_from(args@, 0) == Some(v@),
        r is None ==> excluded_tools_from(args@, 0) is None,
{
    let mut i: usize = 0;
    while i < args.len()
        invariant
            i <= args@.len(),
            excluded_tools_from(args@, 0) == excluded_tools_from(args@, i as int),
        decreases args.len() - i,
    {
        let a = args[i].as_str();
        if starts_with(a, "--exclude-tools=") {
            let m = "--exclude-tools=".unicode_len();
            let n = a.unicode_len();
            let value = a.substring_char(m, n);
            if value.unicode_len() == 0 {
                return None;
            }
            return Some(value.to_owned());
        }
        if str_eq(a, "--exclude-tools") || str_eq(a, "-xt") {
            if i + 1 < args.len() && args[i + 1].as_str().unicode_len() > 0 {
                return Some(args[i + 1].clone());
            }
            return None;
        }
        i = i + 1;
    }
    None
}

/// Whether the F2 tools extension should be injected: not when an explicit
/// allowlist or a tool-disabling flag makes the preferences irrelevant.
pub fn should_inject_tools_extension(args: &[String]) -> (b: bool)
    ensures
        b == (!spec_has_explicit_tools_arg(args@) && !spec_has_no_tools_arg(args@)),
{
    !has_explicit_tools_arg(args) && !has_no_tools_arg(args)
}

/// The exclusion list to pass as `PI_GROK_EXCLUDE_TOOLS`; empty when there
/// is none.
pub fn cli_tool_exclusions(args: &[String]) -> (r: String)
    ensures
        r@ == (match excluded_tools_from(args@, 0) {
            Some(v) => v,
            None => Seq::<char>::empty(),
        }),
{
    match excluded_tools(args) {
        Some(v) => v,
        None => String::new(),
    }
}

/// Whether the Eval-v2-only tool policy applies: bridge extensions are on,
/// `[ui].pi_eval_v2_only` is set, and the CLI neither gives an allowlist nor
/// disables all tools.
pub fn eval_v2_only_tool_policy_applies(
    pi_args: &[String],
    bridge_extensions_enabled: bool,
    eval_v2_only: bool,
) -> (b: bool)
    ensures
        b == (bridge_extensions_enabled && eval_v2_only && !spec_has_explicit_tools_arg(pi_args@)
            && !(exists|i: int|
            0 <= i < pi_args@.len() && is_no_all_tools_flag(#[trigger] pi_args@[i]@))),
{
    if !(bridge_extensions_enabled && eval_v2_only) {
        return false;
    }
    if has_explicit_tools_arg(pi_args) {
        return false;
    }
    let mut i: usize = 0;
    while i < pi_args.len()
        invariant
            i <= pi_args@.len(),
            forall|j: int| 0 <= j < i ==> !is_no_all_tools_flag(#[trigger] pi_args@[j]@),
        decreases pi_args.len() - i,
    {
        let a = pi_args[i].as_str();
        if str_eq(a, "--no-tools") || str_eq(a, "-nt") {
            assert(is_no_all_tools_flag(pi_args@[i as int]@));
            return false;
        }
        i = i + 1;
    }
    true
}

/// Whether the normal F2 tool policy applies: bridge extensions are on, the
/// Eval-v2-only policy did not apply, and the tools extension is injected.
pub fn normal_f2_tool_policy_applies(
    pi_args: &[String],
    bridge_extensions_enabled: bool,
    eval_v2_only_tool_policy_applied: bool,
) -> (b: bool)
    ensures
        b == (bridge_extensions_enabled && !eval_v2_only_tool_policy_applied && (
        !spec_has_explicit_tools_arg(pi_args@) && !spec_has_no_tools_arg(pi_args@))),
{
    bridge_extensions_enabled && !eval_v2_only_tool_policy_applied
        && should_inject_tools_extension(pi_args)
}

/// The Pi built-in tools the F2 modal can toggle, in presentation order.
pub open spec fn builtin_tool_names() -> Seq<Seq<char>> {
    seq![
        "read"@,
        "bash"@,
        "edit"@,
        "write"@,
        "grep"@,
        "find"@,
        "ls"@,
        "eval"@,
    ]
}

/// Tools that are on when `[ui].pi_builtin_tools` does not mention them.
pub open spec fn default_on(name: Seq<char>) -> bool {
    name == "read"@ || name == "bash"@ || name == "edit"@ || name == "write"@
}

/// The boolean that `[ui].pi_builtin_tools.<name>` holds, if any; the first
/// entry for a name counts (table keys are unique).
pub open spec fn toggle_lookup(toggles: Seq<(String, bool)>, name: Seq<char>) -> Option<bool>
    decreases toggles.len(),
{
    if toggles.len() == 0 {
        None
    } else if toggles[0].0@ == name {
        Some(toggles[0].1)
    } else {
        toggle_lookup(toggles.drop_first(), name)
    }
}

/// Whether a built-in tool is enabled under the given toggles.
pub open spec fn tool_enabled(toggles: Option<Seq<(String, bool)>>, name: Seq<char>) -> bool {
    match toggles {
        None => default_on(name),
        Some(t) => match toggle_lookup(t, name) {
            Some(b) => b,
            None => default_on(name),
        },
    }
}

/// The toggle list behind an optional reference.
pub open spec fn toggles_view(toggles: Option<&Vec<(String, bool)>>) -> Option<Seq<(String, bool)>> {
    match toggles {
        Some(t) => Some(t@),
        None => None,
    }
}

/// The enabled built-in tools among `names`, in order.
pub open spec fn enabled_tools(names: Seq<Seq<char>>, toggles: Option<Seq<(String, bool)>>) -> Seq<
    Seq<char>,
>
    decreases names.len(),
{
    if names.len() == 0 {
        Seq::empty()
    } else {
        let rest = enabled_tools(names.drop_last(), toggles);
        if tool_enabled(toggles, names.last()) {
            rest.push(names.last())
        } else {
            rest
        }
    }
}

fn lookup_toggle(toggles: &Vec<(String, bool)>, name: &str) -> (r: Option<bool>)
    ensures
        r == toggle_lookup(toggles@, name@),
{
    let mut i: usize = 0;
    assert(toggles@.skip(0) =~= toggles@);
    while i < toggles.len()
        invariant
            i <= toggles@.len(),
            toggle_lookup(toggles@, name@) == toggle_lookup(toggles@.skip(i as int), name@),
        decreases toggles.len() - i,
    {
        let ghost rest = toggles@.skip(i as int);
        if str_eq(toggles[i].0.as_str(), name) {
            return Some(toggles[i].1);
        }
        assert(rest.drop_first() =~= toggles@.skip(i + 1));
        i = i + 1;
    }
    None
}

fn is_default_on(name: &str) -> (b: bool)
    ensures
        b == default_on(name@),
{
    str_eq(name, "read") || str_eq(name, "bash") || str_eq(name, "edit") || str_eq(name, "write")
}

fn push_if_enabled(
    out: &mut Vec<String>,
    toggles: Option<&Vec<(String, bool)>>,
    name: &str,
    Ghost(k): Ghost<int>,
)
    requires
        0 <= k < builtin_tool_names().len(),
        name@ == builtin_tool_names()[k],
        strs(old(out)@) == enabled_tools(builtin_tool_names().take(k), toggles_view(toggles)),
    ensures
        strs(final(out)@) == enabled_tools(builtin_tool_names().take(k + 1), toggles_view(toggles)),
{
    let ghost names = builtin_tool_names().take(k + 1);
    assert(names.drop_last() =~= builtin_tool_names().take(k));
    assert(names.last() == name@);
    let on = match toggles {
        None => is_default_on(name),
        Some(t) => match lookup_toggle(t, name) {
            Some(b) => b,
            None => is_default_on(name),
        },
    };
    if on {
        out.push(name.to_owned());
        assert(strs(out@) =~= strs(old(out)@).push(name@));
    }
}

/// The comma-separated Pi built-in tools to enable, given the boolean
/// entries of `[ui].pi_builtin_tools` (`None` when that table is absent or
/// the configuration cannot be read).
pub fn configured_builtin_tools(toggles: Option<&Vec<(String, bool)>>) -> (r: String)
    ensures
        r@ == join_seq(enabled_tools(builtin_tool_names(), toggles_view(toggles)), ","@),
{
    let mut out: Vec<String> = Vec::new();
    assert(strs(out@) =~= Seq::<Seq<char>>::empty());
    assert(builtin_tool_names().take(0) =~= Seq::<Seq<char>>::empty());
    push_if_enabled(&mut out, toggles, "read", Ghost(0));
    push_if_enabled(&mut out, toggles, "bash", Ghost(1));
    push_if_enabled(&mut out, toggles, "edit", Ghost(2));
    push_if_enabled(&mut out, toggles, "write", Ghost(3));
    push_if_enabled(&mut out, toggles, "grep", Ghost(4));
    push_if_enabled(&mut out, toggles, "find", Ghost(5));
    push_if_enabled(&mut out, toggles, "ls", Ghost(6));
    push_if_enabled(&mut out, toggles, "eval", Ghost(7));
    assert(builtin_tool_names().take(8) =~= builtin_tool_names());
    join_strings(&out, ",")
}

} // verus!

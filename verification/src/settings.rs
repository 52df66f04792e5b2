//! Runtime switches of the grok-pi host: environment flags, the `[ui]`
//! settings of the configuration file, and the paths derived from them.
use vstd::prelude::*;
use crate::json::{Json, get_spec};
use crate::number::{decimal, hex_fixed, push_decimal, push_hex_fixed};
use crate::seq_util::join_seq;
use crate::text::{eq_ignore_ascii_case, eq_ignore_ascii_case_seq, trim, trim_seq, str_eq};

verus! {

/// Name of the embedded configuration skill.
pub const CONFIG_SKILL_NAME: &'static str = "grok-pi-config";

/// Pi's Bash tool waits this many minutes before backgrounding, unless told
/// otherwise.
pub const DEFAULT_BASH_MAX_WAIT_MINS: &'static str = "4.5";

/// A default-on flag is switched off only by `0`, `false`, `off` or `no`
/// (any case, surrounding whitespace ignored).
pub open spec fn flag_off_word(v: Seq<char>) -> bool {
    let t = trim_seq(v);
    eq_ignore_ascii_case_seq(t, "0"@) || eq_ignore_ascii_case_seq(t, "false"@)
        || eq_ignore_ascii_case_seq(t, "off"@) || eq_ignore_ascii_case_seq(t, "no"@)
}

/// A default-off flag is switched on only by `1`, `true`, `on` or `yes`
/// (any case, surrounding whitespace ignored).
pub open spec fn flag_on_word(v: Seq<char>) -> bool {
    let t = trim_seq(v);
    eq_ignore_ascii_case_seq(t, "1"@) || eq_ignore_ascii_case_seq(t, "true"@)
        || eq_ignore_ascii_case_seq(t, "on"@) || eq_ignore_ascii_case_seq(t, "yes"@)
}

/// Feature flag that defaults to on. `value` is the variable's text, `None`
/// when it is unset (or not Unicode).
pub fn env_flag_default_on(value: Option<&str>) -> (r: bool)
    ensures
        r == match value {
            None => true,
            Some(v) => !flag_off_word(v@),
        },
{
    match value {
        None => true,
        Some(v) => {
            let t = trim(v);
            !(eq_ignore_ascii_case(t, "0") || eq_ignore_ascii_case(t, "false") || eq_ignore_ascii_case(
                t,
                "off",
            ) || eq_ignore_ascii_case(t, "no"))
        },
    }
}

/// Experimental flag that defaults to off and needs an explicit truthy value.
pub fn env_flag_default_off(value: Option<&str>) -> (r: bool)
    ensures
        r == match value {
            None => false,
            Some(v) => flag_on_word(v@),
        },
{
    match value {
        None => false,
        Some(v) => {
            let t = trim(v);
            eq_ignore_ascii_case(t, "1") || eq_ignore_ascii_case(t, "true") || eq_ignore_ascii_case(
                t,
                "on",
            ) || eq_ignore_ascii_case(t, "yes")
        },
    }
}

/// The setting `[ui].key` of a configuration document.
pub open spec fn ui_setting(config: Option<Json>, key: Seq<char>) -> Option<Json> {
    match config {
        Some(root) => match get_spec(root, "ui"@) {
            Some(ui) => get_spec(ui, key),
            None => None,
        },
        None => None,
    }
}

/// A boolean `[ui]` setting, or `default` when it is missing or not a boolean.
pub open spec fn ui_bool(config: Option<Json>, key: Seq<char>, default: bool) -> bool {
    match ui_setting(config, key) {
        Some(Json::Bool(b)) => b,
        _ => default,
    }
}

/// A string `[ui]` setting.
pub open spec fn ui_str(config: Option<Json>, key: Seq<char>) -> Option<Seq<char>> {
    match ui_setting(config, key) {
        Some(Json::Str(s)) => Some(s@),
        _ => None,
    }
}

pub open spec fn opt_json(config: Option<&Json>) -> Option<Json> {
    match config {
        Some(j) => Some(*j),
        None => None,
    }
}

fn ui_value<'a>(config: Option<&'a Json>, key: &str) -> (r: Option<&'a Json>)
    ensures
        match r {
            Some(v) => ui_setting(opt_json(config), key@) == Some(*v),
            None => ui_setting(opt_json(config), key@) is None,
        },
{
    match config {
        Some(root) => match root.get("ui") {
            Some(ui) => ui.get(key),
            None => None,
        },
        None => None,
    }
}

fn ui_flag(config: Option<&Json>, key: &str, default: bool) -> (r: bool)
    ensures
        r == ui_bool(opt_json(config), key@, default),
{
    match ui_value(config, key) {
        Some(v) => match v.as_bool() {
            Some(b) => b,
            None => default,
        },
        None => default,
    }
}

fn ui_text<'a>(config: Option<&'a Json>, key: &str) -> (r: Option<&'a str>)
    ensures
        match r {
            Some(s) => ui_str(opt_json(config), key@) == Some(s@),
            None => ui_str(opt_json(config), key@) is None,
        },
{
    match ui_value(config, key) {
        Some(v) => v.as_str(),
        None => None,
    }
}

/// `[ui].pi_bash`: the enhanced Bash bridge; on unless set to `false`.
pub fn bash_bridge_enabled_from_config(config: Option<&Json>) -> (r: bool)
    ensures
        r == ui_bool(opt_json(config), "pi_bash"@, true),
{
    ui_flag(config, "pi_bash", true)
}

/// Whether the enhanced Bash bridge runs. A set `PI_GROK_BASH` variable
/// (`env` is `Some`, holding its text when it is Unicode) overrides the
/// configuration as a default-on flag.
pub fn bash_bridge_enabled(env: Option<Option<&str>>, config: Option<&Json>) -> (r: bool)
    ensures
        r == match env {
            Some(value) => match value {
                None => true,
                Some(v) => !flag_off_word(v@),
            },
            None => ui_bool(opt_json(config), "pi_bash"@, true),
        },
{
    match env {
        Some(value) => env_flag_default_on(value),
        None => bash_bridge_enabled_from_config(config),
    }
}

/// `[ui].pi_eval`: only an explicit `"v2"` selects Eval bridge v2.
pub fn eval_version_from_config(config: Option<&Json>) -> (r: &'static str)
    ensures
        r@ == if ui_str(opt_json(config), "pi_eval"@) == Some("v2"@) {
            "v2"@
        } else {
            "v1"@
        },
{
    match ui_text(config, "pi_eval") {
        Some(s) => if str_eq(s, "v2") {
            "v2"
        } else {
            "v1"
        },
        None => "v1",
    }
}

/// `[ui].pi_eval_v2_language`: `"py"` or `"all"`; anything else keeps the
/// JavaScript-only default.
pub fn eval_v2_language_from_config(config: Option<&Json>) -> (r: &'static str)
    ensures
        r@ == if ui_str(opt_json(config), "pi_eval_v2_language"@) == Some("py"@) {
            "py"@
        } else if ui_str(opt_json(config), "pi_eval_v2_language"@) == Some("all"@) {
            "all"@
        } else {
            "js"@
        },
{
    match ui_text(config, "pi_eval_v2_language") {
        Some(s) => if str_eq(s, "py") {
            "py"
        } else if str_eq(s, "all") {
            "all"
        } else {
            "js"
        },
        None => "js",
    }
}

/// `[ui].pi_eval_v2_only`: force Eval v2 as the only top-level tool; off
/// unless set to `true`.
pub fn eval_v2_only_enabled_from_config(config: Option<&Json>) -> (r: bool)
    ensures
        r == ui_bool(opt_json(config), "pi_eval_v2_only"@, false),
{
    ui_flag(config, "pi_eval_v2_only", false)
}

/// `[ui].pi_config_skill`: load the embedded configuration skill; on unless
/// set to `false`.
pub fn config_skill_enabled_from_config(config: Option<&Json>) -> (r: bool)
    ensures
        r == ui_bool(opt_json(config), "pi_config_skill"@, true),
{
    ui_flag(config, "pi_config_skill", true)
}

/// `[ui].pi_tree_file_rollback`: file rollback checkpoints; off unless set to
/// `true`, and off when no configuration could be read.
pub fn rollback_enabled_from_config(config: Option<&Json>) -> (r: bool)
    ensures
        r == ui_bool(opt_json(config), "pi_tree_file_rollback"@, false),
{
    ui_flag(config, "pi_tree_file_rollback", false)
}

/// The Bash control metadata the adapter may use: only while the enhanced
/// Bash half of the extension is active.
pub fn bash_control_meta_for_adapter(bash_enabled: bool, control_meta: Option<&str>) -> (r: Option<
    String,
>)
    ensures
        match r {
            Some(p) => bash_enabled && (control_meta matches Some(m) && p@ == m@),
            None => !bash_enabled || control_meta is None,
        },
{
    if !bash_enabled {
        return None;
    }
    match control_meta {
        Some(m) => Some(m.to_owned()),
        None => None,
    }
}

/// Where rollback journals and blobs live: `$GROK_HOME/pi-file-rollback`,
/// else `$HOME/.grok-pi/pi-file-rollback`, else `/tmp/.grok-pi/pi-file-rollback`.
pub open spec fn state_root_spec(grok_home: Option<Seq<char>>, home: Option<Seq<char>>) -> Seq<char> {
    let base = match grok_home {
        Some(g) => g,
        None => match home {
            Some(h) => h + "/.grok-pi"@,
            None => "/tmp/.grok-pi"@,
        },
    };
    base + "/pi-file-rollback"@
}

pub open spec fn opt_view(s: Option<&str>) -> Option<Seq<char>> {
    match s {
        Some(x) => Some(x@),
        None => None,
    }
}

/// The rollback state root from the values of `GROK_HOME` and `HOME`.
pub fn rollback_state_root(grok_home: Option<&str>, home: Option<&str>) -> (r: String)
    ensures
        r@ == state_root_spec(opt_view(grok_home), opt_view(home)),
{
    let mut root = match grok_home {
        Some(g) => g.to_owned(),
        None => match home {
            Some(h) => h.to_owned().concat("/.grok-pi"),
            None => "/tmp/.grok-pi".to_owned(),
        },
    };
    root.append("/pi-file-rollback");
    root
}

/// A short process-unique suffix: the process id as eight hex digits, then
/// the low 16 bits of the clock's nanoseconds as four.
pub fn uuid_v4_short(pid: u32, nanos: u32) -> (r: String)
    ensures
        r@ == hex_fixed(pid as nat, 8) + hex_fixed((nanos % 65536) as nat, 4),
{
    let mut out = String::new();
    push_hex_fixed(&mut out, pid as u64, 8);
    push_hex_fixed(&mut out, (nanos % 65536) as u64, 4);
    assert(out@ =~= hex_fixed(pid as nat, 8) + hex_fixed((nanos % 65536) as nat, 4));
    out
}

/// Name of the rollback bridge's control directory: `control-<pid>-<suffix>`.
pub fn control_dir_name(pid: u32, nanos: u32) -> (r: String)
    ensures
        r@ == "control-"@ + decimal(pid as nat) + "-"@ + hex_fixed(pid as nat, 8) + hex_fixed(
            (nanos % 65536) as nat,
            4,
        ),
{
    let mut out = "control-".to_owned();
    push_decimal(&mut out, pid as u64);
    out.append("-");
    let suffix = uuid_v4_short(pid, nanos);
    out.append(suffix.as_str());
    assert(out@ =~= "control-"@ + decimal(pid as nat) + "-"@ + hex_fixed(pid as nat, 8) + hex_fixed(
        (nanos % 65536) as nat,
        4,
    ));
    out
}

/// `r` is `part` joined under `base` by a path separator where one is needed.
pub open spec fn joined(base: Seq<char>, part: Seq<char>, r: Seq<char>) -> bool {
    r == base + part || r == base + seq!['/'] + part || r == base + seq!['\\'] + part
}

/// A path with a Windows verbatim prefix (`\\?\`, either separator):
/// Windows normalises `.` and `..` parts when joining onto such a path.
pub open spec fn has_verbatim_prefix(p: Seq<char>) -> bool {
    p.len() >= 3 && (p[0] == '/' || p[0] == '\\') && (p[1] == '/' || p[1] == '\\') && p[2] == '?'
}

/// A plain path part: not empty, not `.` or `..`, with no separator, colon
/// or question mark.
pub open spec fn plain_part(part: Seq<char>) -> bool {
    &&& part.len() > 0
    &&& part != "."@
    &&& part != ".."@
    &&& forall|i: int|
        0 <= i < part.len() ==> part[i] != '/' && part[i] != '\\' && part[i] != ':' && part[i]
            != '?'
}

/// `std::path::Path::join` of a single plain name, as text. For such a name
/// (no separator, colon or root, not `.` or `..`) `join` adjoins it to
/// `base`, putting the platform's separator (`/`, or `\` on Windows) in
/// between unless `base` is empty or already ends in one; the text of paths
/// made from `&str` is kept exactly. Onto a base with a Windows verbatim
/// prefix, Windows normalises the joined path, so nothing is claimed for
/// such a base. Which separator is used is left unsaid: it is the
/// platform's.
#[verifier::external_body]
fn join_path(base: &str, part: &str) -> (r: String)
    requires
        plain_part(part@),
    ensures
        !has_verbatim_prefix(base@) ==> joined(base@, part@, r@),
{
    std::path::Path::new(base).join(part).to_string_lossy().into_owned()
}

/// Joining a plain part onto a path without a verbatim prefix gives a path
/// without one.
proof fn lemma_join_stays_plain(base: Seq<char>, part: Seq<char>, r: Seq<char>)
    requires
        !has_verbatim_prefix(base),
        plain_part(part),
        joined(base, part, r),
    ensures
        !has_verbatim_prefix(r),
{
    if has_verbatim_prefix(r) {
        if base.len() >= 3 {
            assert(r[0] == base[0] && r[1] == base[1] && r[2] == base[2]);
        } else if r == base + part {
            assert(r[2] == part[2 - base.len()]);
        } else if r == base + seq!['/'] + part {
            if base.len() == 2 {
                assert(r[2] == '/');
            } else {
                assert(r[2] == part[2 - base.len() - 1]);
            }
        } else {
            if base.len() == 2 {
                assert(r[2] == '\\');
            } else {
                assert(r[2] == part[2 - base.len() - 1]);
            }
        }
    }
}

/// `<home>/bundled/skills/grok-pi-config`, where the configuration skill is
/// cached (for a home without a Windows verbatim prefix).
pub fn config_skill_dir(home: &str) -> (r: String)
    ensures
        !has_verbatim_prefix(home@) ==> exists|a: Seq<char>, b: Seq<char>|
            joined(home@, "bundled"@, a) && joined(a, "skills"@, b) && joined(
                b,
                CONFIG_SKILL_NAME@,
                r@,
            ),
{
    proof {
        reveal_strlit("bundled");
        reveal_strlit("skills");
        reveal_strlit("grok-pi-config");
        reveal_strlit(".");
        reveal_strlit("..");
        assert(plain_part("bundled"@));
        assert(plain_part("skills"@));
        assert(CONFIG_SKILL_NAME@ == "grok-pi-config"@);
        assert("grok-pi-config"@.len() == 14);
        assert("grok-pi-config"@ != "."@);
        assert("grok-pi-config"@ != ".."@);
        assert(plain_part("grok-pi-config"@));
    }
    let a = join_path(home, "bundled");
    let b = join_path(a.as_str(), "skills");
    let r = join_path(b.as_str(), CONFIG_SKILL_NAME);
    proof {
        if !has_verbatim_prefix(home@) {
            lemma_join_stays_plain(home@, "bundled"@, a@);
            lemma_join_stays_plain(a@, "skills"@, b@);
            assert(joined(home@, "bundled"@, a@) && joined(a@, "skills"@, b@) && joined(
                b@,
                CONFIG_SKILL_NAME@,
                r@,
            ));
        }
    }
    r
}

/// How a manifest's source name is written inside a JSON string.
pub open spec fn escape_char(c: char) -> Seq<char> {
    if c == '\\' {
        seq!['\\', '\\']
    } else if c == '"' {
        seq!['\\', '"']
    } else {
        seq![c]
    }
}

/// `s` with backslashes and double quotes escaped.
pub open spec fn json_escape(s: Seq<char>) -> Seq<char>
    decreases s.len(),
{
    if s.len() == 0 {
        Seq::empty()
    } else {
        json_escape(s.drop_last()) + escape_char(s.last())
    }
}

/// Escape backslashes and double quotes.
pub fn escape_json_text(s: &str) -> (r: String)
    ensures
        r@ == json_escape(s@),
{
    let n = s.unicode_len();
    let mut out = String::new();
    let mut i: usize = 0;
    while i < n
        invariant
            n == s@.len(),
            i <= n,
            out@ == json_escape(s@.take(i as int)),
        decreases n - i,
    {
        let c = s.get_char(i);
        proof {
            assert(s@.take(i + 1).drop_last() =~= s@.take(i as int));
            assert(s@.take(i + 1).last() == c);
            reveal_strlit("\\\\");
            reveal_strlit("\\\"");
        }
        if c == '\\' {
            out.append("\\\\");
        } else if c == '"' {
            out.append("\\\"");
        } else {
            out.append(s.substring_char(i, i + 1));
            assert(s@.subrange(i as int, i + 1) =~= seq![c]);
        }
        assert(out@ =~= json_escape(s@.take(i + 1)));
        i = i + 1;
    }
    assert(s@.take(n as int) =~= s@);
    out
}

/// One entry of the host settings catalog.
pub open spec fn catalog_item(source: Seq<char>, manifest: Seq<char>) -> Seq<char> {
    "{\"source\": \""@ + json_escape(source) + "\", \"manifest\": "@ + manifest + "}"@
}

pub open spec fn catalog_items(sources: Seq<(String, String)>) -> Seq<Seq<char>> {
    sources.map_values(|p: (String, String)| catalog_item(p.0@, p.1@))
}

/// The host settings catalog: a JSON array with one `{source, manifest}`
/// object per bundled extension manifest, one per line.
pub open spec fn catalog_spec(sources: Seq<(String, String)>) -> Seq<char> {
    "[\n"@ + join_seq(catalog_items(sources), ",\n"@) + "\n]\n"@
}

/// Serialize the bundled extension manifests (`(source, manifest JSON)`
/// pairs) for the web settings page.
pub fn host_catalog_json(sources: &[(String, String)]) -> (r: String)
    ensures
        r@ == catalog_spec(sources@),
{
    let ghost items = catalog_items(sources@);
    let mut body = String::new();
    let mut i: usize = 0;
    while i < sources.len()
        invariant
            i <= sources@.len(),
            items == catalog_items(sources@),
            body@ == join_seq(items.take(i as int), ",\n"@),
        decreases sources@.len() - i,
    {
        if i != 0 {
            body.append(",\n");
        }
        let escaped = escape_json_text(sources[i].0.as_str());
        body.append("{\"source\": \"");
        body.append(escaped.as_str());
        body.append("\", \"manifest\": ");
        body.append(sources[i].1.as_str());
        body.append("}");
        proof {
            let next = items.take(i + 1);
            assert(next.drop_last() =~= items.take(i as int));
            assert(next.last() == catalog_item(sources@[i as int].0@, sources@[i as int].1@));
            if i == 0 {
                assert(body@ =~= next[0]);
            } else {
                assert(body@ =~= join_seq(items.take(i as int), ",\n"@) + ",\n"@ + next.last());
            }
        }
        i = i + 1;
    }
    assert(items.take(sources@.len() as int) =~= items);
    let mut out = "[\n".to_owned();
    out.append(body.as_str());
    out.append("\n]\n");
    assert(out@ =~= catalog_spec(sources@));
    out
}

} // verus!

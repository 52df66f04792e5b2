//! The opt-in crash report for an extension found to break Pi: who is
//! reported (a privacy-safe name only), whether the user agreed, and the
//! request that is sent.
use vstd::prelude::*;
use crate::extension_identity::{ext_identity, ext_identity_from_path};
use crate::lex::seq_lt;
use crate::number::hex_char;
use crate::seq_util::join_seq;
use crate::text::{str_eq, trim, trim_seq};

verus! {

/// Where reports go unless `GROK_PI_EXT_TELEMETRY_URL` or `REPORT_URL` says
/// otherwise.
pub const DEFAULT_EXT_TELEMETRY_URL: &'static str = "https://ext-crash-telemetry.dwsycode.workers.dev";

/// The reported identity `(ext_name, package_dir)`: a combination of
/// extensions is reported as `combo`, a single one by its path's identity.
pub open spec fn report_identity_v(path_or_label: Seq<char>, kind: Seq<char>) -> (Seq<char>, Seq<char>) {
    if kind == "combo"@ {
        ("combo"@, "combo"@)
    } else {
        ext_identity(path_or_label)
    }
}

pub fn crash_report_identity(path_or_label: &str, kind: &str) -> (r: (String, String))
    ensures
        (r.0@, r.1@) == report_identity_v(path_or_label@, kind@),
{
    if str_eq(kind, "combo") {
        ("combo".to_owned(), "combo".to_owned())
    } else {
        ext_identity_from_path(path_or_label)
    }
}

/// The answer to "Report this ...? [Y/n]": only `n` or `N` declines; any
/// other key, or none, agrees.
pub fn reports_on_key(key: Option<char>) -> (r: bool)
    ensures
        r == !(key == Some('n') || key == Some('N')),
{
    match key {
        Some(c) => !(c == 'n' || c == 'N'),
        None => true,
    }
}

/// `s` without its trailing `/` characters.
pub open spec fn trim_slashes_v(s: Seq<char>) -> Seq<char>
    decreases s.len(),
{
    if s.len() > 0 && s.last() == '/' {
        trim_slashes_v(s.drop_last())
    } else {
        s
    }
}

/// The report endpoint: the configured base URL (`GROK_PI_EXT_TELEMETRY_URL`,
/// else `REPORT_URL`, else the default) without trailing slashes, then
/// `/v1/report`.
pub open spec fn endpoint_v(telemetry_url: Option<Seq<char>>, report_url: Option<Seq<char>>) -> Seq<char> {
    let base = match telemetry_url {
        Some(u) => u,
        None => match report_url {
            Some(u) => u,
            None => DEFAULT_EXT_TELEMETRY_URL@,
        },
    };
    trim_slashes_v(base) + "/v1/report"@
}

pub open spec fn ov(s: Option<&str>) -> Option<Seq<char>> {
    match s {
        Some(x) => Some(x@),
        None => None,
    }
}

/// The report endpoint from the values of `GROK_PI_EXT_TELEMETRY_URL` and
/// `REPORT_URL`.
pub fn telemetry_endpoint(telemetry_url: Option<&str>, report_url: Option<&str>) -> (r: String)
    ensures
        r@ == endpoint_v(ov(telemetry_url), ov(report_url)),
{
    let base = match telemetry_url {
        Some(u) => u,
        None => match report_url {
            Some(u) => u,
            None => DEFAULT_EXT_TELEMETRY_URL,
        },
    };
    let mut end = base.unicode_len();
    assert(base@.subrange(0, end as int) =~= base@);
    while end > 0 && base.get_char(end - 1) == '/'
        invariant
            end <= base@.len(),
            trim_slashes_v(base@) == trim_slashes_v(base@.subrange(0, end as int)),
        decreases end,
    {
        proof {
            let t = base@.subrange(0, end as int);
            assert(t.drop_last() =~= base@.subrange(0, end - 1));
        }
        end = end - 1;
    }
    let mut r = base.substring_char(0, end).to_owned();
    r.append("/v1/report");
    r
}

/// The token reports are signed with: a non-empty `REPORT_TOKEN`, else the
/// trimmed token file when it is not empty; no report is sent without one.
pub open spec fn token_v(env_token: Option<Seq<char>>, file_text: Option<Seq<char>>) -> Option<Seq<char>> {
    match env_token {
        Some(t) if t.len() > 0 => Some(t),
        _ => match file_text {
            Some(f) => if trim_seq(f).len() > 0 {
                Some(trim_seq(f))
            } else {
                None
            },
            None => None,
        },
    }
}

pub fn telemetry_token(env_token: Option<&str>, file_text: Option<&str>) -> (r: Option<String>)
    ensures
        match r {
            Some(t) => token_v(ov(env_token), ov(file_text)) == Some(t@),
            None => token_v(ov(env_token), ov(file_text)) is None,
        },
{
    match env_token {
        Some(t) => if t.unicode_len() > 0 {
            return Some(t.to_owned());
        },
        None => {},
    }
    match file_text {
        Some(f) => {
            let t = trim(f);
            if t.unicode_len() > 0 {
                Some(t.to_owned())
            } else {
                None
            }
        },
        None => None,
    }
}

/// How `serde_json` writes a character inside a string: `"` and `\` behind a
/// backslash; backspace, tab, newline, form feed and carriage return by
/// their short escapes; any other character below U+0020 as `\u00XX` in
/// lowercase hexadecimal; every other character as it is.
pub open spec fn json_escaped_char(c: char) -> Seq<char> {
    if c == '"' {
        seq!['\\', '"']
    } else if c == '\\' {
        seq!['\\', '\\']
    } else if c == '\x08' {
        seq!['\\', 'b']
    } else if c == '\t' {
        seq!['\\', 't']
    } else if c == '\n' {
        seq!['\\', 'n']
    } else if c == '\x0c' {
        seq!['\\', 'f']
    } else if c == '\r' {
        seq!['\\', 'r']
    } else if (c as int) < 32 {
        seq!['\\', 'u', '0', '0', hex_char((c as int / 16) as nat), hex_char((c as int % 16) as nat)]
    } else {
        seq![c]
    }
}

/// A text with each character escaped as `serde_json` writes it.
pub open spec fn json_escaped(s: Seq<char>) -> Seq<char>
    decreases s.len(),
{
    if s.len() == 0 {
        Seq::empty()
    } else {
        json_escaped(s.drop_last()) + json_escaped_char(s.last())
    }
}

/// A JSON string literal.
pub open spec fn json_quoted(s: Seq<char>) -> Seq<char> {
    seq!['"'] + json_escaped(s) + seq!['"']
}

/// A member of a JSON object whose value is a string: `"key":"value"`.
pub open spec fn json_member_text(m: (Seq<char>, Seq<char>)) -> Seq<char> {
    json_quoted(m.0) + seq![':'] + json_quoted(m.1)
}

/// The compact text of a JSON object whose values are strings: its members
/// between braces, separated by commas, in the order given.
pub open spec fn json_string_object(members: Seq<(Seq<char>, Seq<char>)>) -> Seq<char> {
    seq!['{'] + join_seq(
        members.map_values(|m: (Seq<char>, Seq<char>)| json_member_text(m)),
        seq![','],
    ) + seq!['}']
}

/// Each key comes strictly before the next one.
pub open spec fn keys_ascending(members: Seq<(Seq<char>, Seq<char>)>) -> bool {
    forall|i: int| 0 <= i < members.len() - 1 ==> seq_lt(#[trigger] members[i].0, members[i + 1].0)
}

pub open spec fn member_views(members: Seq<(String, String)>) -> Seq<(Seq<char>, Seq<char>)> {
    members.map_values(|m: (String, String)| (m.0@, m.1@))
}

/// `serde_json::Value::Object(..).to_string()` for string members. Claimed:
/// with the keys in strictly ascending order, which is the order in which a
/// `serde_json::Map` (a `BTreeMap`, as the `preserve_order` feature is off)
/// holds and writes them, the text is the compact object of `json_string_object`:
/// the members in that order, each key and value quoted with `serde_json`'s
/// escapes.
#[verifier::external_body]
fn string_object_text(members: &[(String, String)]) -> (r: String)
    requires
        keys_ascending(member_views(members@)),
    ensures
        r@ == json_string_object(member_views(members@)),
{
    let map: serde_json::Map<String, serde_json::Value> = members
        .iter()
        .map(|m| (m.0.clone(), serde_json::Value::String(m.1.clone())))
        .collect();
    serde_json::Value::Object(map).to_string()
}

/// The report's members, in the order of their keys: the client, the
/// extension's name, the kind of report, and the package directory.
pub open spec fn body_members(ext_name: Seq<char>, package_dir: Seq<char>, kind: Seq<char>) -> Seq<
    (Seq<char>, Seq<char>),
> {
    seq![
        ("client"@, "grok-pi"@),
        ("ext_name"@, ext_name),
        ("kind"@, kind),
        ("package_dir"@, package_dir),
    ]
}

/// The report body: the JSON object of `ext_name`, `package_dir`, `kind`
/// and `client: grok-pi`, as `serde_json` writes it (keys in order).
pub fn crash_report_body(ext_name: &str, package_dir: &str, kind: &str) -> (r: String)
    ensures
        r@ == json_string_object(body_members(ext_name@, package_dir@, kind@)),
{
    let members = vec![
        ("client".to_owned(), "grok-pi".to_owned()),
        ("ext_name".to_owned(), ext_name.to_owned()),
        ("kind".to_owned(), kind.to_owned()),
        ("package_dir".to_owned(), package_dir.to_owned()),
    ];
    let ghost mv = member_views(members@);
    assert(mv =~= body_members(ext_name@, package_dir@, kind@));
    proof {
        reveal_strlit("client");
        reveal_strlit("ext_name");
        reveal_strlit("kind");
        reveal_strlit("package_dir");
        assert(seq_lt("client"@, "ext_name"@));
        assert(seq_lt("ext_name"@, "kind"@));
        assert(seq_lt("kind"@, "package_dir"@));
        assert(keys_ascending(mv));
    }
    string_object_text(members.as_slice())
}

/// The arguments of the `curl` call that posts a report.
pub open spec fn curl_args_v(endpoint: Seq<char>, token: Seq<char>, body: Seq<char>) -> Seq<Seq<char>> {
    seq![
        "-sS"@,
        "-m"@,
        "5"@,
        "-X"@,
        "POST"@,
        endpoint,
        "-H"@,
        "content-type: application/json"@,
        "-H"@,
        "authorization: Bearer "@ + token,
        "-d"@,
        body,
    ]
}

/// `curl` arguments for posting `body` to `endpoint` with a bearer `token`,
/// with a five second limit.
pub fn telemetry_curl_args(endpoint: &str, token: &str, body: &str) -> (r: Vec<String>)
    ensures
        crate::seq_util::strs(r@) == curl_args_v(endpoint@, token@, body@),
{
    let r = vec![
        "-sS".to_owned(),
        "-m".to_owned(),
        "5".to_owned(),
        "-X".to_owned(),
        "POST".to_owned(),
        endpoint.to_owned(),
        "-H".to_owned(),
        "content-type: application/json".to_owned(),
        "-H".to_owned(),
        "authorization: Bearer ".to_owned().concat(token),
        "-d".to_owned(),
        body.to_owned(),
    ];
    assert(crate::seq_util::strs(r@) =~= curl_args_v(endpoint@, token@, body@));
    r
}

} // verus!

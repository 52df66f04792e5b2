//! Pi host resolution and version gating for grok-pi startup.
//!
//! The probe itself (`<host> --version`) is run by the caller; this module
//! decides how to launch the host, extracts the version from the probe's
//! output and classifies the host against the minimum supported version.
use vstd::prelude::*;
use crate::text::{eq_ignore_ascii_case, eq_ignore_ascii_case_seq, is_ws, trim, trim_seq};

verus! {

/// Minimum supported Pi CLI version.
pub const MIN_PI_VERSION: &'static str = "0.84.3";

/// Install one-liner for Unix-like hosts.
pub const INSTALL_UNIX: &'static str = "curl -fsSL https://pi.dev/install.sh | sh";

/// Install one-liner for Windows hosts.
pub const INSTALL_WINDOWS: &'static str = "powershell -c \"irm https://pi.dev/install.ps1 | iex\"";

/// Install command through npm.
pub const INSTALL_NPM: &'static str = "npm i -g @earendil-works/pi-coding-agent";

/// A semantic version as parsed by the `semver` crate.
#[derive(Clone, Debug, PartialEq, Eq)]
pub struct PiVersion {
    pub major: u64,
    pub minor: u64,
    pub patch: u64,
    /// Pre-release identifiers (after `-`), empty for a release.
    pub pre: String,
    /// Build metadata (after `+`), empty when absent.
    pub build: String,
}

impl PiVersion {
    pub open spec fn key(self) -> (u64, u64, u64, Seq<char>, Seq<char>) {
        (self.major, self.minor, self.patch, self.pre@, self.build@)
    }
}

/// What `semver::Version::parse` yields for a text: major, minor, patch,
/// pre-release and build metadata, or `None` when the text is not a
/// SemVer version.
pub uninterp spec fn semver_parse(text: Seq<char>) -> Option<(u64, u64, u64, Seq<char>, Seq<char>)>;

/// `semver::Version::parse`, converted to plain fields.
#[verifier::external_body]
fn parse_semver(text: &str) -> (r: Option<PiVersion>)
    ensures
        r matches Some(v) ==> semver_parse(text@) == Some(v.key()),
        r is None ==> semver_parse(text@) is None,
{
    match semver::Version::parse(text) {
        Ok(v) => Some(
            PiVersion {
                major: v.major,
                minor: v.minor,
                patch: v.patch,
                pre: v.pre.as_str().to_string(),
                build: v.build.as_str().to_string(),
            },
        ),
        Err(_) => None,
    }
}

/// Separators of the tokens of `--version` output.
pub open spec fn is_version_sep(c: char) -> bool {
    is_ws(c) || c == '/' || c == 'v' || c == 'V'
}

pub open spec fn is_punct(c: char) -> bool {
    c == ',' || c == ';'
}

/// `s` without leading and trailing `,`/`;` (`trim_matches`).
pub open spec fn trim_punct_start(s: Seq<char>) -> Seq<char>
    decreases s.len(),
{
    if s.len() > 0 && is_punct(s[0]) {
        trim_punct_start(s.drop_first())
    } else {
        s
    }
}

pub open spec fn trim_punct_end(s: Seq<char>) -> Seq<char>
    decreases s.len(),
{
    if s.len() > 0 && is_punct(s.last()) {
        trim_punct_end(s.drop_last())
    } else {
        s
    }
}

pub open spec fn is_version_char(c: char) -> bool {
    ('0' <= c && c <= '9') || c == '.' || c == '-' || c == '+'
}

/// Length of the longest prefix of version characters (digits, `.`, `-`,
/// `+`).
pub open spec fn version_prefix_len(s: Seq<char>) -> nat
    decreases s.len(),
{
    if s.len() > 0 && is_version_char(s[0]) {
        1 + version_prefix_len(s.drop_first())
    } else {
        0
    }
}

/// The version one token of `--version` output yields: the trimmed token
/// itself if it parses, else its leading run of version characters if that
/// parses.
pub open spec fn token_version(t: Seq<char>) -> Option<(u64, u64, u64, Seq<char>, Seq<char>)> {
    let c = trim_punct_end(trim_punct_start(trim_seq(t)));
    let p = c.take(version_prefix_len(c) as int);
    if c.len() == 0 {
        None
    } else if semver_parse(c) is Some {
        semver_parse(c)
    } else if p.len() > 0 {
        semver_parse(p)
    } else {
        None
    }
}

/// The first version among the tokens of `s`, where `cur` is the token
/// being read.
pub open spec fn version_in(s: Seq<char>, cur: Seq<char>) -> Option<
    (u64, u64, u64, Seq<char>, Seq<char>),
>
    decreases s.len(),
{
    if s.len() == 0 {
        token_version(cur)
    } else if is_version_sep(s[0]) {
        match token_version(cur) {
            Some(v) => Some(v),
            None => version_in(s.drop_first(), Seq::empty()),
        }
    } else {
        version_in(s.drop_first(), cur.push(s[0]))
    }
}

/// The version found in `--version` output: the first token (split at
/// whitespace, `/`, `v` and `V`) that yields one.
pub open spec fn spec_parse_pi_version(raw: Seq<char>) -> Option<
    (u64, u64, u64, Seq<char>, Seq<char>),
> {
    version_in(raw, Seq::empty())
}

fn is_version_separator(c: char) -> (b: bool)
    ensures
        b == is_version_sep(c),
{
    crate::text::is_whitespace(c) || c == '/' || c == 'v' || c == 'V'
}

proof fn lemma_trim_punct_start_skip(s: Seq<char>, i: int)
    requires
        0 <= i <= s.len(),
        forall|j: int| 0 <= j < i ==> is_punct(#[trigger] s[j]),
    ensures
        trim_punct_start(s) == trim_punct_start(s.subrange(i, s.len() as int)),
    decreases i,
{
    if i > 0 {
        let t = s.drop_first();
        assert forall|j: int| 0 <= j < i - 1 implies is_punct(#[trigger] t[j]) by {
            assert(t[j] == s[j + 1]);
        }
        lemma_trim_punct_start_skip(t, i - 1);
        assert(t.subrange(i - 1, t.len() as int) =~= s.subrange(i, s.len() as int));
    } else {
        assert(s.subrange(0, s.len() as int) =~= s);
    }
}

proof fn lemma_trim_punct_end_take(s: Seq<char>, k: int)
    requires
        0 <= k <= s.len(),
        forall|j: int| k <= j < s.len() ==> is_punct(#[trigger] s[j]),
    ensures
        trim_punct_end(s) == trim_punct_end(s.subrange(0, k)),
    decreases s.len() - k,
{
    if k < s.len() {
        let t = s.drop_last();
        assert forall|j: int| k <= j < t.len() implies is_punct(#[trigger] t[j]) by {
            assert(t[j] == s[j]);
        }
        assert(is_punct(s[s.len() - 1]));
        lemma_trim_punct_end_take(t, k);
        assert(t.subrange(0, k) =~= s.subrange(0, k));
    } else {
        assert(s.subrange(0, k) =~= s);
    }
}

fn trim_punct<'a>(s: &'a str) -> (r: &'a str)
    ensures
        r@ == trim_punct_end(trim_punct_start(s@)),
{
    let n = s.unicode_len();
    let mut lo: usize = 0;
    while lo < n && (s.get_char(lo) == ',' || s.get_char(lo) == ';')
        invariant
            n == s@.len(),
            lo <= n,
            forall|j: int| 0 <= j < lo ==> is_punct(#[trigger] s@[j]),
        decreases n - lo,
    {
        lo = lo + 1;
    }
    proof {
        lemma_trim_punct_start_skip(s@, lo as int);
    }
    let ghost rest = s@.subrange(lo as int, n as int);
    assert(trim_punct_start(rest) == rest);
    let mut hi: usize = n;
    while hi > lo && (s.get_char(hi - 1) == ',' || s.get_char(hi - 1) == ';')
        invariant
            n == s@.len(),
            lo <= hi <= n,
            rest == s@.subrange(lo as int, n as int),
            forall|j: int| hi <= j < n ==> is_punct(#[trigger] s@[j]),
        decreases hi,
    {
        hi = hi - 1;
    }
    proof {
        assert forall|j: int| hi - lo <= j < rest.len() implies is_punct(#[trigger] rest[j]) by {
            assert(rest[j] == s@[lo + j]);
        }
        lemma_trim_punct_end_take(rest, hi - lo);
        let kept = rest.subrange(0, hi - lo);
        assert(kept =~= s@.subrange(lo as int, hi as int));
        if kept.len() > 0 {
            assert(kept.last() == s@[hi - 1]);
        }
    }
    s.substring_char(lo, hi)
}

proof fn lemma_version_prefix(s: Seq<char>, i: int)
    requires
        0 <= i <= s.len(),
        forall|j: int| 0 <= j < i ==> is_version_char(#[trigger] s[j]),
    ensures
        version_prefix_len(s) == i + version_prefix_len(s.subrange(i, s.len() as int)),
    decreases i,
{
    if i > 0 {
        let t = s.drop_first();
        assert forall|j: int| 0 <= j < i - 1 implies is_version_char(#[trigger] t[j]) by {
            assert(t[j] == s[j + 1]);
        }
        lemma_version_prefix(t, i - 1);
        assert(t.subrange(i - 1, t.len() as int) =~= s.subrange(i, s.len() as int));
    } else {
        assert(s.subrange(0, s.len() as int) =~= s);
    }
}

fn is_version_character(ch: char) -> (b: bool)
    ensures
        b == is_version_char(ch),
{
    ('0' <= ch && ch <= '9') || ch == '.' || ch == '-' || ch == '+'
}

fn version_of_token(t: &str) -> (r: Option<PiVersion>)
    ensures
        r matches Some(v) ==> token_version(t@) == Some(v.key()),
        r is None ==> token_version(t@) is None,
{
    let c = trim_punct(trim(t));
    let n = c.unicode_len();
    if n == 0 {
        return None;
    }
    let whole = parse_semver(c);
    if whole.is_some() {
        return whole;
    }
    let mut end: usize = 0;
    while end < n && is_version_character(c.get_char(end))
        invariant
            n == c@.len(),
            end <= n,
            forall|j: int| 0 <= j < end ==> is_version_char(#[trigger] c@[j]),
        decreases n - end,
    {
        end = end + 1;
    }
    proof {
        lemma_version_prefix(c@, end as int);
        let rest = c@.subrange(end as int, n as int);
        if end < n {
            assert(rest[0] == c@[end as int]);
        }
        assert(version_prefix_len(rest) == 0);
        assert(c@.take(end as int) =~= c@.subrange(0, end as int));
    }
    if end > 0 {
        parse_semver(c.substring_char(0, end))
    } else {
        None
    }
}

/// Extract the first semver-looking token from `--version` output, as in
/// `0.84.3`, `pi 0.84.3` or `@earendil-works/pi-coding-agent/0.84.3`.
pub fn parse_pi_version(raw: &str) -> (r: Option<PiVersion>)
    ensures
        r matches Some(v) ==> spec_parse_pi_version(raw@) == Some(v.key()),
        r is None ==> spec_parse_pi_version(raw@) is None,
{
    let n = raw.unicode_len();
    let mut start: usize = 0;
    let mut i: usize = 0;
    assert(raw@.skip(0) =~= raw@);
    assert(raw@.subrange(0, 0) =~= Seq::<char>::empty());
    while i < n
        invariant
            n == raw@.len(),
            start <= i <= n,
            version_in(raw@.skip(i as int), raw@.subrange(start as int, i as int))
                == spec_parse_pi_version(raw@),
        decreases n - i,
    {
        let c = raw.get_char(i);
        let ghost rest = raw@.skip(i as int);
        let ghost cur = raw@.subrange(start as int, i as int);
        assert(rest[0] == c);
        assert(rest.drop_first() =~= raw@.skip(i + 1));
        if is_version_separator(c) {
            let token = raw.substring_char(start, i);
            let found = version_of_token(token);
            if found.is_some() {
                return found;
            }
            i = i + 1;
            start = i;
            assert(raw@.subrange(start as int, i as int) =~= Seq::<char>::empty());
        } else {
            assert(raw@.subrange(start as int, i + 1) =~= cur.push(c));
            i = i + 1;
        }
    }
    assert(raw@.skip(i as int) =~= Seq::<char>::empty());
    version_of_token(raw.substring_char(start, n))
}

/// Whether `v` is at least the release `major.minor.patch`: SemVer orders
/// the numeric triple lexicographically and puts a pre-release below the
/// release with the same triple; build metadata never lowers a version.
pub open spec fn at_least_release(v: (u64, u64, u64, Seq<char>, Seq<char>), major: u64, minor: u64, patch: u64) -> bool {
    ||| v.0 > major
    ||| (v.0 == major && v.1 > minor)
    ||| (v.0 == major && v.1 == minor && v.2 > patch)
    ||| (v.0 == major && v.1 == minor && v.2 == patch && v.3.len() == 0)
}

/// A version as SemVer writes it: `major.minor.patch`, then `-pre` and
/// `+build` when present.
pub open spec fn version_text(v: (u64, u64, u64, Seq<char>, Seq<char>)) -> Seq<char> {
    crate::number::decimal(v.0 as nat) + "."@ + crate::number::decimal(v.1 as nat) + "."@
        + crate::number::decimal(v.2 as nat) + (if v.3.len() > 0 {
        "-"@ + v.3
    } else {
        Seq::empty()
    }) + (if v.4.len() > 0 {
        "+"@ + v.4
    } else {
        Seq::empty()
    })
}

impl PiVersion {
    /// The version's text, as `semver::Version` displays it.
    pub fn to_text(&self) -> (r: String)
        ensures
            r@ == version_text(self.key()),
    {
        let mut out = String::new();
        crate::number::push_decimal(&mut out, self.major);
        out.append(".");
        crate::number::push_decimal(&mut out, self.minor);
        out.append(".");
        crate::number::push_decimal(&mut out, self.patch);
        let ghost head = out@;
        if self.pre.unicode_len() > 0 {
            out.append("-");
            out.append(self.pre.as_str());
        }
        let ghost mid = out@;
        if self.build.unicode_len() > 0 {
            out.append("+");
            out.append(self.build.as_str());
        }
        proof {
            let pre_part = if self.pre@.len() > 0 {
                "-"@ + self.pre@
            } else {
                Seq::<char>::empty()
            };
            let build_part = if self.build@.len() > 0 {
                "+"@ + self.build@
            } else {
                Seq::<char>::empty()
            };
            assert(mid =~= head + pre_part);
            assert(out@ =~= head + pre_part + build_part);
        }
        out
    }

    /// Whether this version satisfies the minimum `0.84.3`.
    pub fn meets_minimum(&self) -> (b: bool)
        ensures
            b == at_least_release(self.key(), 0, 84, 3),
    {
        if self.major != 0 {
            return self.major > 0;
        }
        if self.minor != 84 {
            return self.minor > 84;
        }
        if self.patch != 3 {
            return self.patch > 3;
        }
        self.pre.as_str().unicode_len() == 0
    }
}

/// Outcome of probing a Pi host.
#[derive(Clone, Debug, PartialEq, Eq)]
pub enum PiHostCheck {
    /// The host's version meets the minimum.
    Supported { version: PiVersion, program: String },
    TooOld { version: PiVersion, program: String },
    Missing { program: String, detail: String },
    Unparseable { program: String, raw: String },
}

/// Classify a host from the result of its `--version` probe: the probe's
/// standard output, or a description of why it failed.
pub fn classify_pi_host(program: String, probe: Result<String, String>) -> (r: PiHostCheck)
    ensures
        match probe {
            Ok(raw) => match spec_parse_pi_version(raw@) {
                Some(key) => if at_least_release(key, 0, 84, 3) {
                    r matches PiHostCheck::Supported { version, program: p } && version.key() == key
                        && p@ == program@
                } else {
                    r matches PiHostCheck::TooOld { version, program: p } && version.key() == key
                        && p@ == program@
                },
                None => r matches PiHostCheck::Unparseable { program: p, raw: t } && p@
                    == program@ && t@ == trim_seq(raw@),
            },
            Err(detail) => r == PiHostCheck::Missing { program, detail },
        },
{
    match probe {
        Ok(raw) => match parse_pi_version(raw.as_str()) {
            Some(version) => {
                if version.meets_minimum() {
                    PiHostCheck::Supported { version, program }
                } else {
                    PiHostCheck::TooOld { version, program }
                }
            },
            None => PiHostCheck::Unparseable { program, raw: trim(raw.as_str()).to_owned() },
        },
        Err(detail) => PiHostCheck::Missing { program, detail },
    }
}

/// A path separator on either platform family: `/`, or `\\` (Windows only).
pub open spec fn is_any_sep(c: char) -> bool {
    c == '/' || c == '\\'
}

/// What follows the last `/` or `\\` of a path (the whole path when there is
/// neither).
pub open spec fn trailing_component(p: Seq<char>) -> Seq<char> {
    let seps = Seq::new(p.len(), |i: int| i).filter(|i: int| is_any_sep(p[i]));
    if seps.len() == 0 {
        p
    } else {
        p.subrange(seps.last() + 1, p.len() as int)
    }
}

/// The extension of a file name as `Path::extension` documents it: none
/// without a file name, without an embedded `.`, or when the only `.` is
/// the leading one; otherwise the part after the final `.`.
pub open spec fn extension_of(file_name: Option<Seq<char>>) -> Option<Seq<char>> {
    match file_name {
        None => None,
        Some(n) => {
            let dots = Seq::new(n.len(), |i: int| i).filter(|i: int| n[i] == '.');
            if dots.len() == 0 || (dots.len() == 1 && n[0] == '.') {
                None
            } else {
                Some(n.subrange(dots.last() + 1, n.len() as int))
            }
        },
    }
}

/// The extension that `Path::extension` yields for `p` on Unix and on
/// Windows alike, or `None` where the two path grammars may disagree.
/// They agree when the trailing component is a plain name (not empty, `.`
/// or `..`, and not a whole path that opens with a Windows drive prefix
/// such as `C:`), the path does not open with two separators (a Windows
/// UNC or device prefix), and either that name has a `.` after its first
/// character or the path holds no `\\` at all.
pub open spec fn portable_extension(p: Seq<char>) -> Option<Option<Seq<char>>> {
    let b = trailing_component(p);
    let plain = b.len() > 0 && b != "."@ && b != ".."@ && !(b == p && p.len() >= 2 && p[1] == ':')
        && !(p.len() >= 2 && is_any_sep(p[0]) && is_any_sep(p[1]));
    let dotted = exists|i: int| 0 < i < b.len() && b[i] == '.';
    if plain && (dotted || !p.contains('\\')) {
        Some(extension_of(Some(b)))
    } else {
        None
    }
}

/// `Path::new(path).extension()` as a string. How a path splits into
/// components is the platform's: `\\` and drive or UNC prefixes separate
/// components on Windows only. The contract therefore fixes the result on
/// the paths where Unix and Windows agree (`portable_extension`) and leaves
/// it unsaid on the others.
#[verifier::external_body]
pub(crate) fn path_extension(path: &str) -> (r: Option<String>)
    ensures
        portable_extension(path@) matches Some(e) ==> match e {
            Some(x) => r matches Some(s) && s@ == x,
            None => r is None,
        },
{
    std::path::Path::new(path).extension().and_then(|e| e.to_str()).map(|e| e.to_string())
}

/// A Node script extension: `js`, `mjs` or `cjs`.
pub open spec fn is_js_extension(e: Option<Seq<char>>) -> bool {
    match e {
        Some(e) => e == "js"@ || e == "mjs"@ || e == "cjs"@,
        None => false,
    }
}

/// A batch shim extension: `cmd` or `bat`, in any case.
pub open spec fn is_batch_extension(e: Option<Seq<char>>) -> bool {
    match e {
        Some(e) => eq_ignore_ascii_case_seq(e, "cmd"@) || eq_ignore_ascii_case_seq(e, "bat"@),
        None => false,
    }
}

/// Whether the host is a Node script (`.js`, `.mjs`, `.cjs`) that must be
/// started through `node`.
pub fn looks_like_js_cli(program: &str) -> (b: bool)
    ensures
        portable_extension(program@) matches Some(e) ==> b == is_js_extension(e),
{
    match path_extension(program) {
        Some(e) => crate::text::str_eq(e.as_str(), "js") || crate::text::str_eq(e.as_str(), "mjs")
            || crate::text::str_eq(e.as_str(), "cjs"),
        None => false,
    }
}

/// Whether the host is a Windows batch shim (`.cmd` or `.bat`, any case)
/// that `CreateProcess` cannot start directly.
pub fn is_windows_batch_shim(program: &str) -> (b: bool)
    ensures
        portable_extension(program@) matches Some(e) ==> b == is_batch_extension(e),
{
    match path_extension(program) {
        Some(e) => eq_ignore_ascii_case(e.as_str(), "cmd") || eq_ignore_ascii_case(
            e.as_str(),
            "bat",
        ),
        None => false,
    }
}

/// The Node executable name for the target platform.
pub fn node_program(windows: bool) -> (r: &'static str)
    ensures
        r@ == if windows {
            "node.exe"@
        } else {
            "node"@
        },
{
    if windows {
        "node.exe"
    } else {
        "node"
    }
}

/// The recommended install / upgrade command for the target platform.
pub fn install_command_for_host(windows: bool) -> (r: &'static str)
    ensures
        r@ == if windows {
            INSTALL_WINDOWS@
        } else {
            INSTALL_UNIX@
        },
{
    if windows {
        INSTALL_WINDOWS
    } else {
        INSTALL_UNIX
    }
}

/// Both platforms' one-liners, `(unix, windows)`.
pub fn both_install_commands() -> (r: (&'static str, &'static str))
    ensures
        r.0@ == INSTALL_UNIX@,
        r.1@ == INSTALL_WINDOWS@,
{
    (INSTALL_UNIX, INSTALL_WINDOWS)
}

/// Time budget for the `--version` probe, in seconds.
pub fn version_probe_budget() -> (secs: u64)
    ensures
        secs == 3,
{
    3
}

/// How to launch a host: a program and its arguments.
#[derive(Clone, Debug, PartialEq, Eq)]
pub struct HostCommand {
    pub program: String,
    pub args: Vec<String>,
}

/// The program and arguments that launch `program` with `args`: through
/// `node` for a Node script, through `cmd.exe /D /C` for a batch shim, and
/// directly otherwise.
pub open spec fn launch_line(
    program: Seq<char>,
    args: Seq<Seq<char>>,
    windows: bool,
    js: bool,
    shim: bool,
) -> (Seq<char>, Seq<Seq<char>>) {
    if js {
        (if windows {
            "node.exe"@
        } else {
            "node"@
        }, seq![program] + args)
    } else if shim {
        ("cmd.exe"@, seq!["/D"@, "/C"@, program] + args)
    } else {
        (program, args)
    }
}

/// The launch line for `program` with `args`: Node scripts run through
/// `node`, Windows batch shims through `cmd.exe /D /C`, anything else
/// directly.
pub fn host_command(program: &str, args: &[String], windows: bool) -> (c: HostCommand)
    ensures
        exists|js: bool, shim: bool|
            #[trigger] launch_line(program@, crate::seq_util::strs(args@), windows, js, shim) == (
            c.program@,
            crate::seq_util::strs(c.args@),
        ),
        portable_extension(program@) matches Some(e) ==> launch_line(
            program@,
            crate::seq_util::strs(args@),
            windows,
            is_js_extension(e),
            is_batch_extension(e),
        ) == (c.program@, crate::seq_util::strs(c.args@)),
{
    let mut out: Vec<String> = Vec::new();
    let js = looks_like_js_cli(program);
    let shim = is_windows_batch_shim(program);
    let launcher: String = if js {
        out.push(program.to_owned());
        node_program(windows).to_owned()
    } else if shim {
        out.push("/D".to_owned());
        out.push("/C".to_owned());
        out.push(program.to_owned());
        "cmd.exe".to_owned()
    } else {
        program.to_owned()
    };
    let ghost head = crate::seq_util::strs(out@);
    let mut i: usize = 0;
    while i < args.len()
        invariant
            i <= args@.len(),
            crate::seq_util::strs(out@) == head + crate::seq_util::strs(args@).take(i as int),
        decreases args.len() - i,
    {
        let ghost before = crate::seq_util::strs(out@);
        out.push(args[i].clone());
        assert(crate::seq_util::strs(out@) =~= before.push(args@[i as int]@));
        assert(crate::seq_util::strs(args@).take(i + 1) =~= crate::seq_util::strs(args@).take(
            i as int,
        ).push(args@[i as int]@));
        i = i + 1;
    }
    assert(crate::seq_util::strs(args@).take(i as int) =~= crate::seq_util::strs(args@));
    proof {
        if js {
            assert(head =~= seq![program@]);
        } else if shim {
            assert(head =~= seq!["/D"@, "/C"@, program@]);
        } else {
            assert(head =~= Seq::<Seq<char>>::empty());
        }
    }
    let c = HostCommand { program: launcher, args: out };
    assert(launch_line(program@, crate::seq_util::strs(args@), windows, js, shim) == (
        c.program@,
        crate::seq_util::strs(c.args@),
    ));
    c
}

/// How a configured host string is to be resolved.
#[derive(Clone, Debug, PartialEq, Eq)]
pub enum HostResolution {
    /// Launch this string as given.
    AsGiven(String),
    /// On Windows, search for a runnable shim for this trimmed name or path
    /// (a bare `pi` is not a PE binary).
    SearchWindows(String),
}

/// Resolve a user/default host string: an all-whitespace string, and any
/// string on non-Windows hosts, is used as given; on Windows the trimmed
/// string is searched for a runnable `.cmd`/`.exe`/`.bat`.
pub fn resolve_pi_host(program: &str, windows: bool) -> (r: HostResolution)
    ensures
        trim_seq(program@).len() == 0 || !windows ==> (r matches HostResolution::AsGiven(p)
            && p@ == program@),
        trim_seq(program@).len() > 0 && windows ==> (r matches HostResolution::SearchWindows(p)
            && p@ == trim_seq(program@)),
{
    let trimmed = trim(program);
    if trimmed.unicode_len() == 0 || !windows {
        HostResolution::AsGiven(program.to_owned())
    } else {
        HostResolution::SearchWindows(trimmed.to_owned())
    }
}

/// Whether a Windows host string names a path rather than a bare command:
/// it contains `\`, `/` or `:`.
pub fn program_looks_like_path(program: &str) -> (b: bool)
    ensures
        b == (program@.contains('\\') || program@.contains('/') || program@.contains(':')),
{
    crate::text::contains_char(program, '\\') || crate::text::contains_char(program, '/')
        || crate::text::contains_char(program, ':')
}

/// Whether a bare Windows command is the default `pi` host (any case), for
/// which the known install locations are searched.
pub fn is_default_pi_command(program: &str) -> (b: bool)
    ensures
        b == eq_ignore_ascii_case_seq(program@, "pi"@),
{
    eq_ignore_ascii_case(program, "pi")
}

/// The file names tried in each `PATH` directory for a bare Windows
/// command: with no `.` in it, its `.cmd`, `.exe` and `.bat` shims first
/// (an extensionless file is often a Unix script), then the name itself.
pub open spec fn path_search_names_v(name: Seq<char>) -> Seq<Seq<char>> {
    if name.contains('.') {
        seq![name]
    } else {
        seq![name + ".cmd"@, name + ".exe"@, name + ".bat"@, name]
    }
}

pub fn path_search_names(name: &str) -> (r: Vec<String>)
    ensures
        crate::seq_util::strs(r@) == path_search_names_v(name@),
{
    if crate::text::contains_char(name, '.') {
        let r = vec![name.to_owned()];
        assert(crate::seq_util::strs(r@) =~= path_search_names_v(name@));
        r
    } else {
        let r = vec![
            name.to_owned().concat(".cmd"),
            name.to_owned().concat(".exe"),
            name.to_owned().concat(".bat"),
            name.to_owned(),
        ];
        assert(crate::seq_util::strs(r@) =~= path_search_names_v(name@));
        r
    }
}

} // verus!

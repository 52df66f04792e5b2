//! Privacy-safe identity of an extension path for crash reports: a name and
//! a package directory, never the absolute path.
use vstd::prelude::*;
use crate::seq_util::strs;
use crate::text::{ends_with, has_suffix, str_eq};

verus! {

/// Path separators: `/`, and `\` (which is normalised to `/`).
pub open spec fn is_path_sep(c: char) -> bool {
    c == '/' || c == '\\'
}

/// Left-to-right splitting on separators, dropping empty parts; `cur` is the
/// part being read and `acc` the parts already complete.
pub open spec fn parts_acc(s: Seq<char>, cur: Seq<char>, acc: Seq<Seq<char>>) -> Seq<Seq<char>>
    decreases s.len(),
{
    if s.len() == 0 {
        if cur.len() > 0 {
            acc.push(cur)
        } else {
            acc
        }
    } else if is_path_sep(s[0]) {
        parts_acc(s.drop_first(), Seq::empty(), if cur.len() > 0 { acc.push(cur) } else { acc })
    } else {
        parts_acc(s.drop_first(), cur.push(s[0]), acc)
    }
}

/// The non-empty components of a path, either separator accepted.
pub open spec fn path_parts(s: Seq<char>) -> Seq<Seq<char>> {
    parts_acc(s, Seq::empty(), Seq::empty())
}

/// Index of the last part equal to `x`, or -1.
pub open spec fn last_index(parts: Seq<Seq<char>>, x: Seq<char>) -> int
    decreases parts.len(),
{
    if parts.len() == 0 {
        -1
    } else if parts.last() == x {
        parts.len() - 1
    } else {
        last_index(parts.drop_last(), x)
    }
}

/// `s` with every trailing repetition of `p` removed (`trim_end_matches`).
pub open spec fn strip_suffixes(s: Seq<char>, p: Seq<char>) -> Seq<char>
    decreases s.len(),
{
    if p.len() > 0 && has_suffix(s, p) {
        strip_suffixes(s.subrange(0, s.len() - p.len()), p)
    } else {
        s
    }
}

pub open spec fn starts_with_char(s: Seq<char>, c: char) -> bool {
    s.len() > 0 && s[0] == c
}

/// The `(name, package_dir)` identity of an extension path:
/// a package under `node_modules` (scoped `@scope/name` packages keep their
/// scope in the package dir), else a directory under `extensions` whose name
/// has no dot, else the file stem with its parent directory.
pub open spec fn ext_identity(input: Seq<char>) -> (Seq<char>, Seq<char>) {
    let parts = path_parts(input);
    let nm = last_index(parts, "node_modules"@);
    let ei = last_index(parts, "extensions"@);
    if nm >= 0 && nm + 1 < parts.len() {
        let a = parts[nm + 1];
        if starts_with_char(a, '@') && nm + 2 < parts.len() {
            (parts[nm + 2], a + "/"@ + parts[nm + 2])
        } else {
            (a, a)
        }
    } else if ei >= 0 && ei + 1 < parts.len() && !parts[ei + 1].contains('.') {
        (parts[ei + 1], parts[ei + 1])
    } else {
        let leaf = if parts.len() > 0 {
            parts.last()
        } else {
            "unknown"@
        };
        let name = strip_suffixes(strip_suffixes(strip_suffixes(leaf, ".ts"@), ".js"@), ".mjs"@);
        if parts.len() >= 2 && parts[parts.len() - 2] != "node_modules"@ && !starts_with_char(
            parts[parts.len() - 2],
            '.',
        ) {
            (name, parts[parts.len() - 2])
        } else {
            (name, name)
        }
    }
}

fn split_path_parts(input: &str) -> (parts: Vec<String>)
    ensures
        strs(parts@) == path_parts(input@),
{
    let ghost s = input@;
    let n = input.unicode_len();
    let mut parts: Vec<String> = Vec::new();
    let mut start: usize = 0;
    let mut i: usize = 0;
    assert(s.skip(0) =~= s);
    assert(s.subrange(0, 0) =~= Seq::<char>::empty());
    assert(strs(parts@) =~= Seq::<Seq<char>>::empty());
    while i < n
        invariant
            s == input@,
            n == s.len(),
            start <= i <= n,
            parts_acc(s.skip(i as int), s.subrange(start as int, i as int), strs(parts@))
                == path_parts(s),
        decreases n - i,
    {
        let c = input.get_char(i);
        let ghost rest = s.skip(i as int);
        let ghost cur = s.subrange(start as int, i as int);
        assert(rest[0] == c);
        assert(rest.drop_first() =~= s.skip(i + 1));
        if c == '/' || c == '\\' {
            if i > start {
                let ghost before = strs(parts@);
                parts.push(input.substring_char(start, i).to_owned());
                assert(strs(parts@) =~= before.push(cur));
            }
            i = i + 1;
            start = i;
            assert(s.subrange(start as int, i as int) =~= Seq::<char>::empty());
        } else {
            assert(s.subrange(start as int, i + 1) =~= cur.push(c));
            i = i + 1;
        }
    }
    if i > start {
        let ghost before = strs(parts@);
        parts.push(input.substring_char(start, i).to_owned());
        assert(strs(parts@) =~= before.push(s.subrange(start as int, i as int)));
    }
    parts
}

fn last_index_of(parts: &Vec<String>, x: &str) -> (r: Option<usize>)
    ensures
        r matches Some(k) ==> k == last_index(strs(parts@), x@) && k < parts@.len(),
        r is None ==> last_index(strs(parts@), x@) == -1,
{
    let mut k: usize = parts.len();
    assert(strs(parts@).take(k as int) =~= strs(parts@));
    while k > 0
        invariant
            k <= parts@.len(),
            last_index(strs(parts@), x@) == last_index(strs(parts@).take(k as int), x@),
        decreases k,
    {
        let ghost t = strs(parts@).take(k as int);
        if str_eq(parts[k - 1].as_str(), x) {
            return Some(k - 1);
        }
        assert(t.drop_last() =~= strs(parts@).take(k - 1));
        k = k - 1;
    }
    None
}

fn strip_suffix_repeated<'a>(s: &'a str, p: &str) -> (r: &'a str)
    requires
        p@.len() > 0,
    ensures
        r@ == strip_suffixes(s@, p@),
{
    let mut cur = s;
    while ends_with(cur, p)
        invariant
            p@.len() > 0,
            strip_suffixes(cur@, p@) == strip_suffixes(s@, p@),
        decreases cur@.len(),
    {
        let n = cur.unicode_len();
        let m = p.unicode_len();
        cur = cur.substring_char(0, n - m);
    }
    cur
}

fn starts_with_at(s: &str, c: char) -> (b: bool)
    ensures
        b == starts_with_char(s@, c),
{
    s.unicode_len() > 0 && s.get_char(0) == c
}

/// Privacy-safe identity from an extension path (no absolute path
/// returned): `(name, package_dir)`.
pub fn ext_identity_from_path(input: &str) -> (r: (String, String))
    ensures
        (r.0@, r.1@) == ext_identity(input@),
{
    let parts = split_path_parts(input);
    let ghost ps = strs(parts@);
    let nm = last_index_of(&parts, "node_modules");
    let ei = last_index_of(&parts, "extensions");
    if let Some(nm) = nm {
        if nm < parts.len() - 1 {
            let a = &parts[nm + 1];
            assert(ps[nm + 1] == a@);
            if starts_with_at(a.as_str(), '@') && nm < parts.len() - 2 {
                let name = parts[nm + 2].clone();
                assert(ps[nm + 2] == name@);
                let pkg = a.clone().concat("/").concat(name.as_str());
                return (name, pkg);
            }
            return (a.clone(), a.clone());
        }
    }
    if let Some(ei) = ei {
        if ei < parts.len() - 1 && !crate::text::contains_char(parts[ei + 1].as_str(), '.') {
            assert(ps[ei + 1] == parts@[ei + 1]@);
            let d = parts[ei + 1].clone();
            return (d.clone(), d);
        }
    }
    let len = parts.len();
    let leaf: &str = if len > 0 {
        assert(ps.last() == parts@[len - 1]@);
        parts[len - 1].as_str()
    } else {
        "unknown"
    };
    proof {
        reveal_strlit(".ts");
        reveal_strlit(".js");
        reveal_strlit(".mjs");
    }
    let name = strip_suffix_repeated(
        strip_suffix_repeated(strip_suffix_repeated(leaf, ".ts"), ".js"),
        ".mjs",
    ).to_owned();
    if len >= 2 {
        let parent = parts[len - 2].as_str();
        assert(ps[len - 2] == parent@);
        if !str_eq(parent, "node_modules") && !starts_with_at(parent, '.') {
            return (name, parent.to_owned());
        }
    }
    (name.clone(), name)
}

} // verus!

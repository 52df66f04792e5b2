//! Rewriting of the `--extension <path>` pairs in Pi's argument list, used
//! by extension self-healing.
use vstd::prelude::*;
use crate::seq_util::{strs, vec_contains_str};
use crate::text::str_eq;

verus! {

/// The flag that introduces one extension path.
pub open spec fn ext_flag() -> Seq<char> {
    "--extension"@
}

/// The extension paths of `--extension <path>` pairs, scanning left to
/// right; a trailing `--extension` without a value is ignored.
pub open spec fn ext_paths(a: Seq<Seq<char>>) -> Seq<Seq<char>>
    decreases a.len(),
{
    if a.len() == 0 {
        Seq::empty()
    } else if a[0] == ext_flag() && a.len() >= 2 {
        seq![a[1]] + ext_paths(a.skip(2))
    } else {
        ext_paths(a.skip(1))
    }
}

/// `a` without its `--extension <path>` pairs.
pub open spec fn strip_ext_pairs(a: Seq<Seq<char>>) -> Seq<Seq<char>>
    decreases a.len(),
{
    if a.len() == 0 {
        Seq::empty()
    } else if a[0] == ext_flag() && a.len() >= 2 {
        strip_ext_pairs(a.skip(2))
    } else {
        seq![a[0]] + strip_ext_pairs(a.skip(1))
    }
}

/// `a` without the `--extension <path>` pairs whose path is `p`.
pub open spec fn remove_ext_pair(a: Seq<Seq<char>>, p: Seq<char>) -> Seq<Seq<char>>
    decreases a.len(),
{
    if a.len() == 0 {
        Seq::empty()
    } else if a[0] == ext_flag() && a.len() >= 2 && a[1] == p {
        remove_ext_pair(a.skip(2), p)
    } else {
        seq![a[0]] + remove_ext_pair(a.skip(1), p)
    }
}

proof fn lemma_skip_skip(a: Seq<Seq<char>>, i: int, k: int)
    requires
        0 <= i,
        0 <= k,
        i + k <= a.len(),
    ensures
        a.skip(i).skip(k) == a.skip(i + k),
{
    assert(a.skip(i).skip(k) =~= a.skip(i + k));
}

/// All `--extension <path>` values of `pi_args`, in order.
pub fn extract_extension_paths(pi_args: &[String]) -> (paths: Vec<String>)
    ensures
        strs(paths@) == ext_paths(strs(pi_args@)),
{
    let ghost a = strs(pi_args@);
    let mut paths: Vec<String> = Vec::new();
    let mut i: usize = 0;
    assert(a.skip(0) =~= a);
    assert(strs(paths@) =~= Seq::<Seq<char>>::empty());
    while i < pi_args.len()
        invariant
            a == strs(pi_args@),
            i <= pi_args@.len(),
            strs(paths@) + ext_paths(a.skip(i as int)) == ext_paths(a),
        decreases pi_args.len() - i,
    {
        let ghost rest = a.skip(i as int);
        if str_eq(pi_args[i].as_str(), "--extension") && i + 1 < pi_args.len() {
            let ghost before = strs(paths@);
            paths.push(pi_args[i + 1].clone());
            proof {
                assert(rest[1] == a[i + 1]);
                lemma_skip_skip(a, i as int, 2);
                assert(strs(paths@) =~= before + seq![a[i + 1]]);
                assert(ext_paths(rest) == seq![a[i + 1]] + ext_paths(a.skip(i + 2)));
                assert(before + ext_paths(rest) =~= strs(paths@) + ext_paths(a.skip(i + 2)));
            }
            i = i + 2;
        } else {
            proof {
                lemma_skip_skip(a, i as int, 1);
            }
            i = i + 1;
        }
    }
    assert(a.skip(i as int) =~= Seq::<Seq<char>>::empty());
    assert(strs(paths@) =~= strs(paths@) + Seq::<Seq<char>>::empty());
    paths
}

/// The argument list with every `--extension <path>` pair removed.
fn strip_extension_pairs(pi_args: &[String]) -> (result: Vec<String>)
    ensures
        strs(result@) == strip_ext_pairs(strs(pi_args@)),
{
    let ghost a = strs(pi_args@);
    let mut result: Vec<String> = Vec::new();
    let mut i: usize = 0;
    assert(a.skip(0) =~= a);
    assert(strs(result@) =~= Seq::<Seq<char>>::empty());
    while i < pi_args.len()
        invariant
            a == strs(pi_args@),
            i <= pi_args@.len(),
            strs(result@) + strip_ext_pairs(a.skip(i as int)) == strip_ext_pairs(a),
        decreases pi_args.len() - i,
    {
        let ghost rest = a.skip(i as int);
        if str_eq(pi_args[i].as_str(), "--extension") && i + 1 < pi_args.len() {
            proof {
                lemma_skip_skip(a, i as int, 2);
            }
            i = i + 2;
        } else {
            let ghost before = strs(result@);
            result.push(pi_args[i].clone());
            proof {
                lemma_skip_skip(a, i as int, 1);
                assert(strs(result@) =~= before + seq![a[i as int]]);
                assert(before + strip_ext_pairs(rest) =~= strs(result@) + strip_ext_pairs(
                    a.skip(i + 1),
                ));
            }
            i = i + 1;
        }
    }
    assert(a.skip(i as int) =~= Seq::<Seq<char>>::empty());
    assert(strs(result@) =~= strs(result@) + Seq::<Seq<char>>::empty());
    result
}

/// The argument list with explicit extensions removed and Pi's extension
/// auto-discovery disabled: every `--extension <path>` pair is dropped and
/// `--no-extensions` is appended unless already present.
pub fn disable_all_extensions(pi_args: &[String]) -> (result: Vec<String>)
    ensures
        strs(result@) == disabled_v(strs(pi_args@)),
{
    let mut result = strip_extension_pairs(pi_args);
    let ghost stripped = strs(result@);
    let present = vec_contains_str(result.as_slice(), "--no-extensions");
    proof {
        if present {
            let j = choose|j: int| 0 <= j < result@.len() && #[trigger] result@[j]@
                == "--no-extensions"@;
            assert(stripped[j] == "--no-extensions"@);
        } else {
            if stripped.contains("--no-extensions"@) {
                let j = choose|j: int| 0 <= j < stripped.len() && stripped[j] == "--no-extensions"@;
                assert(result@[j]@ == stripped[j]);
            }
        }
    }
    if !present {
        result.push("--no-extensions".to_owned());
        assert(strs(result@) =~= stripped.push("--no-extensions"@));
    }
    result
}

/// The argument list without the `--extension <path>` pairs for `path`.
pub fn remove_extension_path(pi_args: &[String], path: &str) -> (result: Vec<String>)
    ensures
        strs(result@) == remove_ext_pair(strs(pi_args@), path@),
        flags_well_paired(strs(pi_args@)) ==> strip_ext_pairs(strs(result@)) == strip_ext_pairs(
            strs(pi_args@),
        ),
        flags_well_paired(strs(pi_args@)) ==> ext_paths(strs(result@)) == without_path(
            ext_paths(strs(pi_args@)),
            path@,
        ),
{
    let ghost a = strs(pi_args@);
    proof {
        if flags_well_paired(a) {
            lemma_remove_extension_path_keeps_other_args(a, path@);
            lemma_remove_extension_path_drops_only_it(a, path@);
        }
    }
    let mut result: Vec<String> = Vec::new();
    let mut i: usize = 0;
    assert(a.skip(0) =~= a);
    assert(strs(result@) =~= Seq::<Seq<char>>::empty());
    while i < pi_args.len()
        invariant
            a == strs(pi_args@),
            i <= pi_args@.len(),
            strs(result@) + remove_ext_pair(a.skip(i as int), path@) == remove_ext_pair(a, path@),
        decreases pi_args.len() - i,
    {
        let ghost rest = a.skip(i as int);
        if str_eq(pi_args[i].as_str(), "--extension") && i + 1 < pi_args.len() && str_eq(
            pi_args[i + 1].as_str(),
            path,
        ) {
            proof {
                assert(rest[1] == a[i + 1]);
                lemma_skip_skip(a, i as int, 2);
            }
            i = i + 2;
        } else {
            let ghost before = strs(result@);
            result.push(pi_args[i].clone());
            proof {
                if i + 1 < pi_args.len() {
                    assert(rest[1] == a[i + 1]);
                }
                lemma_skip_skip(a, i as int, 1);
                assert(strs(result@) =~= before + seq![a[i as int]]);
                assert(before + remove_ext_pair(rest, path@) =~= strs(result@) + remove_ext_pair(
                    a.skip(i + 1),
                    path@,
                ));
            }
            i = i + 1;
        }
    }
    assert(a.skip(i as int) =~= Seq::<Seq<char>>::empty());
    assert(strs(result@) =~= strs(result@) + Seq::<Seq<char>>::empty());
    result
}

/// The probe arguments for a subset of extensions: the base arguments
/// followed by one `--extension <path>` pair per path, in order.
pub open spec fn probe_args_spec(base: Seq<Seq<char>>, subset: Seq<Seq<char>>) -> Seq<Seq<char>>
    decreases subset.len(),
{
    if subset.len() == 0 {
        base
    } else {
        probe_args_spec(base, subset.drop_last()).push(ext_flag()).push(subset.last())
    }
}

/// The Pi arguments that load exactly `subset` on top of `base_args`.
pub fn probe_args(base_args: &[String], subset: &[String]) -> (r: Vec<String>)
    ensures
        strs(r@) == probe_args_spec(strs(base_args@), strs(subset@)),
{
    let mut r: Vec<String> = Vec::new();
    let mut i: usize = 0;
    while i < base_args.len()
        invariant
            i <= base_args@.len(),
            strs(r@) == strs(base_args@).take(i as int),
        decreases base_args.len() - i,
    {
        let ghost before = strs(r@);
        r.push(base_args[i].clone());
        assert(strs(r@) =~= before.push(base_args@[i as int]@));
        assert(strs(r@) =~= strs(base_args@).take(i + 1));
        i = i + 1;
    }
    assert(strs(base_args@).take(i as int) =~= strs(base_args@));
    let mut j: usize = 0;
    assert(strs(subset@).take(0) =~= Seq::<Seq<char>>::empty());
    while j < subset.len()
        invariant
            j <= subset@.len(),
            strs(r@) == probe_args_spec(strs(base_args@), strs(subset@).take(j as int)),
        decreases subset.len() - j,
    {
        let ghost before = strs(r@);
        r.push("--extension".to_owned());
        r.push(subset[j].clone());
        proof {
            let t = strs(subset@).take(j + 1);
            assert(t.drop_last() =~= strs(subset@).take(j as int));
            assert(t.last() == subset@[j as int]@);
            assert(strs(r@) =~= before.push(ext_flag()).push(subset@[j as int]@));
        }
        j = j + 1;
    }
    assert(strs(subset@).take(j as int) =~= strs(subset@));
    r
}

/// The arguments `disable_all_extensions` returns for `a`.
pub open spec fn disabled_v(a: Seq<Seq<char>>) -> Seq<Seq<char>> {
    let stripped = strip_ext_pairs(a);
    if stripped.contains("--no-extensions"@) {
        stripped
    } else {
        stripped.push("--no-extensions"@)
    }
}

/// No argument is the `--extension` flag.
pub open spec fn flag_free(a: Seq<Seq<char>>) -> bool {
    forall|i: int| 0 <= i < a.len() ==> #[trigger] a[i] != ext_flag()
}

/// The flag is never last.
pub open spec fn no_trailing_flag(a: Seq<Seq<char>>) -> bool {
    a.len() == 0 || a.last() != ext_flag()
}

proof fn lemma_strip_flag_free(a: Seq<Seq<char>>)
    requires
        no_trailing_flag(a),
    ensures
        flag_free(strip_ext_pairs(a)),
    decreases a.len(),
{
    if a.len() > 0 {
        if a[0] == ext_flag() && a.len() >= 2 {
            let r = a.skip(2);
            if r.len() > 0 {
                assert(r.last() == a.last());
            }
            lemma_strip_flag_free(r);
        } else {
            let r = a.skip(1);
            if r.len() > 0 {
                assert(r.last() == a.last());
            }
            lemma_strip_flag_free(r);
            if a.len() == 1 {
                assert(a[0] == a.last());
            }
            let t = strip_ext_pairs(r);
            assert forall|i: int| 0 <= i < (seq![a[0]] + t).len() implies #[trigger] (seq![a[0]]
                + t)[i] != ext_flag() by {
                if i > 0 {
                    assert((seq![a[0]] + t)[i] == t[i - 1]);
                }
            }
        }
    }
}

proof fn lemma_flag_free_fixed(a: Seq<Seq<char>>)
    requires
        flag_free(a),
    ensures
        strip_ext_pairs(a) == a,
        ext_paths(a) == Seq::<Seq<char>>::empty(),
    decreases a.len(),
{
    if a.len() > 0 {
        let r = a.skip(1);
        assert(a[0] != ext_flag());
        assert forall|i: int| 0 <= i < r.len() implies #[trigger] r[i] != ext_flag() by {
            assert(r[i] == a[i + 1]);
        }
        lemma_flag_free_fixed(r);
        assert(seq![a[0]] + r =~= a);
    }
}

/// Disabling extensions is final: for arguments that do not end in a bare
/// `--extension`, the result names no extension path, and disabling again
/// changes nothing.
pub proof fn lemma_disable_all_is_final(a: Seq<Seq<char>>)
    requires
        no_trailing_flag(a),
    ensures
        ext_paths(disabled_v(a)) == Seq::<Seq<char>>::empty(),
        disabled_v(disabled_v(a)) == disabled_v(a),
{
    lemma_strip_flag_free(a);
    let s = strip_ext_pairs(a);
    let d = disabled_v(a);
    if !s.contains("--no-extensions"@) {
        assert("--no-extensions"@ != ext_flag()) by {
            reveal_strlit("--no-extensions");
            reveal_strlit("--extension");
            assert("--no-extensions"@.len() != "--extension"@.len());
        }
        assert forall|i: int| 0 <= i < d.len() implies #[trigger] d[i] != ext_flag() by {
            if i < s.len() {
                assert(d[i] == s[i]);
            }
        }
        assert(d[s.len() as int] == "--no-extensions"@);
    }
    lemma_flag_free_fixed(d);
    assert(d.contains("--no-extensions"@)) by {
        if s.contains("--no-extensions"@) {
        } else {
            assert(d[s.len() as int] == "--no-extensions"@);
        }
    }
}

/// `s` without the occurrences of `p`.
pub open spec fn without_path(s: Seq<Seq<char>>, p: Seq<char>) -> Seq<Seq<char>>
    decreases s.len(),
{
    if s.len() == 0 {
        Seq::empty()
    } else if s[0] == p {
        without_path(s.skip(1), p)
    } else {
        seq![s[0]] + without_path(s.skip(1), p)
    }
}

/// Every `--extension` flag is followed by a value that is not the flag.
pub open spec fn flags_well_paired(a: Seq<Seq<char>>) -> bool {
    forall|i: int| 0 <= i < a.len() && #[trigger] a[i] == ext_flag() ==> i + 1 < a.len() && a[i + 1] != ext_flag()
}

proof fn lemma_ext_paths_cons(x: Seq<char>, t: Seq<Seq<char>>)
    requires
        x != ext_flag(),
    ensures
        ext_paths(seq![x] + t) == ext_paths(t),
{
    assert((seq![x] + t).skip(1) =~= t);
}

/// Removing one extension path removes exactly that path from the
/// extension list, when every `--extension` flag has a value that is not
/// itself the flag.
pub proof fn lemma_remove_extension_path_drops_only_it(a: Seq<Seq<char>>, p: Seq<char>)
    requires
        flags_well_paired(a),
    ensures
        ext_paths(remove_ext_pair(a, p)) == without_path(ext_paths(a), p),
    decreases a.len(),
{
    if a.len() == 0 {
    } else if a[0] == ext_flag() {
        assert(a.len() >= 2 && a[1] != ext_flag());
        let r2 = a.skip(2);
        assert forall|i: int| 0 <= i < r2.len() && #[trigger] r2[i] == ext_flag() implies i + 1
            < r2.len() && r2[i + 1] != ext_flag() by {
            assert(r2[i] == a[i + 2]);
            assert(a[i + 2] == ext_flag());
            assert(r2[i + 1] == a[i + 3]);
        }
        lemma_remove_extension_path_drops_only_it(r2, p);
        let e = ext_paths(a);
        assert(e == seq![a[1]] + ext_paths(r2));
        assert((seq![a[1]] + ext_paths(r2)).skip(1) =~= ext_paths(r2));
        if a[1] == p {
        } else {
            let r1 = a.skip(1);
            assert(r1[0] == a[1]);
            assert(r1.skip(1) =~= r2);
            assert(remove_ext_pair(r1, p) == seq![a[1]] + remove_ext_pair(r2, p));
            let rest = remove_ext_pair(r2, p);
            let whole = seq![a[0]] + (seq![a[1]] + rest);
            assert(remove_ext_pair(a, p) == whole);
            assert(whole[0] == ext_flag() && whole[1] == a[1]);
            assert(whole.skip(2) =~= rest);
        }
    } else {
        let r1 = a.skip(1);
        assert forall|i: int| 0 <= i < r1.len() && #[trigger] r1[i] == ext_flag() implies i + 1
            < r1.len() && r1[i + 1] != ext_flag() by {
            assert(r1[i] == a[i + 1]);
            assert(a[i + 1] == ext_flag());
            assert(r1[i + 1] == a[i + 2]);
        }
        lemma_remove_extension_path_drops_only_it(r1, p);
        lemma_ext_paths_cons(a[0], remove_ext_pair(r1, p));
        lemma_ext_paths_cons(a[0], r1);
        assert(seq![a[0]] + r1 =~= a);
    }
}

/// Removing one extension path keeps every other argument: the arguments
/// outside `--extension <path>` pairs are the same before and after, when
/// every `--extension` flag has a value that is not itself the flag.
pub proof fn lemma_remove_extension_path_keeps_other_args(a: Seq<Seq<char>>, p: Seq<char>)
    requires
        flags_well_paired(a),
    ensures
        strip_ext_pairs(remove_ext_pair(a, p)) == strip_ext_pairs(a),
    decreases a.len(),
{
    if a.len() == 0 {
    } else if a[0] == ext_flag() {
        assert(a.len() >= 2 && a[1] != ext_flag());
        let r2 = a.skip(2);
        assert forall|i: int| 0 <= i < r2.len() && #[trigger] r2[i] == ext_flag() implies i + 1
            < r2.len() && r2[i + 1] != ext_flag() by {
            assert(r2[i] == a[i + 2]);
            assert(a[i + 2] == ext_flag());
            assert(r2[i + 1] == a[i + 3]);
        }
        lemma_remove_extension_path_keeps_other_args(r2, p);
        if a[1] != p {
            let r1 = a.skip(1);
            assert(r1[0] == a[1]);
            assert(r1.skip(1) =~= r2);
            assert(remove_ext_pair(r1, p) == seq![a[1]] + remove_ext_pair(r2, p));
            let rest = remove_ext_pair(r2, p);
            let whole = seq![a[0]] + (seq![a[1]] + rest);
            assert(remove_ext_pair(a, p) == whole);
            assert(whole[0] == ext_flag() && whole.len() >= 2);
            assert(whole.skip(2) =~= rest);
        }
    } else {
        let r1 = a.skip(1);
        assert forall|i: int| 0 <= i < r1.len() && #[trigger] r1[i] == ext_flag() implies i + 1
            < r1.len() && r1[i + 1] != ext_flag() by {
            assert(r1[i] == a[i + 1]);
            assert(a[i + 1] == ext_flag());
            assert(r1[i + 1] == a[i + 2]);
        }
        lemma_remove_extension_path_keeps_other_args(r1, p);
        let rest = remove_ext_pair(r1, p);
        let whole = seq![a[0]] + rest;
        assert(remove_ext_pair(a, p) == whole);
        assert(whole[0] == a[0]);
        assert(whole.skip(1) =~= rest);
    }
}

proof fn lemma_well_paired_skip(a: Seq<Seq<char>>, k: int)
    requires
        flags_well_paired(a),
        0 <= k <= a.len(),
    ensures
        flags_well_paired(a.skip(k)),
{
    let r = a.skip(k);
    assert forall|i: int| 0 <= i < r.len() && #[trigger] r[i] == ext_flag() implies i + 1 < r.len()
        && r[i + 1] != ext_flag() by {
        assert(r[i] == a[i + k]);
        assert(r[i + 1] == a[i + k + 1]);
    }
}

/// Removing a path that no `--extension` pair names leaves the arguments as
/// they are, when every `--extension` flag has a value that is not itself
/// the flag.
pub proof fn lemma_remove_absent_extension_path(a: Seq<Seq<char>>, p: Seq<char>)
    requires
        flags_well_paired(a),
        !ext_paths(a).contains(p),
    ensures
        remove_ext_pair(a, p) == a,
    decreases a.len(),
{
    if a.len() > 0 {
        if a[0] == ext_flag() {
            assert(a.len() >= 2 && a[1] != ext_flag());
            let r2 = a.skip(2);
            lemma_well_paired_skip(a, 2);
            assert(ext_paths(a) == seq![a[1]] + ext_paths(r2));
            assert(ext_paths(a)[0] == a[1]);
            assert forall|j: int| 0 <= j < ext_paths(r2).len() implies ext_paths(r2)[j] != p by {
                assert(ext_paths(a)[j + 1] == ext_paths(r2)[j]);
            }
            lemma_remove_absent_extension_path(r2, p);
            let r1 = a.skip(1);
            assert(r1[0] == a[1]);
            assert(r1.skip(1) =~= r2);
            assert(remove_ext_pair(r1, p) == seq![a[1]] + remove_ext_pair(r2, p));
            assert(seq![a[0]] + (seq![a[1]] + r2) =~= a);
        } else {
            let r1 = a.skip(1);
            lemma_well_paired_skip(a, 1);
            lemma_remove_absent_extension_path(r1, p);
            assert(seq![a[0]] + r1 =~= a);
        }
    }
}

/// Removing a path from two argument lists in a row is removing it from
/// each, when the first has every `--extension` flag followed by a value
/// that is not itself the flag (so no pair spans the two). Together with
/// `remove_ext_pair(["--extension", p], p) == []` and the lemma above, this
/// says exactly which arguments go.
pub proof fn lemma_remove_extension_path_splits(a: Seq<Seq<char>>, b: Seq<Seq<char>>, p: Seq<char>)
    requires
        flags_well_paired(a),
    ensures
        remove_ext_pair(a + b, p) == remove_ext_pair(a, p) + remove_ext_pair(b, p),
        remove_ext_pair(seq![ext_flag(), p], p) == Seq::<Seq<char>>::empty(),
    decreases a.len(),
{
    let one = seq![ext_flag(), p];
    assert(one.skip(2) =~= Seq::<Seq<char>>::empty());
    assert(one[0] == ext_flag() && one[1] == p && one.len() == 2);
    assert(remove_ext_pair(one.skip(2), p) == Seq::<Seq<char>>::empty());
    let ab = a + b;
    if a.len() == 0 {
        assert(ab =~= b);
    } else if a[0] == ext_flag() {
        assert(a.len() >= 2 && a[1] != ext_flag());
        let r2 = a.skip(2);
        lemma_well_paired_skip(a, 2);
        lemma_remove_extension_path_splits(r2, b, p);
        assert(ab[0] == a[0] && ab[1] == a[1]);
        assert(ab.skip(2) =~= r2 + b);
        if a[1] != p {
            let r1 = a.skip(1);
            let ab1 = ab.skip(1);
            assert(r1[0] == a[1] && ab1[0] == a[1]);
            assert(r1.skip(1) =~= r2);
            assert(ab1.skip(1) =~= r2 + b);
            assert(remove_ext_pair(r1, p) == seq![a[1]] + remove_ext_pair(r2, p));
            assert(remove_ext_pair(ab1, p) == seq![a[1]] + remove_ext_pair(r2 + b, p));
            assert(remove_ext_pair(ab, p) == seq![a[0]] + (seq![a[1]] + remove_ext_pair(r2 + b, p)));
            assert(remove_ext_pair(a, p) == seq![a[0]] + (seq![a[1]] + remove_ext_pair(r2, p)));
            assert(seq![a[0]] + (seq![a[1]] + (remove_ext_pair(r2, p) + remove_ext_pair(b, p)))
                =~= (seq![a[0]] + (seq![a[1]] + remove_ext_pair(r2, p))) + remove_ext_pair(b, p));
        }
    } else {
        let r1 = a.skip(1);
        lemma_well_paired_skip(a, 1);
        lemma_remove_extension_path_splits(r1, b, p);
        assert(ab[0] == a[0]);
        assert(ab.skip(1) =~= r1 + b);
        assert(seq![a[0]] + (remove_ext_pair(r1, p) + remove_ext_pair(b, p)) =~= (seq![a[0]]
            + remove_ext_pair(r1, p)) + remove_ext_pair(b, p));
    }
}

} // verus!

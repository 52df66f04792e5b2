//! Views of string collections and joining.
use vstd::prelude::*;

verus! {

/// The character sequences of a list of strings.
pub open spec fn strs(v: Seq<String>) -> Seq<Seq<char>> {
    v.map_values(|s: String| s@)
}

/// `parts` joined with `sep` between neighbours (`[..].join(sep)`).
pub open spec fn join_seq(parts: Seq<Seq<char>>, sep: Seq<char>) -> Seq<char>
    decreases parts.len(),
{
    if parts.len() == 0 {
        Seq::empty()
    } else if parts.len() == 1 {
        parts[0]
    } else {
        join_seq(parts.drop_last(), sep) + sep + parts.last()
    }
}

/// Join a list of strings with a separator.
pub fn join_strings(parts: &Vec<String>, sep: &str) -> (r: String)
    ensures
        r@ == join_seq(strs(parts@), sep@),
{
    let mut out = String::new();
    let ghost views = strs(parts@);
    let mut i: usize = 0;
    while i < parts.len()
        invariant
            i <= parts.len(),
            views == strs(parts@),
            out@ == join_seq(views.take(i as int), sep@),
        decreases parts.len() - i,
    {
        if i != 0 {
            out.append(sep);
        }
        out.append(parts[i].as_str());
        proof {
            let next = views.take(i + 1);
            assert(next.drop_last() =~= views.take(i as int));
            assert(next.last() == parts@[i as int]@);
            if i == 0 {
                assert(out@ =~= next[0]);
            }
        }
        i = i + 1;
    }
    assert(views.take(parts.len() as int) =~= views);
    out
}

/// Whether some string in `v` equals `s`.
pub open spec fn contains_str(v: Seq<String>, s: Seq<char>) -> bool {
    exists|i: int| 0 <= i < v.len() && #[trigger] v[i]@ == s
}

/// Whether `v` contains a string equal to `s`.
pub fn vec_contains_str(v: &[String], s: &str) -> (r: bool)
    ensures
        r == contains_str(v@, s@),
{
    let mut i: usize = 0;
    while i < v.len()
        invariant
            i <= v@.len(),
            forall|j: int| 0 <= j < i ==> #[trigger] v@[j]@ != s@,
        decreases v.len() - i,
    {
        if crate::text::str_eq(v[i].as_str(), s) {
            assert(v@[i as int]@ == s@);
            return true;
        }
        i = i + 1;
    }
    false
}

/// Index of the first element satisfying `p`, or -1.
pub open spec fn first_where<A>(s: Seq<A>, p: spec_fn(A) -> bool) -> int
    decreases s.len(),
{
    if s.len() == 0 {
        -1
    } else if p(s[0]) {
        0
    } else {
        let r = first_where(s.drop_first(), p);
        if r < 0 {
            -1
        } else {
            r + 1
        }
    }
}

/// The elements of `s` satisfying `p`, in order.
pub open spec fn keep_where<A>(s: Seq<A>, p: spec_fn(A) -> bool) -> Seq<A>
    decreases s.len(),
{
    if s.len() == 0 {
        Seq::empty()
    } else {
        let r = keep_where(s.drop_last(), p);
        if p(s.last()) {
            r.push(s.last())
        } else {
            r
        }
    }
}

/// `first_where` at the first index satisfying `p`.
pub proof fn lemma_first_where_at<A>(s: Seq<A>, p: spec_fn(A) -> bool, i: int)
    requires
        0 <= i < s.len(),
        p(s[i]),
        forall|j: int| 0 <= j < i ==> !p(#[trigger] s[j]),
    ensures
        first_where(s, p) == i,
    decreases i,
{
    if i > 0 {
        let rest = s.drop_first();
        assert forall|j: int| 0 <= j < i - 1 implies !p(#[trigger] rest[j]) by {
            assert(rest[j] == s[j + 1]);
        }
        assert(rest[i - 1] == s[i]);
        lemma_first_where_at(rest, p, i - 1);
    }
}

/// `first_where` is -1 when nothing satisfies `p`.
pub proof fn lemma_first_where_none<A>(s: Seq<A>, p: spec_fn(A) -> bool)
    requires
        forall|j: int| 0 <= j < s.len() ==> !p(#[trigger] s[j]),
    ensures
        first_where(s, p) == -1,
    decreases s.len(),
{
    if s.len() > 0 {
        let rest = s.drop_first();
        assert forall|j: int| 0 <= j < rest.len() implies !p(#[trigger] rest[j]) by {
            assert(rest[j] == s[j + 1]);
        }
        lemma_first_where_none(rest, p);
    }
}

/// What `first_where` tells: the index is in range and satisfies `p`, and
/// no element before it (or none at all) does.
pub proof fn lemma_first_where_props<A>(s: Seq<A>, p: spec_fn(A) -> bool)
    ensures
        -1 <= first_where(s, p) < s.len(),
        first_where(s, p) >= 0 ==> p(s[first_where(s, p)]),
        forall|j: int|
            0 <= j < s.len() && (first_where(s, p) < 0 || j < first_where(s, p)) ==> !p(
                #[trigger] s[j],
            ),
    decreases s.len(),
{
    if s.len() > 0 {
        let rest = s.drop_first();
        lemma_first_where_props(rest, p);
        assert forall|j: int|
            0 <= j < s.len() && (first_where(s, p) < 0 || j < first_where(s, p)) implies !p(
                #[trigger] s[j],
            ) by {
            if j > 0 {
                assert(s[j] == rest[j - 1]);
            }
        }
        if first_where(s, p) > 0 {
            assert(s[first_where(s, p)] == rest[first_where(s, p) - 1]);
        }
    }
}

/// Keeping from a sequence one element longer.
pub proof fn lemma_keep_where_push<A>(s: Seq<A>, p: spec_fn(A) -> bool, x: A)
    ensures
        keep_where(s.push(x), p) == if p(x) {
            keep_where(s, p).push(x)
        } else {
            keep_where(s, p)
        },
{
    assert(s.push(x).drop_last() =~= s);
}

/// Everything kept satisfies `p`, and nothing is added.
pub proof fn lemma_keep_where_all<A>(s: Seq<A>, p: spec_fn(A) -> bool)
    ensures
        keep_where(s, p).len() <= s.len(),
        forall|i: int| 0 <= i < keep_where(s, p).len() ==> p(#[trigger] keep_where(s, p)[i]),
    decreases s.len(),
{
    if s.len() > 0 {
        lemma_keep_where_all(s.drop_last(), p);
    }
}

} // verus!

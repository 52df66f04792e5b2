//! In-process catalog of discoverable Pi themes.
//!
//! A registry maps theme names to their metadata and palette. Embedded
//! builtins are registered first (lazily, once); file-backed themes found by
//! discovery follow, and the first registration of a name wins. Reading
//! directories and parsing theme JSON is the caller's work: discovery is
//! handed the parse outcome of each candidate file, in discovery order.
//!
//! The palette type is a parameter: the registry only stores and returns it.
use vstd::prelude::*;
use crate::lex::{lemma_lt_asymmetric, lemma_lt_total, lemma_lt_transitive, seq_lt, str_lt};
use crate::text::{has_prefix, starts_with, str_eq, trim, trim_seq, eq_ignore_ascii_case, eq_ignore_ascii_case_seq};
use crate::pi_host::{portable_extension, path_extension};
use crate::seq_util::strs;

verus! {

/// Canonical id prefix for Pi themes in Grok config / slash UI.
pub const PI_THEME_PREFIX: &'static str = "pi:";

/// Metadata for a registered Pi theme.
#[derive(Clone, Debug, PartialEq, Eq)]
pub struct PiThemeMeta {
    /// Theme `name` field from JSON.
    pub name: String,
    /// Canonical id: `pi:<name>`.
    pub id: String,
    /// Source path if loaded from disk; `None` for embedded builtins.
    pub path: Option<String>,
    pub builtin: bool,
}

impl PiThemeMeta {
    /// A copy of this metadata.
    pub fn duplicate(&self) -> (r: PiThemeMeta)
        ensures
            r == *self,
    {
        PiThemeMeta {
            name: self.name.clone(),
            id: self.id.clone(),
            path: match &self.path {
                Some(p) => Some(p.clone()),
                None => None,
            },
            builtin: self.builtin,
        }
    }
}

/// Result of a discovery pass.
#[derive(Clone, Debug)]
pub struct DiscoveryReport {
    pub loaded: usize,
    pub skipped: usize,
    pub errors: Vec<String>,
}

impl DiscoveryReport {
    pub fn new() -> (r: Self)
        ensures
            r.loaded == 0,
            r.skipped == 0,
            r.errors@.len() == 0,
    {
        DiscoveryReport { loaded: 0, skipped: 0, errors: Vec::new() }
    }
}

impl Default for DiscoveryReport {
    fn default() -> (r: Self)
        ensures
            r.loaded == 0,
            r.skipped == 0,
            r.errors@.len() == 0,
    {
        DiscoveryReport::new()
    }
}

/// Why a theme palette could not be produced.
#[derive(Clone, Debug, PartialEq, Eq)]
pub enum LoadError {
    /// The id is not a Pi theme id, or names no registered theme.
    InvalidName(String),
}

impl LoadError {
    /// The error's message.
    pub fn message(&self) -> (r: String)
        ensures
            self matches LoadError::InvalidName(s) ==> r@ == s@,
    {
        match self {
            LoadError::InvalidName(s) => s.clone(),
        }
    }
}

/// The parse outcome of one theme file: its JSON `name` and the palette it
/// maps to (or why mapping failed).
#[derive(Debug)]
pub struct ThemeDoc<P> {
    pub name: String,
    pub palette: Result<P, String>,
}

/// A theme file found by discovery and the outcome of loading it.
#[derive(Debug)]
pub struct ThemeFile<P> {
    /// The file's path, as displayed in error messages.
    pub path: String,
    /// The parsed document, or why it could not be read or parsed.
    pub doc: Result<ThemeDoc<P>, String>,
}

/// `pi:<name>`.
pub open spec fn spec_theme_id(name: Seq<char>) -> Seq<char> {
    PI_THEME_PREFIX@ + name
}

/// The theme name of a Pi theme id: the trimmed id after `pi:`, if that is
/// not empty.
pub open spec fn spec_parse_pi_theme_id(id: Seq<char>) -> Option<Seq<char>> {
    let t = trim_seq(id);
    let p = PI_THEME_PREFIX@;
    if has_prefix(t, p) && t.len() > p.len() {
        Some(t.subrange(p.len() as int, t.len() as int))
    } else {
        None
    }
}

/// Build the canonical id for a Pi theme name.
pub fn theme_id(name: &str) -> (r: String)
    ensures
        r@ == spec_theme_id(name@),
{
    PI_THEME_PREFIX.to_owned().concat(name)
}

/// The theme name of an id of the form `pi:<name>` (surrounding whitespace
/// ignored); `None` for anything else, including a bare name or `pi:`.
pub fn parse_pi_theme_id(id: &str) -> (r: Option<String>)
    ensures
        r matches Some(n) ==> spec_parse_pi_theme_id(id@) == Some(n@),
        r is None ==> spec_parse_pi_theme_id(id@) is None,
{
    let trimmed = trim(id);
    if starts_with(trimmed, PI_THEME_PREFIX) {
        let m = PI_THEME_PREFIX.unicode_len();
        let n = trimmed.unicode_len();
        if n == m {
            return None;
        }
        return Some(trimmed.substring_char(m, n).to_owned());
    }
    None
}

/// Whether a theme setting string refers to a Pi theme.
pub fn is_pi_theme_id(id: &str) -> (b: bool)
    ensures
        b == spec_parse_pi_theme_id(id@) is Some,
{
    parse_pi_theme_id(id).is_some()
}

/// What the registry knows of one theme: its source path (`None` for a
/// builtin), whether it is a builtin, and its palette.
pub type ThemeInfo<P> = (Option<Seq<char>>, bool, P);

pub open spec fn opt_view(o: Option<String>) -> Option<Seq<char>> {
    match o {
        Some(s) => Some(s@),
        None => None,
    }
}

pub open spec fn info_of<P>(r: (PiThemeMeta, P)) -> ThemeInfo<P> {
    (opt_view(r.0.path), r.0.builtin, r.1)
}

/// The name → theme map of a list of records (later records win).
pub open spec fn to_map<P>(s: Seq<(PiThemeMeta, P)>) -> Map<Seq<char>, ThemeInfo<P>>
    decreases s.len(),
{
    if s.len() == 0 {
        Map::empty()
    } else {
        to_map(s.drop_last()).insert(s.last().0.name@, info_of(s.last()))
    }
}

/// Names are unique, ids are canonical, and a theme is a builtin exactly
/// when it has no source path.
pub open spec fn records_wf<P>(s: Seq<(PiThemeMeta, P)>) -> bool {
    &&& forall|i: int, j: int|
        0 <= i < j < s.len() ==> #[trigger] s[i].0.name@ != #[trigger] s[j].0.name@
    &&& forall|i: int| 0 <= i < s.len() ==> #[trigger] s[i].0.id@ == spec_theme_id(s[i].0.name@)
    &&& forall|i: int| 0 <= i < s.len() ==> #[trigger] s[i].0.builtin == (s[i].0.path is None)
}

/// The map after registering the builtins of `catalog` in order: a new name
/// becomes a builtin without a path; a name already present keeps its
/// metadata and takes the builtin's palette.
pub open spec fn with_builtins<P>(m: Map<Seq<char>, ThemeInfo<P>>, catalog: Seq<(String, P)>) -> Map<
    Seq<char>,
    ThemeInfo<P>,
>
    decreases catalog.len(),
{
    if catalog.len() == 0 {
        m
    } else {
        let prev = with_builtins(m, catalog.drop_last());
        let (name, palette) = catalog.last();
        if prev.contains_key(name@) {
            prev.insert(name@, (prev[name@].0, prev[name@].1, palette))
        } else {
            prev.insert(name@, (None, true, palette))
        }
    }
}

/// The effect of one discovered theme file on the registry and the report:
/// `(themes, loaded delta, skipped delta, new error message)`.
pub open spec fn register_file_effect<P>(m: Map<Seq<char>, ThemeInfo<P>>, f: ThemeFile<P>) -> (
    Map<Seq<char>, ThemeInfo<P>>,
    nat,
    nat,
    Option<Seq<char>>,
) {
    match f.doc {
        Err(e) => (m, 0, 0, Some(f.path@ + ": "@ + e@)),
        Ok(doc) => if m.contains_key(doc.name@) {
            (m, 0, 1, None)
        } else {
            match doc.palette {
                Ok(p) => (m.insert(doc.name@, (Some(f.path@), false, p)), 1, 0, None),
                Err(e) => (m, 0, 0, Some(f.path@ + ": "@ + e@)),
            }
        },
    }
}

/// The themes after registering `files` in order.
pub open spec fn register_files<P>(m: Map<Seq<char>, ThemeInfo<P>>, files: Seq<ThemeFile<P>>) -> Map<
    Seq<char>,
    ThemeInfo<P>,
>
    decreases files.len(),
{
    if files.len() == 0 {
        m
    } else {
        register_file_effect(register_files(m, files.drop_last()), files.last()).0
    }
}

/// Loaded files counted while registering `files`.
pub open spec fn files_loaded<P>(m: Map<Seq<char>, ThemeInfo<P>>, files: Seq<ThemeFile<P>>) -> nat
    decreases files.len(),
{
    if files.len() == 0 {
        0
    } else {
        files_loaded(m, files.drop_last()) + register_file_effect(
            register_files(m, files.drop_last()),
            files.last(),
        ).1
    }
}

/// Name collisions counted while registering `files`.
pub open spec fn files_skipped<P>(m: Map<Seq<char>, ThemeInfo<P>>, files: Seq<ThemeFile<P>>) -> nat
    decreases files.len(),
{
    if files.len() == 0 {
        0
    } else {
        files_skipped(m, files.drop_last()) + register_file_effect(
            register_files(m, files.drop_last()),
            files.last(),
        ).2
    }
}

/// Error messages produced while registering `files`, in order.
pub open spec fn files_errors<P>(m: Map<Seq<char>, ThemeInfo<P>>, files: Seq<ThemeFile<P>>) -> Seq<
    Seq<char>,
>
    decreases files.len(),
{
    if files.len() == 0 {
        Seq::empty()
    } else {
        let prev = files_errors(m, files.drop_last());
        match register_file_effect(register_files(m, files.drop_last()), files.last()).3 {
            Some(e) => prev.push(e),
            None => prev,
        }
    }
}

/// The builtin themes of a map.
pub open spec fn builtins_only<P>(m: Map<Seq<char>, ThemeInfo<P>>) -> Map<Seq<char>, ThemeInfo<P>> {
    m.restrict(m.dom().filter(|k: Seq<char>| m[k].1))
}

/// The result of looking up a palette by id: the canonical id and palette,
/// or the error the lookup reports.
pub open spec fn palette_lookup<P>(m: Map<Seq<char>, ThemeInfo<P>>, id: Seq<char>) -> Result<
    (Seq<char>, P),
    Seq<char>,
> {
    match spec_parse_pi_theme_id(id) {
        None => Err(id),
        Some(name) => if m.contains_key(name) {
            Ok((spec_theme_id(name), m[name].2))
        } else {
            Err("unknown Pi theme: "@ + id)
        },
    }
}

pub open spec fn result_view<P>(r: Result<(String, P), LoadError>) -> Result<(Seq<char>, P), Seq<char>> {
    match r {
        Ok((id, p)) => Ok((id@, p)),
        Err(e) => Err(error_text(e)),
    }
}

pub open spec fn error_text(e: LoadError) -> Seq<char> {
    match e {
        LoadError::InvalidName(s) => s@,
    }
}

proof fn lemma_to_map_index<P>(s: Seq<(PiThemeMeta, P)>, i: int)
    requires
        records_wf(s),
        0 <= i < s.len(),
    ensures
        to_map(s).contains_key(s[i].0.name@),
        to_map(s)[s[i].0.name@] == info_of(s[i]),
    decreases s.len(),
{
    if i < s.len() - 1 {
        let t = s.drop_last();
        assert(records_wf(t)) by {
            assert forall|a: int, b: int| 0 <= a < b < t.len() implies #[trigger] t[a].0.name@
                != #[trigger] t[b].0.name@ by {
                assert(t[a] == s[a] && t[b] == s[b]);
            }
            assert forall|a: int| 0 <= a < t.len() implies #[trigger] t[a].0.id@ == spec_theme_id(
                t[a].0.name@,
            ) by {
                assert(t[a] == s[a]);
            }
        }
        assert(t[i] == s[i]);
        lemma_to_map_index(t, i);
        assert(s[i].0.name@ != s[s.len() - 1].0.name@);
    }
}

proof fn lemma_to_map_keys<P>(s: Seq<(PiThemeMeta, P)>, k: Seq<char>)
    ensures
        to_map(s).contains_key(k) <==> exists|i: int| 0 <= i < s.len() && #[trigger] s[i].0.name@
            == k,
    decreases s.len(),
{
    if s.len() > 0 {
        let t = s.drop_last();
        lemma_to_map_keys(t, k);
        if to_map(s).contains_key(k) && k != s.last().0.name@ {
            let i = choose|i: int| 0 <= i < t.len() && #[trigger] t[i].0.name@ == k;
            assert(s[i] == t[i]);
        }
        if to_map(s).contains_key(k) && k == s.last().0.name@ {
            assert(s[s.len() - 1].0.name@ == k);
        }
        if exists|i: int| 0 <= i < s.len() && #[trigger] s[i].0.name@ == k {
            let i = choose|i: int| 0 <= i < s.len() && #[trigger] s[i].0.name@ == k;
            if i < s.len() - 1 {
                assert(t[i] == s[i]);
            }
        }
    }
}

proof fn lemma_wf_drop_last<P>(s: Seq<(PiThemeMeta, P)>)
    requires
        records_wf(s),
        s.len() > 0,
    ensures
        records_wf(s.drop_last()),
{
    let t = s.drop_last();
    assert forall|a: int, b: int| 0 <= a < b < t.len() implies #[trigger] t[a].0.name@
        != #[trigger] t[b].0.name@ by {
        assert(t[a] == s[a] && t[b] == s[b]);
    }
    assert forall|a: int| 0 <= a < t.len() implies #[trigger] t[a].0.id@ == spec_theme_id(
        t[a].0.name@,
    ) by {
        assert(t[a] == s[a]);
    }
}

proof fn lemma_to_map_update<P>(s: Seq<(PiThemeMeta, P)>, i: int, e: (PiThemeMeta, P))
    requires
        records_wf(s),
        0 <= i < s.len(),
        e.0.name@ == s[i].0.name@,
    ensures
        to_map(s.update(i, e)) == to_map(s).insert(e.0.name@, info_of(e)),
    decreases s.len(),
{
    let u = s.update(i, e);
    if i == s.len() - 1 {
        assert(u.drop_last() =~= s.drop_last());
        lemma_to_map_keys(s.drop_last(), e.0.name@);
        assert(to_map(s).insert(e.0.name@, info_of(e)) =~= to_map(s.drop_last()).insert(
            e.0.name@,
            info_of(e),
        ));
    } else {
        lemma_wf_drop_last(s);
        let t = s.drop_last();
        assert(u.drop_last() =~= t.update(i, e));
        lemma_to_map_update(t, i, e);
        assert(s[i].0.name@ != s[s.len() - 1].0.name@);
        assert(u.last() == s.last());
        assert(to_map(u) =~= to_map(s).insert(e.0.name@, info_of(e)));
    }
}

proof fn lemma_to_map_len<P>(s: Seq<(PiThemeMeta, P)>)
    requires
        records_wf(s),
    ensures
        to_map(s).dom().finite(),
        to_map(s).len() == s.len(),
    decreases s.len(),
{
    if s.len() > 0 {
        let t = s.drop_last();
        lemma_wf_drop_last(s);
        lemma_to_map_len(t);
        lemma_to_map_keys(t, s.last().0.name@);
        if to_map(t).contains_key(s.last().0.name@) {
            let i = choose|i: int| 0 <= i < t.len() && #[trigger] t[i].0.name@ == s.last().0.name@;
            assert(s[i] == t[i]);
        }
    }
}

/// The catalog's names.
pub open spec fn catalog_names<P>(catalog: Seq<(String, P)>) -> Set<Seq<char>> {
    Set::new(|k: Seq<char>| exists|i: int| 0 <= i < catalog.len() && #[trigger] catalog[i].0@ == k)
}

/// Registering the builtins keeps every theme's path and builtin flag,
/// adds every catalog name, and adds a name that was missing as a builtin
/// without a path.
pub proof fn lemma_with_builtins_members<P>(m: Map<Seq<char>, ThemeInfo<P>>, catalog: Seq<(String, P)>)
    ensures
        forall|k: Seq<char>|
            #[trigger] with_builtins(m, catalog).contains_key(k) <==> (m.contains_key(k)
                || catalog_names(catalog).contains(k)),
        forall|k: Seq<char>|
            m.contains_key(k) ==> #[trigger] with_builtins(m, catalog)[k].0 == m[k].0
                && with_builtins(m, catalog)[k].1 == m[k].1,
        forall|k: Seq<char>|
            !m.contains_key(k) && catalog_names(catalog).contains(k) ==> #[trigger] with_builtins(
                m,
                catalog,
            )[k].0 is None && with_builtins(m, catalog)[k].1,
    decreases catalog.len(),
{
    if catalog.len() > 0 {
        let c = catalog.drop_last();
        lemma_with_builtins_members(m, c);
        let last = catalog.last().0@;
        assert forall|k: Seq<char>| #[trigger] catalog_names(catalog).contains(k) <==> (
        catalog_names(c).contains(k) || k == last) by {
            if catalog_names(catalog).contains(k) {
                let i = choose|i: int| 0 <= i < catalog.len() && #[trigger] catalog[i].0@ == k;
                if i < catalog.len() - 1 {
                    assert(c[i] == catalog[i]);
                }
            }
            if catalog_names(c).contains(k) {
                let i = choose|i: int| 0 <= i < c.len() && #[trigger] c[i].0@ == k;
                assert(catalog[i] == c[i]);
            }
            if k == last {
                assert(catalog[catalog.len() - 1].0@ == k);
            }
        }
    }
}

proof fn lemma_register_files_len<P>(m: Map<Seq<char>, ThemeInfo<P>>, files: Seq<ThemeFile<P>>)
    requires
        m.dom().finite(),
    ensures
        register_files(m, files).dom().finite(),
        register_files(m, files).len() == m.len() + files_loaded(m, files),
    decreases files.len(),
{
    if files.len() > 0 {
        lemma_register_files_len(m, files.drop_last());
    }
}

proof fn lemma_with_builtins_len<P>(m: Map<Seq<char>, ThemeInfo<P>>, catalog: Seq<(String, P)>)
    requires
        m.dom().finite(),
    ensures
        with_builtins(m, catalog).dom().finite(),
        with_builtins(m, catalog).len() <= m.len() + catalog.len(),
    decreases catalog.len(),
{
    if catalog.len() > 0 {
        lemma_with_builtins_len(m, catalog.drop_last());
    }
}

/// The builtin records of `s`, in order.
pub open spec fn keep_builtin<P>(s: Seq<(PiThemeMeta, P)>) -> Seq<(PiThemeMeta, P)>
    decreases s.len(),
{
    if s.len() == 0 {
        Seq::empty()
    } else if s.last().0.builtin {
        keep_builtin(s.drop_last()).push(s.last())
    } else {
        keep_builtin(s.drop_last())
    }
}

proof fn lemma_keep_builtin<P>(s: Seq<(PiThemeMeta, P)>)
    requires
        records_wf(s),
    ensures
        records_wf(keep_builtin(s)),
        to_map(keep_builtin(s)) == builtins_only(to_map(s)),
        forall|k: int|
            0 <= k < keep_builtin(s).len() ==> exists|j: int|
                0 <= j < s.len() && #[trigger] keep_builtin(s)[k] == s[j],
    decreases s.len(),
{
    if s.len() > 0 {
        let t = s.drop_last();
        let e = s.last();
        lemma_wf_drop_last(s);
        lemma_keep_builtin(t);
        let kt = keep_builtin(t);
        lemma_to_map_keys(t, e.0.name@);
        assert(!to_map(t).contains_key(e.0.name@)) by {
            if to_map(t).contains_key(e.0.name@) {
                let i = choose|i: int| 0 <= i < t.len() && #[trigger] t[i].0.name@ == e.0.name@;
                assert(s[i] == t[i]);
            }
        }
        let m = to_map(t);
        let mi = m.insert(e.0.name@, info_of(e));
        assert forall|k: int| 0 <= k < kt.len() implies exists|j: int|
            0 <= j < s.len() && #[trigger] kt[k] == s[j] by {
            let j = choose|j: int| 0 <= j < t.len() && #[trigger] kt[k] == t[j];
            assert(s[j] == t[j]);
        }
        if e.0.builtin {
            let ks = keep_builtin(s);
            assert(ks == kt.push(e));
            assert forall|a: int, b: int| 0 <= a < b < ks.len() implies #[trigger] ks[a].0.name@
                != #[trigger] ks[b].0.name@ by {
                if b == ks.len() - 1 {
                    assert(ks[a] == kt[a]);
                    let j = choose|j: int| 0 <= j < t.len() && #[trigger] kt[a] == t[j];
                    assert(s[j] == t[j]);
                } else {
                    assert(ks[a] == kt[a] && ks[b] == kt[b]);
                }
            }
            assert forall|a: int| 0 <= a < ks.len() implies #[trigger] ks[a].0.id@ == spec_theme_id(
                ks[a].0.name@,
            ) by {
                if a < ks.len() - 1 {
                    assert(ks[a] == kt[a]);
                    let j = choose|j: int| 0 <= j < t.len() && #[trigger] kt[a] == t[j];
                    assert(s[j] == t[j]);
                }
            }
            assert forall|k: int| 0 <= k < ks.len() implies exists|j: int|
                0 <= j < s.len() && #[trigger] ks[k] == s[j] by {
                if k < ks.len() - 1 {
                    assert(ks[k] == kt[k]);
                    let j = choose|j: int| 0 <= j < t.len() && #[trigger] kt[k] == t[j];
                    assert(s[j] == t[j]);
                } else {
                    assert(ks[k] == s[s.len() - 1]);
                }
            }
            assert(ks.drop_last() =~= kt);
            assert(to_map(ks) == to_map(kt).insert(e.0.name@, info_of(e)));
            assert(to_map(s) == mi);
            assert(builtins_only(mi) =~= builtins_only(m).insert(e.0.name@, info_of(e)));
        } else {
            assert(to_map(s) == mi);
            assert(keep_builtin(s) == kt);
            assert(builtins_only(mi) =~= builtins_only(m));
        }
    } else {
        assert(builtins_only(to_map(s)) =~= Map::<Seq<char>, ThemeInfo<P>>::empty());
    }
}

proof fn lemma_builtins_only_len<P>(m: Map<Seq<char>, ThemeInfo<P>>)
    requires
        m.dom().finite(),
    ensures
        builtins_only(m).dom().finite(),
        builtins_only(m).len() <= m.len(),
{
    let b = builtins_only(m);
    assert(b.dom() =~= m.dom().filter(|k: Seq<char>| m[k].1));
    vstd::set_lib::lemma_len_subset(b.dom(), m.dom());
}

/// Metadata strictly ordered by name.
pub open spec fn sorted_by_name(s: Seq<PiThemeMeta>) -> bool {
    forall|i: int, j: int| 0 <= i < j < s.len() ==> seq_lt(s[i].name@, s[j].name@)
}

proof fn lemma_insert_members(before: Seq<PiThemeMeta>, pos: int, x: PiThemeMeta)
    requires
        0 <= pos <= before.len(),
    ensures
        forall|b: int|
            0 <= b < before.len() ==> exists|a: int|
                0 <= a < before.insert(pos, x).len() && before.insert(pos, x)[a] == #[trigger] before[b],
        forall|a: int|
            0 <= a < before.insert(pos, x).len() ==> #[trigger] before.insert(pos, x)[a] == x || exists|b: int|
                0 <= b < before.len() && before.insert(pos, x)[a] == before[b],
        before.insert(pos, x)[pos] == x,
{
    let o = before.insert(pos, x);
    assert forall|b: int| 0 <= b < before.len() implies exists|a: int|
        0 <= a < o.len() && o[a] == #[trigger] before[b] by {
        if b < pos {
            assert(o[b] == before[b]);
        } else {
            assert(o[b + 1] == before[b]);
        }
    }
    assert forall|a: int| 0 <= a < o.len() implies #[trigger] o[a] == x || exists|b: int|
        0 <= b < before.len() && o[a] == before[b] by {
        if a < pos {
            assert(o[a] == before[a]);
        } else if a > pos {
            assert(o[a] == before[a - 1]);
        }
    }
}

/// Insert `meta` into a list sorted by name, keeping it sorted; returns the
/// position used.
fn insert_sorted(out: &mut Vec<PiThemeMeta>, meta: PiThemeMeta) -> (pos: usize)
    requires
        sorted_by_name(old(out)@),
        forall|a: int| 0 <= a < old(out)@.len() ==> old(out)@[a].name@ != meta.name@,
    ensures
        pos <= old(out)@.len(),
        final(out)@ == old(out)@.insert(pos as int, meta),
        sorted_by_name(final(out)@),
{
    let mut pos: usize = 0;
    while pos < out.len() && str_lt(out[pos].name.as_str(), meta.name.as_str())
        invariant
            pos <= out@.len(),
            forall|a: int| 0 <= a < pos ==> seq_lt(out@[a].name@, meta.name@),
        decreases out.len() - pos,
    {
        pos = pos + 1;
    }
    proof {
        if pos < out@.len() {
            lemma_lt_total(out@[pos as int].name@, meta.name@);
            assert forall|a: int| pos <= a < out@.len() implies seq_lt(meta.name@, out@[a].name@) by {
                if a > pos {
                    lemma_lt_transitive(meta.name@, out@[pos as int].name@, out@[a].name@);
                }
            }
        }
    }
    let ghost before = out@;
    let ghost m = meta;
    out.insert(pos, meta);
    proof {
        let o = out@;
        assert(o =~= before.insert(pos as int, m));
        assert forall|a: int, b: int| 0 <= a < b < o.len() implies seq_lt(o[a].name@, o[b].name@) by {
            if b < pos {
                assert(o[a] == before[a] && o[b] == before[b]);
            } else if b == pos {
                assert(o[a] == before[a]);
            } else if a < pos {
                assert(o[a] == before[a] && o[b] == before[b - 1]);
                lemma_lt_transitive(before[a].name@, m.name@, before[b - 1].name@);
            } else if a == pos {
                assert(o[b] == before[b - 1]);
            } else {
                assert(o[a] == before[a - 1] && o[b] == before[b - 1]);
            }
        }
    }
    pos
}

/// A name → theme catalog with lazily registered builtins.
pub struct ThemeRegistry<P> {
    /// Embedded builtins in manifest order: `(name, palette)`.
    catalog: Vec<(String, P)>,
    /// Registered themes; names are unique.
    records: Vec<(PiThemeMeta, P)>,
    /// Whether the builtins have been registered.
    initialized: bool,
}

impl<P: Copy> ThemeRegistry<P> {
    /// The registered themes by name.
    pub closed spec fn themes(&self) -> Map<Seq<char>, ThemeInfo<P>> {
        to_map(self.records@)
    }

    /// The embedded builtins, in manifest order.
    pub closed spec fn catalog(&self) -> Seq<(String, P)> {
        self.catalog@
    }

    /// Whether the builtins have been registered.
    pub closed spec fn initialized(&self) -> bool {
        self.initialized
    }

    /// The registry's representation is consistent.
    pub closed spec fn wf(&self) -> bool {
        &&& records_wf(self.records@)
        &&& !self.initialized ==> forall|i: int|
            0 <= i < self.records@.len() ==> #[trigger] self.records@[i].0.builtin
    }

    /// The themes once the builtins are registered.
    pub open spec fn with_builtins_registered(&self) -> Map<Seq<char>, ThemeInfo<P>> {
        if self.initialized() {
            self.themes()
        } else {
            with_builtins(self.themes(), self.catalog())
        }
    }

    /// Builtin law: every registered theme is a builtin exactly when it has
    /// no source path; before the builtins are registered only builtins are
    /// (theme files are registered only afterwards), so registering them
    /// (`ensure_builtins`) makes every catalog name a builtin without a
    /// path, and keeps every theme registered before. Once registered,
    /// registering again changes nothing.
    pub proof fn lemma_builtin_law(&self)
        requires
            self.wf(),
        ensures
            forall|k: Seq<char>|
                #[trigger] self.themes().contains_key(k) ==> (self.themes()[k].1 <==> self.themes()[k].0
                    is None),
            !self.initialized() ==> forall|k: Seq<char>|
                catalog_names(self.catalog()).contains(k) ==> #[trigger] self.with_builtins_registered().contains_key(k),
            !self.initialized() ==> forall|k: Seq<char>|
                catalog_names(self.catalog()).contains(k) ==> #[trigger] self.with_builtins_registered()[k].0
                    is None && self.with_builtins_registered()[k].1,
            !self.initialized() ==> forall|k: Seq<char>|
                #[trigger] self.themes().contains_key(k) ==> self.themes()[k].1,
            forall|k: Seq<char>|
                #[trigger] self.themes().contains_key(k) ==> self.with_builtins_registered()[k].0
                    == self.themes()[k].0 && self.with_builtins_registered()[k].1
                    == self.themes()[k].1,
    {
        assert forall|k: Seq<char>| #[trigger] self.themes().contains_key(k) implies (
        self.themes()[k].1 <==> self.themes()[k].0 is None) by {
            lemma_to_map_keys(self.records@, k);
            let i = choose|i: int| 0 <= i < self.records@.len() && #[trigger] self.records@[i].0.name@ == k;
            lemma_to_map_index(self.records@, i);
        }
        if !self.initialized() {
            assert forall|k: Seq<char>| #[trigger] self.themes().contains_key(k) implies self.themes()[k].1 by {
                lemma_to_map_keys(self.records@, k);
                let i = choose|i: int| 0 <= i < self.records@.len() && #[trigger] self.records@[i].0.name@ == k;
                lemma_to_map_index(self.records@, i);
            }
        }
        lemma_with_builtins_members(self.themes(), self.catalog());
    }

    /// An empty registry over the embedded builtins `catalog` (names with
    /// their palettes, in manifest order). Nothing is registered yet.
    pub fn empty(catalog: Vec<(String, P)>) -> (r: Self)
        ensures
            r.wf(),
            r.themes() == Map::<Seq<char>, ThemeInfo<P>>::empty(),
            r.catalog() == catalog@,
            !r.initialized(),
    {
        ThemeRegistry { catalog, records: Vec::new(), initialized: false }
    }

    fn find(&self, name: &str) -> (r: Option<usize>)
        requires
            self.wf(),
        ensures
            r matches Some(i) ==> i < self.records@.len() && self.records@[i as int].0.name@
                == name@,
            r is None ==> !self.themes().contains_key(name@),
            r matches Some(i) ==> self.themes().contains_key(name@) && self.themes()[name@]
                == info_of(self.records@[i as int]),
    {
        let mut i: usize = 0;
        while i < self.records.len()
            invariant
                records_wf(self.records@),
                i <= self.records@.len(),
                forall|j: int| 0 <= j < i ==> #[trigger] self.records@[j].0.name@ != name@,
            decreases self.records.len() - i,
        {
            if str_eq(self.records[i].0.name.as_str(), name) {
                proof {
                    lemma_to_map_index(self.records@, i as int);
                }
                return Some(i);
            }
            i = i + 1;
        }
        proof {
            lemma_to_map_keys(self.records@, name@);
        }
        None
    }

    fn push_record(&mut self, meta: PiThemeMeta, palette: P)
        requires
            old(self).wf(),
            !old(self).themes().contains_key(meta.name@),
            meta.id@ == spec_theme_id(meta.name@),
            meta.builtin == (meta.path is None),
            !old(self).initialized() ==> meta.builtin,
        ensures
            final(self).wf(),
            final(self).themes() == old(self).themes().insert(
                meta.name@,
                (opt_view(meta.path), meta.builtin, palette),
            ),
            final(self).catalog() == old(self).catalog(),
            final(self).initialized() == old(self).initialized(),
    {
        proof {
            lemma_to_map_keys(self.records@, meta.name@);
        }
        let ghost e = (meta, palette);
        self.records.push((meta, palette));
        proof {
            let s = self.records@;
            assert(s.drop_last() =~= old(self).records@);
            assert(s.last() == e);
            assert forall|a: int, b: int| 0 <= a < b < s.len() implies #[trigger] s[a].0.name@
                != #[trigger] s[b].0.name@ by {
                if b == s.len() - 1 {
                    assert(old(self).records@[a] == s[a]);
                    assert(s[b] == e);
                    if old(self).records@[a].0.name@ == e.0.name@ {
                        assert(exists|i: int|
                            0 <= i < old(self).records@.len() && #[trigger] old(
                                self,
                            ).records@[i].0.name@ == e.0.name@);
                    }
                } else {
                    assert(old(self).records@[a] == s[a] && old(self).records@[b] == s[b]);
                }
            }
            assert forall|a: int| 0 <= a < s.len() implies #[trigger] s[a].0.id@ == spec_theme_id(
                s[a].0.name@,
            ) by {
                if a < s.len() - 1 {
                    assert(old(self).records@[a] == s[a]);
                }
            }
            assert forall|a: int| 0 <= a < s.len() implies #[trigger] s[a].0.builtin == (
            s[a].0.path is None) by {
                if a < s.len() - 1 {
                    assert(old(self).records@[a] == s[a]);
                }
            }
        }
    }

    /// Register one embedded builtin: a new name becomes a builtin without a
    /// path; an existing name keeps its metadata and takes this palette.
    pub fn register_builtin(&mut self, name: String, palette: P)
        requires
            old(self).wf(),
        ensures
            final(self).wf(),
            final(self).themes() == (if old(self).themes().contains_key(name@) {
                old(self).themes().insert(
                    name@,
                    (old(self).themes()[name@].0, old(self).themes()[name@].1, palette),
                )
            } else {
                old(self).themes().insert(name@, (None, true, palette))
            }),
            final(self).catalog() == old(self).catalog(),
            final(self).initialized() == old(self).initialized(),
    {
        match self.find(name.as_str()) {
            Some(i) => {
                let meta = self.records[i].0.duplicate();
                proof {
                    lemma_to_map_update(self.records@, i as int, (meta, palette));
                }
                self.records.set(i, (meta, palette));
                proof {
                    let s = self.records@;
                    assert forall|a: int, b: int| 0 <= a < b < s.len() implies #[trigger] s[a].0.name@
                        != #[trigger] s[b].0.name@ by {
                        assert(old(self).records@[a].0.name@ == s[a].0.name@);
                        assert(old(self).records@[b].0.name@ == s[b].0.name@);
                    }
                    assert forall|a: int| 0 <= a < s.len() implies #[trigger] s[a].0.id@
                        == spec_theme_id(s[a].0.name@) by {
                        assert(old(self).records@[a].0 == s[a].0);
                    }
                }
            },
            None => {
                let id = theme_id(name.as_str());
                self.push_record(PiThemeMeta { name, id, path: None, builtin: true }, palette);
            },
        }
    }

    /// Ensure builtins are registered (idempotent).
    pub fn ensure_builtins(&mut self)
        requires
            old(self).wf(),
        ensures
            final(self).wf(),
            final(self).themes() == old(self).with_builtins_registered(),
            final(self).initialized(),
            final(self).catalog() == old(self).catalog(),
    {
        if self.initialized {
            return;
        }
        let mut i: usize = 0;
        let ghost start = self.themes();
        while i < self.catalog.len()
            invariant
                self.wf(),
                !self.initialized,
                self.catalog@ == old(self).catalog@,
                i <= self.catalog@.len(),
                start == old(self).themes(),
                self.themes() == with_builtins(start, self.catalog@.take(i as int)),
            decreases self.catalog.len() - i,
        {
            let name = self.catalog[i].0.clone();
            let palette = self.catalog[i].1;
            proof {
                let t = self.catalog@.take(i + 1);
                assert(t.drop_last() =~= self.catalog@.take(i as int));
                assert(t.last() == self.catalog@[i as int]);
            }
            self.register_builtin(name, palette);
            i = i + 1;
        }
        assert(self.catalog@.take(i as int) =~= self.catalog@);
        self.initialized = true;
    }

    /// Register one discovered theme file, recording the outcome in
    /// `report`: a read/parse failure or a palette-mapping failure adds
    /// `"<path>: <error>"` to the errors; a name already registered is
    /// skipped (first registration wins); otherwise the theme is added.
    pub fn try_register_file(&mut self, file: ThemeFile<P>, report: &mut DiscoveryReport)
        requires
            old(self).wf(),
            old(self).initialized(),
            old(report).loaded + 1 <= usize::MAX,
            old(report).skipped + 1 <= usize::MAX,
        ensures
            final(self).wf(),
            final(self).catalog() == old(self).catalog(),
            final(self).initialized() == old(self).initialized(),
            ({
                let (m, dl, ds, err) = register_file_effect(old(self).themes(), file);
                &&& final(self).themes() == m
                &&& final(report).loaded == old(report).loaded + dl
                &&& final(report).skipped == old(report).skipped + ds
                &&& final(report).errors@.map_values(|e: String| e@) == match err {
                    Some(e) => old(report).errors@.map_values(|e: String| e@).push(e),
                    None => old(report).errors@.map_values(|e: String| e@),
                }
            }),
    {
        let ghost f = file;
        let ThemeFile { path, doc } = file;
        match doc {
            Err(e) => {
                let msg = path.concat(": ").concat(e.as_str());
                let ghost before = report.errors@;
                report.errors.push(msg);
                assert(report.errors@.map_values(|e: String| e@) =~= before.map_values(
                    |e: String| e@,
                ).push(f.path@ + ": "@ + e@));
            },
            Ok(doc) => {
                let ThemeDoc { name, palette } = doc;
                if self.find(name.as_str()).is_some() {
                    report.skipped = report.skipped + 1;
                    return;
                }
                match palette {
                    Ok(p) => {
                        let id = theme_id(name.as_str());
                        self.push_record(
                            PiThemeMeta { name, id, path: Some(path), builtin: false },
                            p,
                        );
                        report.loaded = report.loaded + 1;
                    },
                    Err(e) => {
                        let msg = path.concat(": ").concat(e.as_str());
                        let ghost before = report.errors@;
                        report.errors.push(msg);
                        assert(report.errors@.map_values(|e: String| e@) =~= before.map_values(
                            |e: String| e@,
                        ).push(f.path@ + ": "@ + e@));
                    },
                }
            },
        }
    }

    /// Register discovered theme files in order.
    pub fn scan_dir(&mut self, files: Vec<ThemeFile<P>>, report: &mut DiscoveryReport)
        requires
            old(self).wf(),
            old(self).initialized(),
            old(report).loaded + files@.len() <= usize::MAX,
            old(report).skipped + files@.len() <= usize::MAX,
        ensures
            final(self).wf(),
            final(self).catalog() == old(self).catalog(),
            final(self).initialized() == old(self).initialized(),
            final(self).themes() == register_files(old(self).themes(), files@),
            final(report).loaded == old(report).loaded + files_loaded(old(self).themes(), files@),
            final(report).skipped == old(report).skipped + files_skipped(
                old(self).themes(),
                files@,
            ),
            final(report).errors@.map_values(|e: String| e@) == old(report).errors@.map_values(
                |e: String| e@,
            ) + files_errors(old(self).themes(), files@),
    {
        let ghost m0 = self.themes();
        let ghost all = files@;
        let mut files = files;
        let mut done: usize = 0;
        let total = files.len();
        proof {
            assert(all.take(0) =~= Seq::<ThemeFile<P>>::empty());
            assert(all.skip(0) =~= all);
            assert(old(report).errors@.map_values(|e: String| e@) =~= old(report).errors@.map_values(
                |e: String| e@,
            ) + Seq::<Seq<char>>::empty());
        }
        while files.len() > 0
            invariant
                self.wf(),
                self.catalog() == old(self).catalog(),
                self.initialized() == old(self).initialized(),
                self.initialized(),
                total == all.len(),
                done + files@.len() == total,
                files@ == all.skip(done as int),
                self.themes() == register_files(m0, all.take(done as int)),
                report.loaded == old(report).loaded + files_loaded(m0, all.take(done as int)),
                report.skipped == old(report).skipped + files_skipped(m0, all.take(done as int)),
                report.errors@.map_values(|e: String| e@) == old(report).errors@.map_values(
                    |e: String| e@,
                ) + files_errors(m0, all.take(done as int)),
                old(report).loaded + total <= usize::MAX,
                old(report).skipped + total <= usize::MAX,
                files_loaded(m0, all.take(done as int)) <= done,
                files_skipped(m0, all.take(done as int)) <= done,
            decreases files.len(),
        {
            let file = files.remove(0);
            proof {
                let t = all.take(done + 1);
                assert(t.drop_last() =~= all.take(done as int));
                assert(file == all[done as int]);
                assert(files@ =~= all.skip(done + 1));
                assert(t.last() == all[done as int]);
            }
            let ghost prev_errors = report.errors@.map_values(|e: String| e@);
            self.try_register_file(file, report);
            proof {
                let t = all.take(done + 1);
                let eff = register_file_effect(register_files(m0, all.take(done as int)), t.last());
                match eff.3 {
                    Some(e) => {
                        assert(report.errors@.map_values(|e: String| e@) =~= old(
                            report,
                        ).errors@.map_values(|e: String| e@) + files_errors(m0, t));
                    },
                    None => {
                        assert(report.errors@.map_values(|e: String| e@) =~= old(
                            report,
                        ).errors@.map_values(|e: String| e@) + files_errors(m0, t));
                    },
                }
            }
            done = done + 1;
        }
        assert(all.take(done as int) =~= all);
    }

    /// Keep embedded builtins but discard every file-backed registration.
    pub fn clear_custom_file_themes(&mut self)
        requires
            old(self).wf(),
        ensures
            final(self).wf(),
            final(self).themes() == builtins_only(old(self).themes()),
            final(self).catalog() == old(self).catalog(),
            final(self).initialized() == old(self).initialized(),
    {
        let mut kept: Vec<(PiThemeMeta, P)> = Vec::new();
        let mut i: usize = 0;
        assert(self.records@.take(0) =~= Seq::<(PiThemeMeta, P)>::empty());
        while i < self.records.len()
            invariant
                self.records@ == old(self).records@,
                i <= self.records@.len(),
                kept@ == keep_builtin(self.records@.take(i as int)),
            decreases self.records.len() - i,
        {
            proof {
                let t = self.records@.take(i + 1);
                assert(t.drop_last() =~= self.records@.take(i as int));
                assert(t.last() == self.records@[i as int]);
            }
            if self.records[i].0.builtin {
                let r = (self.records[i].0.duplicate(), self.records[i].1);
                kept.push(r);
            }
            i = i + 1;
        }
        proof {
            assert(self.records@.take(i as int) =~= self.records@);
            lemma_keep_builtin(self.records@);
        }
        self.records = kept;
    }

    /// Register the builtins, then the discovered theme files in order
    /// (embedded builtins, `~/.pi/agent/themes`, `<cwd>/.pi/themes`, then
    /// `PI_THEME_PATHS`; first wins on name collision). `loaded` counts every
    /// registered theme, builtins included.
    pub fn init_discovery(&mut self, files: Vec<ThemeFile<P>>) -> (report: DiscoveryReport)
        requires
            old(self).wf(),
            old(self).themes().len() + old(self).catalog().len() + files@.len() <= usize::MAX,
        ensures
            final(self).wf(),
            final(self).initialized(),
            final(self).catalog() == old(self).catalog(),
            final(self).themes() == register_files(old(self).with_builtins_registered(), files@),
            report.loaded == old(self).with_builtins_registered().len() + files_loaded(
                old(self).with_builtins_registered(),
                files@,
            ),
            report.loaded == final(self).themes().len(),
            report.skipped == files_skipped(old(self).with_builtins_registered(), files@),
            report.errors@.map_values(|e: String| e@) == files_errors(
                old(self).with_builtins_registered(),
                files@,
            ),
    {
        proof {
            lemma_to_map_len(old(self).records@);
            lemma_with_builtins_len(old(self).themes(), old(self).catalog());
            lemma_register_files_len(old(self).with_builtins_registered(), files@);
        }
        self.ensure_builtins();
        let mut report = DiscoveryReport::new();
        report.loaded = self.records.len();
        proof {
            lemma_to_map_len(self.records@);
            lemma_to_map_len(old(self).records@);
            lemma_with_builtins_len(old(self).themes(), old(self).catalog());
            assert(report.errors@.map_values(|e: String| e@) =~= Seq::<Seq<char>>::empty());
        }
        self.scan_dir(files, &mut report);
        assert(Seq::<Seq<char>>::empty() + files_errors(old(self).with_builtins_registered(), files@)
            =~= files_errors(old(self).with_builtins_registered(), files@));
        report
    }

    /// Load the palette for a Pi theme id (`pi:<name>`): the canonical id
    /// and palette of the registered theme, `InvalidName(id)` for an id that
    /// is not a Pi theme id, and `InvalidName("unknown Pi theme: <id>")` for
    /// an unregistered name. Builtins are registered first.
    pub fn load_palette(&mut self, id: &str) -> (r: Result<(String, P), LoadError>)
        requires
            old(self).wf(),
        ensures
            final(self).wf(),
            final(self).initialized(),
            final(self).catalog() == old(self).catalog(),
            final(self).themes() == old(self).with_builtins_registered(),
            result_view(r) == palette_lookup(final(self).themes(), id@),
    {
        self.ensure_builtins();
        match parse_pi_theme_id(id) {
            None => Err(LoadError::InvalidName(id.to_owned())),
            Some(name) => match self.find(name.as_str()) {
                Some(i) => Ok((theme_id(name.as_str()), self.records[i].1)),
                None => Err(LoadError::InvalidName("unknown Pi theme: ".to_owned().concat(id))),
            },
        }
    }

    /// Resolve a Pi theme id for application into the custom palette slot:
    /// the canonical id and the palette the caller installs, or the load
    /// error.
    pub fn apply_pi_theme(&mut self, id: &str) -> (r: Result<(String, P), LoadError>)
        requires
            old(self).wf(),
        ensures
            final(self).wf(),
            final(self).initialized(),
            final(self).catalog() == old(self).catalog(),
            final(self).themes() == old(self).with_builtins_registered(),
            result_view(r) == palette_lookup(final(self).themes(), id@),
    {
        self.load_palette(id)
    }

    /// Clear the catalog of registered themes; builtins register again on
    /// next use.
    pub fn reset_registry(&mut self)
        ensures
            final(self).wf(),
            final(self).themes() == Map::<Seq<char>, ThemeInfo<P>>::empty(),
            !final(self).initialized(),
            final(self).catalog() == old(self).catalog(),
    {
        self.records = Vec::new();
        self.initialized = false;
        assert(to_map(self.records@) =~= Map::<Seq<char>, ThemeInfo<P>>::empty());
    }

    /// Alias of [`Self::reset_registry`] for tests.
    pub fn reset_for_test(&mut self)
        ensures
            final(self).wf(),
            final(self).themes() == Map::<Seq<char>, ThemeInfo<P>>::empty(),
            !final(self).initialized(),
            final(self).catalog() == old(self).catalog(),
    {
        self.reset_registry();
    }

    /// Re-scan after `/reload`: builtins stay (first wins), every
    /// file-backed theme is dropped and the discovered files are registered
    /// afresh, so edits take effect and deleted themes disappear. `loaded`
    /// is the number of registered themes afterwards. If the active theme
    /// (`current_display_id`) is a Pi theme, its palette is looked up again
    /// and returned for re-application; a failure is reported as
    /// `"re-apply <id>: <error>"`.
    pub fn rediscover(&mut self, files: Vec<ThemeFile<P>>, current_display_id: &str) -> (r: (
        DiscoveryReport,
        Option<(String, P)>,
    ))
        requires
            old(self).wf(),
            old(self).themes().len() + old(self).catalog().len() + files@.len() <= usize::MAX,
        ensures
            final(self).wf(),
            final(self).initialized(),
            final(self).catalog() == old(self).catalog(),
            ({
                let base = builtins_only(old(self).with_builtins_registered());
                let themes = register_files(base, files@);
                let errs = files_errors(base, files@);
                &&& final(self).themes() == themes
                &&& r.0.loaded == themes.len()
                &&& r.0.skipped == files_skipped(base, files@)
                &&& match spec_parse_pi_theme_id(current_display_id@) {
                    None => r.1 is None && r.0.errors@.map_values(|e: String| e@) == errs,
                    Some(_) => match palette_lookup(themes, current_display_id@) {
                        Ok((cid, p)) => r.1 matches Some(x) && x.0@ == cid && x.1 == p
                            && r.0.errors@.map_values(|e: String| e@) == errs,
                        Err(e) => r.1 is None && r.0.errors@.map_values(|e: String| e@)
                            == errs.push("re-apply "@ + current_display_id@ + ": "@ + e),
                    },
                }
            }),
    {
        self.ensure_builtins();
        let mut report = DiscoveryReport::new();
        proof {
            lemma_to_map_len(old(self).records@);
            lemma_with_builtins_len(old(self).themes(), old(self).catalog());
            lemma_builtins_only_len(self.themes());
            assert(report.errors@.map_values(|e: String| e@) =~= Seq::<Seq<char>>::empty());
        }
        self.clear_custom_file_themes();
        let ghost base = self.themes();
        self.scan_dir(files, &mut report);
        proof {
            lemma_to_map_len(self.records@);
            assert(Seq::<Seq<char>>::empty() + files_errors(base, files@) =~= files_errors(
                base,
                files@,
            ));
        }
        report.loaded = self.records.len();
        let mut reapply: Option<(String, P)> = None;
        if is_pi_theme_id(current_display_id) {
            match self.load_palette(current_display_id) {
                Ok(found) => {
                    reapply = Some(found);
                },
                Err(error) => {
                    let msg = "re-apply ".to_owned().concat(current_display_id).concat(": ").concat(
                        error.message().as_str(),
                    );
                    let ghost before = report.errors@;
                    report.errors.push(msg);
                    assert(report.errors@.map_values(|e: String| e@) =~= before.map_values(
                        |e: String| e@,
                    ).push("re-apply "@ + current_display_id@ + ": "@ + error_text(error)));
                },
            }
        }
        (report, reapply)
    }

    /// All registered themes (builtins registered first), sorted by name; a
    /// theme is listed as a builtin exactly when it has no source path.
    #[verifier::rlimit(50)]
    pub fn list_themes(&mut self) -> (r: Vec<PiThemeMeta>)
        requires
            old(self).wf(),
        ensures
            final(self).wf(),
            final(self).initialized(),
            final(self).catalog() == old(self).catalog(),
            final(self).themes() == old(self).with_builtins_registered(),
            sorted_by_name(r@),
            forall|i: int|
                0 <= i < r@.len() ==> final(self).themes().contains_key(#[trigger] r@[i].name@)
                    && final(self).themes()[r@[i].name@].0 == opt_view(r@[i].path)
                    && final(self).themes()[r@[i].name@].1 == r@[i].builtin && r@[i].id@
                    == spec_theme_id(r@[i].name@),
            forall|i: int| 0 <= i < r@.len() ==> #[trigger] r@[i].builtin == (r@[i].path is None),
            forall|k: Seq<char>|
                #[trigger] final(self).themes().contains_key(k) ==> exists|i: int|
                    0 <= i < r@.len() && r@[i].name@ == k,
    {
        self.ensure_builtins();
        let mut out: Vec<PiThemeMeta> = Vec::new();
        let mut i: usize = 0;
        while i < self.records.len()
            invariant
                records_wf(self.records@),
                i <= self.records@.len(),
                sorted_by_name(out@),
                forall|a: int|
                    0 <= a < out@.len() ==> exists|j: int|
                        0 <= j < i && #[trigger] out@[a] == self.records@[j].0,
                forall|j: int|
                    0 <= j < i ==> exists|a: int|
                        0 <= a < out@.len() && out@[a] == #[trigger] self.records@[j].0,
            decreases self.records.len() - i,
        {
            let meta = self.records[i].0.duplicate();
            proof {
                assert forall|a: int| 0 <= a < out@.len() implies out@[a].name@ != meta.name@ by {
                    let j = choose|j: int| 0 <= j < i && #[trigger] out@[a] == self.records@[j].0;
                    assert(j != i);
                }
            }
            let ghost before = out@;
            let pos = insert_sorted(&mut out, meta);
            proof {
                lemma_insert_members(before, pos as int, self.records@[i as int].0);
                let o = out@;
                assert forall|a: int| 0 <= a < o.len() implies exists|j: int|
                    0 <= j < i + 1 && #[trigger] o[a] == self.records@[j].0 by {
                    if o[a] != self.records@[i as int].0 {
                        let b = choose|b: int| 0 <= b < before.len() && o[a] == before[b];
                        let j = choose|j: int| 0 <= j < i && #[trigger] before[b] == self.records@[j].0;
                        assert(o[a] == self.records@[j].0);
                    }
                }
                assert forall|j: int| 0 <= j < i + 1 implies exists|a: int|
                    0 <= a < o.len() && o[a] == #[trigger] self.records@[j].0 by {
                    if j < i {
                        let b = choose|b: int| 0 <= b < before.len() && before[b] == #[trigger] self.records@[j].0;
                        let a = choose|a: int| 0 <= a < o.len() && o[a] == before[b];
                    } else {
                        assert(o[pos as int] == self.records@[j].0);
                    }
                }
            }
            i = i + 1;
        }
        proof {
            assert forall|a: int|
                0 <= a < out@.len() implies self.themes().contains_key(#[trigger] out@[a].name@)
                    && self.themes()[out@[a].name@].0 == opt_view(out@[a].path)
                    && self.themes()[out@[a].name@].1 == out@[a].builtin && out@[a].id@
                    == spec_theme_id(out@[a].name@) by {
                let j = choose|j: int| 0 <= j < i && #[trigger] out@[a] == self.records@[j].0;
                lemma_to_map_index(self.records@, j);
            }
            assert forall|k: Seq<char>| #[trigger] self.themes().contains_key(k) implies exists|a: int|
                0 <= a < out@.len() && out@[a].name@ == k by {
                lemma_to_map_keys(self.records@, k);
                let j = choose|j: int| 0 <= j < self.records@.len() && #[trigger] self.records@[j].0.name@ == k;
                let a = choose|a: int| 0 <= a < out@.len() && out@[a] == #[trigger] self.records@[j].0;
                assert(out@[a].name@ == k);
            }
        }
        out
    }
}


/// A theme file extension: `json`, in any case.
pub open spec fn is_json_extension(e: Option<Seq<char>>) -> bool {
    match e {
        Some(e) => eq_ignore_ascii_case_seq(e, "json"@),
        None => false,
    }
}

/// Paths in ascending order. For the entries of one directory, comparing
/// whole paths by characters is comparing their file names, as `PathBuf`'s
/// order does.
pub open spec fn sorted_paths(s: Seq<Seq<char>>) -> bool {
    forall|i: int, j: int| 0 <= i < j < s.len() ==> !seq_lt(s[j], s[i])
}

/// The theme files among a directory's entries: those with a `.json`
/// extension (any case), sorted. Each entry is kept or dropped whole; an
/// entry whose extension is the same on every platform
/// (`portable_extension`) is kept exactly when that extension is `json`.
pub fn theme_json_paths(entries: Vec<String>) -> (r: Vec<String>)
    ensures
        sorted_paths(strs(r@)),
        forall|p: Seq<char>|
            #[trigger] strs(r@).to_multiset().count(p) <= strs(entries@).to_multiset().count(p),
        forall|p: Seq<char>|
            portable_extension(p) matches Some(e) ==> #[trigger] strs(r@).to_multiset().count(p)
                == if is_json_extension(e) {
                strs(entries@).to_multiset().count(p)
            } else {
                0
            },
{
    broadcast use vstd::seq_lib::group_to_multiset_ensures;

    let ghost all = strs(entries@);
    let mut out: Vec<String> = Vec::new();
    let mut i: usize = 0;
    assert(all.take(0) =~= Seq::<Seq<char>>::empty());
    assert(strs(out@) =~= Seq::<Seq<char>>::empty());
    while i < entries.len()
        invariant
            i <= entries@.len(),
            all == strs(entries@),
            sorted_paths(strs(out@)),
            forall|q: Seq<char>|
                #[trigger] strs(out@).to_multiset().count(q) <= all.take(i as int).to_multiset().count(q),
            forall|q: Seq<char>|
                portable_extension(q) matches Some(e) ==> #[trigger] strs(out@).to_multiset().count(q)
                    == if is_json_extension(e) {
                    all.take(i as int).to_multiset().count(q)
                } else {
                    0
                },
        decreases entries@.len() - i,
    {
        let p = &entries[i];
        proof {
            assert(all.take(i + 1) =~= all.take(i as int).push(p@));
            vstd::seq_lib::to_multiset_build(all.take(i as int), p@);
        }
        let keep = match path_extension(p.as_str()) {
            Some(e) => eq_ignore_ascii_case(e.as_str(), "json"),
            None => false,
        };
        assert(portable_extension(p@) matches Some(e) ==> keep == is_json_extension(e));
        if keep {
            let mut pos: usize = 0;
            while pos < out.len() && str_lt(out[pos].as_str(), p.as_str())
                invariant
                    pos <= out@.len(),
                    forall|a: int| 0 <= a < pos ==> seq_lt(out@[a]@, p@),
                decreases out.len() - pos,
            {
                pos = pos + 1;
            }
            let ghost before = strs(out@);
            proof {
                if pos < out@.len() {
                    assert(!seq_lt(before[pos as int], p@));
                    assert forall|a: int| pos <= a < before.len() implies !seq_lt(before[a], p@) by {
                        if a > pos {
                            lemma_lt_total(before[pos as int], before[a]);
                            if seq_lt(before[a], p@) {
                                lemma_lt_total(before[pos as int], p@);
                                if before[pos as int] != before[a] {
                                    if seq_lt(before[a], before[pos as int]) {
                                        assert(false);
                                    }
                                    lemma_lt_transitive(before[pos as int], before[a], p@);
                                }
                            }
                        }
                    }
                }
            }
            out.insert(pos, p.clone());
            proof {
                let o = strs(out@);
                assert(o =~= before.insert(pos as int, p@));
                vstd::seq_lib::to_multiset_insert(before, pos as int, p@);
                assert forall|a: int, b: int| 0 <= a < b < o.len() implies !seq_lt(o[b], o[a]) by {
                    if b < pos {
                        assert(o[a] == before[a] && o[b] == before[b]);
                    } else if b == pos {
                        assert(o[a] == before[a]);
                        lemma_lt_asymmetric(o[a], p@);
                    } else if a < pos {
                        assert(o[a] == before[a] && o[b] == before[b - 1]);
                        if seq_lt(before[b - 1], before[a]) {
                            lemma_lt_transitive(before[b - 1], before[a], p@);
                        }
                    } else if a == pos {
                        assert(o[b] == before[b - 1]);
                    } else {
                        assert(o[a] == before[a - 1] && o[b] == before[b - 1]);
                    }
                }
            }
        }
        i = i + 1;
    }
    assert(all.take(entries@.len() as int) =~= all);
    out
}

} // verus!

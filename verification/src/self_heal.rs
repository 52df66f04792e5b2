//! Extension self-heal, as a state machine: when Pi does not boot with its
//! extensions, confirm that it boots without any, isolate the extension
//! that breaks it, and relaunch without that extension (or without any
//! extension when no single culprit can be isolated).
//!
//! The caller performs each action (boots Pi, talks to the user) and feeds
//! back whether the boot succeeded.
use vstd::prelude::*;
use crate::culprit_search::{BisectAction, BisectPhase, CulpritSearch, ProbeSubset, lemma_step_progress};
use crate::extension_args::{
    disable_all_extensions, disabled_v, ext_paths, extract_extension_paths, probe_args,
    probe_args_spec, remove_ext_pair, remove_extension_path,
};
use crate::seq_util::strs;

verus! {

/// Where a self-heal run stands.
#[derive(Clone, Copy, Debug, PartialEq, Eq)]
pub enum HealPhase {
    /// Pi is booting with all its arguments.
    Full,
    /// Pi is booting with every extension disabled.
    Bare,
    /// A culprit search is probing subsets of the extensions.
    Search(CulpritSearch),
    /// Pi is relaunching without the culprit (or without any extension).
    Relaunch,
    /// The run is over.
    Over,
}

/// Why self-healing gave up.
#[derive(Clone, Copy, Debug, PartialEq, Eq)]
pub enum HealError {
    /// Pi did not boot and no extension is loaded.
    NoExtensions,
    /// Pi does not boot even without extensions.
    NotExtensionProblem,
    /// Pi did not boot after the culprit was removed.
    RelaunchFailed,
    /// Pi did not boot with every extension disabled.
    FallbackFailed,
}

impl HealError {
    /// The error's text.
    pub fn message(&self) -> (r: &'static str)
        ensures
            r@ == match *self {
                HealError::NoExtensions =>
                    "Pi RPC bootstrap failed and no extensions are loaded.\nTry: grok-pi -ne --no-bridge-extensions"@,
                HealError::NotExtensionProblem =>
                    "Pi RPC bootstrap fails even with zero extensions.\nThis is not an extension problem."@,
                HealError::RelaunchFailed => "self-heal relaunch still failed"@,
                HealError::FallbackFailed => "fallback no-extension launch failed"@,
            },
    {
        match self {
            HealError::NoExtensions =>
                "Pi RPC bootstrap failed and no extensions are loaded.\nTry: grok-pi -ne --no-bridge-extensions",
            HealError::NotExtensionProblem =>
                "Pi RPC bootstrap fails even with zero extensions.\nThis is not an extension problem.",
            HealError::RelaunchFailed => "self-heal relaunch still failed",
            HealError::FallbackFailed => "fallback no-extension launch failed",
        }
    }
}

/// What the caller does next.
#[derive(Debug)]
pub enum HealAction {
    /// Boot Pi with these arguments and report whether bootstrap succeeded.
    Probe(Vec<String>),
    /// Tell the user about the culprit (its path), or about a combination
    /// conflict (`None`), offer the crash report, then boot Pi with `args`
    /// and report whether bootstrap succeeded.
    Relaunch { culprit: Option<String>, args: Vec<String> },
    /// Pi boots with these arguments.
    Done(Vec<String>),
    /// Self-healing gave up.
    Fail(HealError),
}

/// A self-heal run over one argument list.
pub struct SelfHeal {
    pi_args: Vec<String>,
    paths: Vec<String>,
    bare_args: Vec<String>,
    culprit: Option<String>,
    relaunch_args: Vec<String>,
    phase: HealPhase,
}

pub open spec fn opt_view(o: Option<String>) -> Option<Seq<char>> {
    match o {
        Some(s) => Some(s@),
        None => None,
    }
}

/// The extension paths a probe loads.
pub open spec fn subset_paths(paths: Seq<Seq<char>>, sub: ProbeSubset) -> Seq<Seq<char>> {
    match sub {
        ProbeSubset::Prefix(k) => paths.take(k as int),
        ProbeSubset::Single(i) => seq![paths[i as int]],
    }
}

/// The arguments of the relaunch: without the culprit's pair, or with every
/// extension disabled when there is none.
pub open spec fn relaunch_args_v(args: Seq<Seq<char>>, culprit: Option<Seq<char>>) -> Seq<Seq<char>> {
    match culprit {
        Some(c) => remove_ext_pair(args, c),
        None => disabled_v(args),
    }
}

impl SelfHeal {
    /// The arguments the run started from.
    pub closed spec fn args(&self) -> Seq<Seq<char>> {
        strs(self.pi_args@)
    }

    /// Where the run stands.
    pub closed spec fn phase(&self) -> HealPhase {
        self.phase
    }

    /// The culprit named by the search, once there is one.
    pub closed spec fn culprit(&self) -> Option<Seq<char>> {
        opt_view(self.culprit)
    }

    /// The run's state is consistent with its arguments.
    pub closed spec fn wf(&self) -> bool {
        &&& strs(self.paths@) == ext_paths(self.args())
        &&& strs(self.bare_args@) == disabled_v(self.args())
        &&& strs(self.relaunch_args@) == relaunch_args_v(self.args(), self.culprit())
        &&& match self.phase {
            HealPhase::Search(s) => s.wf() && s.count == self.paths@.len() && s.phase
                != BisectPhase::Done,
            HealPhase::Bare => self.paths@.len() > 0,
            _ => true,
        }
    }

    /// Start a run: the first probe boots Pi with all of `pi_args`.
    pub fn start(pi_args: Vec<String>) -> (r: (SelfHeal, HealAction))
        ensures
            r.0.wf(),
            r.0.args() == strs(pi_args@),
            r.0.phase() == HealPhase::Full,
            r.0.culprit() is None,
            r.1 matches HealAction::Probe(x) && strs(x@) == strs(pi_args@),
    {
        let paths = extract_extension_paths(pi_args.as_slice());
        let bare_args = disable_all_extensions(pi_args.as_slice());
        let relaunch_args = disable_all_extensions(pi_args.as_slice());
        let first = copy_all(&pi_args);
        (SelfHeal { pi_args, paths, bare_args, culprit: None, relaunch_args, phase: HealPhase::Full }, HealAction::Probe(first))
    }

    /// Record whether the pending boot succeeded and decide the next
    /// action. After all arguments booted, Pi is done with them; without
    /// extensions to blame, or when Pi fails even with every extension
    /// disabled, the run gives up; otherwise the culprit search probes
    /// subsets on top of the extension-free arguments, and its result
    /// decides the relaunch: without the culprit, or with every extension
    /// disabled. A failed relaunch gives up.
    pub fn advance(&mut self, booted: bool) -> (a: HealAction)
        requires
            old(self).wf(),
            old(self).phase() != HealPhase::Over,
        ensures
            final(self).wf(),
            final(self).args() == old(self).args(),
            ({
                let args = old(self).args();
                match old(self).phase() {
                    HealPhase::Full => if booted {
                        &&& a matches HealAction::Done(x) && strs(x@) == args
                        &&& final(self).phase() == HealPhase::Over
                    } else if ext_paths(args).len() == 0 {
                        &&& a matches HealAction::Fail(e) && e == HealError::NoExtensions
                        &&& final(self).phase() == HealPhase::Over
                    } else {
                        &&& a matches HealAction::Probe(x) && strs(x@) == disabled_v(args)
                        &&& final(self).phase() == HealPhase::Bare
                    },
                    HealPhase::Bare => if !booted {
                        &&& a matches HealAction::Fail(e) && e == HealError::NotExtensionProblem
                        &&& final(self).phase() == HealPhase::Over
                    } else {
                        &&& a matches HealAction::Probe(x) && strs(x@) == probe_args_spec(
                            disabled_v(args),
                            ext_paths(args),
                        )
                        &&& final(self).phase() == HealPhase::Search(
                            CulpritSearch { count: ext_paths(args).len() as usize, phase: BisectPhase::Full },
                        )
                    },
                    HealPhase::Search(s) => {
                        let (next, b) = s.step(booted);
                        match b {
                            BisectAction::Probe(sub) => {
                                &&& a matches HealAction::Probe(x) && strs(x@) == probe_args_spec(
                                    disabled_v(args),
                                    subset_paths(ext_paths(args), sub),
                                )
                                &&& final(self).phase() == HealPhase::Search(next)
                            },
                            BisectAction::Finished(found) => {
                                let culprit = match found {
                                    Some(i) => Some(ext_paths(args)[i as int]),
                                    None => None,
                                };
                                &&& a matches HealAction::Relaunch { culprit: c, args: x }
                                    && opt_view(c) == culprit && strs(x@) == relaunch_args_v(
                                    args,
                                    culprit,
                                )
                                &&& final(self).culprit() == culprit
                                &&& final(self).phase() == HealPhase::Relaunch
                            },
                        }
                    },
                    HealPhase::Relaunch => {
                        &&& final(self).phase() == HealPhase::Over
                        &&& if booted {
                            a matches HealAction::Done(x) && strs(x@) == relaunch_args_v(
                                args,
                                old(self).culprit(),
                            )
                        } else {
                            a matches HealAction::Fail(e) && e == (if old(self).culprit() is Some {
                                HealError::RelaunchFailed
                            } else {
                                HealError::FallbackFailed
                            })
                        }
                    },
                    HealPhase::Over => true,
                }
            }),
    {
        match self.phase {
            HealPhase::Full => {
                if booted {
                    self.phase = HealPhase::Over;
                    HealAction::Done(copy_all(&self.pi_args))
                } else if self.paths.len() == 0 {
                    self.phase = HealPhase::Over;
                    HealAction::Fail(HealError::NoExtensions)
                } else {
                    self.phase = HealPhase::Bare;
                    HealAction::Probe(copy_all(&self.bare_args))
                }
            },
            HealPhase::Bare => {
                if !booted {
                    self.phase = HealPhase::Over;
                    HealAction::Fail(HealError::NotExtensionProblem)
                } else {
                    let (s, _first) = CulpritSearch::start(self.paths.len());
                    self.phase = HealPhase::Search(s);
                    proof {
                        assert(strs(self.paths@).take(self.paths@.len() as int) =~= strs(self.paths@));
                    }
                    HealAction::Probe(probe_args(self.bare_args.as_slice(), self.paths.as_slice()))
                }
            },
            HealPhase::Search(s) => {
                let mut next = s;
                let b = next.advance(booted);
                proof {
                    lemma_step_progress(s, booted);
                }
                match b {
                    BisectAction::Probe(sub) => {
                        self.phase = HealPhase::Search(next);
                        let chosen = match sub {
                            ProbeSubset::Prefix(k) => copy_prefix(&self.paths, k),
                            ProbeSubset::Single(i) => copy_prefix_one(&self.paths, i),
                        };
                        HealAction::Probe(probe_args(self.bare_args.as_slice(), chosen.as_slice()))
                    },
                    BisectAction::Finished(found) => {
                        self.phase = HealPhase::Relaunch;
                        match found {
                            Some(i) => {
                                let path = self.paths[i].clone();
                                self.relaunch_args = remove_extension_path(
                                    self.pi_args.as_slice(),
                                    path.as_str(),
                                );
                                self.culprit = Some(path.clone());
                                HealAction::Relaunch {
                                    culprit: Some(path),
                                    args: copy_all(&self.relaunch_args),
                                }
                            },
                            None => {
                                self.relaunch_args = disable_all_extensions(self.pi_args.as_slice());
                                self.culprit = None;
                                HealAction::Relaunch {
                                    culprit: None,
                                    args: copy_all(&self.relaunch_args),
                                }
                            },
                        }
                    },
                }
            },
            HealPhase::Relaunch => {
                self.phase = HealPhase::Over;
                if booted {
                    HealAction::Done(copy_all(&self.relaunch_args))
                } else if self.culprit.is_some() {
                    HealAction::Fail(HealError::RelaunchFailed)
                } else {
                    HealAction::Fail(HealError::FallbackFailed)
                }
            },
            HealPhase::Over => HealAction::Fail(HealError::FallbackFailed),
        }
    }
}

fn copy_all(v: &Vec<String>) -> (r: Vec<String>)
    ensures
        strs(r@) == strs(v@),
{
    let r = copy_prefix(v, v.len());
    assert(strs(v@).take(v@.len() as int) =~= strs(v@));
    r
}

fn copy_prefix(v: &Vec<String>, k: usize) -> (r: Vec<String>)
    requires
        k <= v@.len(),
    ensures
        strs(r@) == strs(v@).take(k as int),
{
    let mut r: Vec<String> = Vec::new();
    let mut i: usize = 0;
    while i < k
        invariant
            i <= k <= v@.len(),
            strs(r@) == strs(v@).take(i as int),
        decreases k - i,
    {
        let ghost before = strs(r@);
        r.push(v[i].clone());
        assert(strs(r@) =~= before.push(v@[i as int]@));
        assert(strs(v@).take(i + 1) =~= strs(v@).take(i as int).push(v@[i as int]@));
        i = i + 1;
    }
    r
}

fn copy_prefix_one(v: &Vec<String>, i: usize) -> (r: Vec<String>)
    requires
        i < v@.len(),
    ensures
        strs(r@) == seq![strs(v@)[i as int]],
{
    let mut r: Vec<String> = Vec::new();
    r.push(v[i].clone());
    assert(strs(r@) =~= seq![strs(v@)[i as int]]);
    r
}

} // verus!

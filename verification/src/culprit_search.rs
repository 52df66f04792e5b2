//! The decisions of extension self-healing: which subset of extensions to
//! probe next, and when the crashing extension has been isolated.
//!
//! The search first probes the full set; if that fails it binary-searches
//! for the shortest failing prefix, confirms the suspect alone, and if the
//! suspect passes alone (a combination conflict) tries each extension alone.
//! Running the probes is the caller's business: it performs the requested
//! probe and feeds back whether Pi booted.
use vstd::prelude::*;

verus! {

/// A set of extensions to load in one probe.
#[derive(Clone, Copy, Debug, PartialEq, Eq)]
pub enum ProbeSubset {
    /// The first `k` extensions, in order.
    Prefix(usize),
    /// Only the extension at this index.
    Single(usize),
}

/// What the caller does next.
#[derive(Clone, Copy, Debug, PartialEq, Eq)]
pub enum BisectAction {
    /// Boot Pi with this subset and report whether bootstrap succeeded.
    Probe(ProbeSubset),
    /// The search is over: the culprit's index, or `None` when no single
    /// extension could be isolated.
    Finished(Option<usize>),
}

/// Which probe is pending.
#[derive(Clone, Copy, Debug, PartialEq, Eq)]
pub enum BisectPhase {
    /// The full set is being probed.
    Full,
    /// Binary search: prefix `lo` is assumed good, prefix `hi` failed,
    /// prefix `mid` is being probed.
    Narrow { lo: usize, hi: usize, mid: usize },
    /// The single extension `lo` is being probed.
    Suspect { lo: usize },
    /// Each extension alone, in order; `next` is being probed.
    Scan { next: usize },
    /// Nothing is pending.
    Done,
}

/// The state of one culprit search over `count` extensions.
#[derive(Clone, Copy, Debug, PartialEq, Eq)]
pub struct CulpritSearch {
    pub count: usize,
    pub phase: BisectPhase,
}

impl CulpritSearch {
    /// The phases are consistent with `count` extensions.
    pub open spec fn wf(self) -> bool {
        &&& self.count > 0
        &&& match self.phase {
            BisectPhase::Full => true,
            BisectPhase::Narrow { lo, hi, mid } => lo < mid < hi <= self.count && mid == (lo + hi)
                / 2,
            BisectPhase::Suspect { lo } => lo < self.count,
            BisectPhase::Scan { next } => next < self.count,
            BisectPhase::Done => true,
        }
    }

    /// The subset whose probe result `advance` expects.
    pub open spec fn pending(self) -> Option<ProbeSubset> {
        match self.phase {
            BisectPhase::Full => Some(ProbeSubset::Prefix(self.count)),
            BisectPhase::Narrow { mid, .. } => Some(ProbeSubset::Prefix(mid)),
            BisectPhase::Suspect { lo } => Some(ProbeSubset::Single(lo)),
            BisectPhase::Scan { next } => Some(ProbeSubset::Single(next)),
            BisectPhase::Done => None,
        }
    }

    /// An upper bound on the probes still to run.
    pub open spec fn measure(self) -> nat {
        match self.phase {
            BisectPhase::Full => (2 * self.count + 2) as nat,
            BisectPhase::Narrow { lo, hi, .. } => (self.count + 1 + hi - lo) as nat,
            BisectPhase::Suspect { .. } => (self.count + 1) as nat,
            BisectPhase::Scan { next } => (self.count - next) as nat,
            BisectPhase::Done => 0,
        }
    }

    /// The action that announces the state's pending probe.
    pub open spec fn action_of(self) -> BisectAction {
        match self.pending() {
            Some(p) => BisectAction::Probe(p),
            None => BisectAction::Finished(None),
        }
    }

    /// Continue binary search over the prefix range `(lo, hi]`.
    pub open spec fn narrow_or_suspect(count: usize, lo: usize, hi: usize) -> CulpritSearch {
        if lo + 1 < hi {
            CulpritSearch {
                count,
                phase: BisectPhase::Narrow { lo, hi, mid: ((lo + hi) / 2) as usize },
            }
        } else {
            CulpritSearch { count, phase: BisectPhase::Suspect { lo } }
        }
    }

    /// The state after the pending probe reported `ok`, and the action.
    pub open spec fn step(self, ok: bool) -> (CulpritSearch, BisectAction) {
        let done = CulpritSearch { count: self.count, phase: BisectPhase::Done };
        match self.phase {
            BisectPhase::Full => if ok {
                (done, BisectAction::Finished(None))
            } else {
                let s = Self::narrow_or_suspect(self.count, 0, self.count);
                (s, s.action_of())
            },
            BisectPhase::Narrow { lo, hi, mid } => {
                let s = if ok {
                    Self::narrow_or_suspect(self.count, mid, hi)
                } else {
                    Self::narrow_or_suspect(self.count, lo, mid)
                };
                (s, s.action_of())
            },
            BisectPhase::Suspect { lo } => if !ok {
                (done, BisectAction::Finished(Some(lo)))
            } else {
                let s = CulpritSearch { count: self.count, phase: BisectPhase::Scan { next: 0 } };
                (s, s.action_of())
            },
            BisectPhase::Scan { next } => if !ok {
                (done, BisectAction::Finished(Some(next)))
            } else if next + 1 < self.count {
                let s = CulpritSearch {
                    count: self.count,
                    phase: BisectPhase::Scan { next: (next + 1) as usize },
                };
                (s, s.action_of())
            } else {
                (done, BisectAction::Finished(None))
            },
            BisectPhase::Done => (self, BisectAction::Finished(None)),
        }
    }

    fn narrow_or_suspect_exec(count: usize, lo: usize, hi: usize) -> (r: CulpritSearch)
        requires
            0 < count,
            lo < hi <= count,
        ensures
            r == Self::narrow_or_suspect(count, lo, hi),
            r.wf(),
    {
        if hi - lo > 1 {
            let mid = lo + (hi - lo) / 2;
            CulpritSearch { count, phase: BisectPhase::Narrow { lo, hi, mid } }
        } else {
            CulpritSearch { count, phase: BisectPhase::Suspect { lo } }
        }
    }

    fn action(&self) -> (a: BisectAction)
        ensures
            a == self.action_of(),
    {
        match self.phase {
            BisectPhase::Full => BisectAction::Probe(ProbeSubset::Prefix(self.count)),
            BisectPhase::Narrow { mid, .. } => BisectAction::Probe(ProbeSubset::Prefix(mid)),
            BisectPhase::Suspect { lo } => BisectAction::Probe(ProbeSubset::Single(lo)),
            BisectPhase::Scan { next } => BisectAction::Probe(ProbeSubset::Single(next)),
            BisectPhase::Done => BisectAction::Finished(None),
        }
    }

    /// Begin a search over `count` extensions; the first probe loads all of
    /// them.
    pub fn start(count: usize) -> (r: (CulpritSearch, BisectAction))
        requires
            count > 0,
        ensures
            r.0 == (CulpritSearch { count, phase: BisectPhase::Full }),
            r.0.wf(),
            r.1 == BisectAction::Probe(ProbeSubset::Prefix(count)),
    {
        (CulpritSearch { count, phase: BisectPhase::Full }, BisectAction::Probe(
            ProbeSubset::Prefix(count),
        ))
    }

    /// Record the result of the pending probe and decide the next action.
    pub fn advance(&mut self, ok: bool) -> (a: BisectAction)
        requires
            old(self).wf(),
        ensures
            (*final(self), a) == old(self).step(ok),
            final(self).wf(),
    {
        let count = self.count;
        match self.phase {
            BisectPhase::Full => {
                if ok {
                    self.phase = BisectPhase::Done;
                    BisectAction::Finished(None)
                } else {
                    *self = Self::narrow_or_suspect_exec(count, 0, count);
                    self.action()
                }
            },
            BisectPhase::Narrow { lo, hi, mid } => {
                if ok {
                    *self = Self::narrow_or_suspect_exec(count, mid, hi);
                } else {
                    *self = Self::narrow_or_suspect_exec(count, lo, mid);
                }
                self.action()
            },
            BisectPhase::Suspect { lo } => {
                if !ok {
                    self.phase = BisectPhase::Done;
                    BisectAction::Finished(Some(lo))
                } else {
                    self.phase = BisectPhase::Scan { next: 0 };
                    self.action()
                }
            },
            BisectPhase::Scan { next } => {
                if !ok {
                    self.phase = BisectPhase::Done;
                    BisectAction::Finished(Some(next))
                } else if next + 1 < count {
                    self.phase = BisectPhase::Scan { next: next + 1 };
                    self.action()
                } else {
                    self.phase = BisectPhase::Done;
                    BisectAction::Finished(None)
                }
            },
            BisectPhase::Done => BisectAction::Finished(None),
        }
    }
}

/// Every step from a pending probe strictly shrinks the bound on the probes
/// left, so a search always finishes; a search finishes exactly when it
/// reaches `Done`, and it only names a culprit whose probe alone just failed.
pub proof fn lemma_step_progress(s: CulpritSearch, ok: bool)
    requires
        s.wf(),
        s.phase != BisectPhase::Done,
    ensures
        s.step(ok).0.wf(),
        s.step(ok).0.measure() < s.measure(),
        s.step(ok).1 is Finished <==> s.step(ok).0.phase == BisectPhase::Done,
        s.step(ok).1 matches BisectAction::Finished(Some(i)) ==> s.pending() == Some(
            ProbeSubset::Single(i),
        ) && !ok && i < s.count,
        s.step(ok).1 matches BisectAction::Probe(p) ==> s.step(ok).0.pending() == Some(p),
{
}

/// Probe outcomes when extension `culprit` alone crashes Pi: a prefix boots
/// iff it stops before the culprit, a single extension iff it is not the
/// culprit.
pub open spec fn single_culprit_outcome(culprit: int, p: ProbeSubset) -> bool {
    match p {
        ProbeSubset::Prefix(k) => k <= culprit,
        ProbeSubset::Single(i) => i != culprit,
    }
}

/// The result of running the search to completion against probe outcomes
/// given by `culprit` (with `fuel` bounding the steps).
pub open spec fn run_single_culprit(s: CulpritSearch, culprit: int, fuel: nat) -> Option<
    Option<usize>,
>
    decreases fuel,
{
    match s.pending() {
        None => None,
        Some(p) => {
            let (next, action) = s.step(single_culprit_outcome(culprit, p));
            match action {
                BisectAction::Finished(r) => Some(r),
                BisectAction::Probe(_) => if fuel == 0 {
                    None
                } else {
                    run_single_culprit(next, culprit, (fuel - 1) as nat)
                },
            }
        },
    }
}

proof fn lemma_narrow_finds(s: CulpritSearch, culprit: int, fuel: nat)
    requires
        s.wf(),
        0 <= culprit < s.count,
        fuel >= s.measure(),
        match s.phase {
            BisectPhase::Narrow { lo, hi, .. } => lo <= culprit < hi,
            BisectPhase::Suspect { lo } => lo == culprit,
            _ => false,
        },
    ensures
        run_single_culprit(s, culprit, fuel) == Some(Some(culprit as usize)),
    decreases s.measure(),
{
    let p = s.pending().unwrap();
    let ok = single_culprit_outcome(culprit, p);
    let (next, action) = s.step(ok);
    lemma_step_progress(s, ok);
    match s.phase {
        BisectPhase::Narrow { lo, hi, mid } => {
            if ok {
                assert(mid <= culprit);
            } else {
                assert(culprit < mid);
            }
            assert(action is Probe);
            lemma_narrow_finds(next, culprit, (fuel - 1) as nat);
        },
        _ => {},
    }
}

/// When exactly one extension crashes Pi (every probe containing it fails,
/// every other probe boots), the search names that extension.
pub proof fn lemma_single_culprit_found(count: usize, culprit: usize)
    requires
        culprit < count,
    ensures
        run_single_culprit(
            CulpritSearch { count, phase: BisectPhase::Full },
            culprit as int,
            (2 * count + 2) as nat,
        ) == Some(Some(culprit)),
{
    let s = CulpritSearch { count, phase: BisectPhase::Full };
    let (next, action) = s.step(false);
    lemma_step_progress(s, false);
    lemma_narrow_finds(next, culprit as int, (2 * count + 1) as nat);
}

} // verus!

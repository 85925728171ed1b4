//! The order in which the lifecycle stages visit the injections: validate
//! all, register all, export all, run the caller's work, then shut down the
//! registered injections in reverse order. Only the outcome of each step
//! (success or failure) steers it.
use vstd::prelude::*;

verus! {

/// One step of a run.
#[derive(Debug, Clone, Copy, PartialEq, Eq, Structural)]
pub enum Step {
    Validate(usize),
    Register(usize),
    Export(usize),
    Work,
    Shutdown(usize),
    Done,
}

/// The phase a run is in.
#[derive(Debug, Clone, Copy, PartialEq, Eq, Structural)]
pub enum Phase {
    Validating,
    Registering,
    Exporting,
    Working,
    ShuttingDown,
    Finished,
}

/// The indices `hi - 1`, `hi - 2`, ..., `lo`, in that order.
pub open spec fn descending(hi: int, lo: int) -> Seq<int> {
    Seq::new((hi - lo) as nat, |j: int| hi - 1 - j)
}

/// The indices of the shutdown steps in a history, in order.
pub open spec fn shutdown_steps(h: Seq<(Step, bool)>) -> Seq<int>
    decreases h.len(),
{
    if h.len() == 0 {
        seq![]
    } else {
        shutdown_steps(h.drop_last()) + match h.last().0 {
            Step::Shutdown(i) => seq![i as int],
            _ => seq![],
        }
    }
}

/// Whether a history holds a failed shutdown step.
pub open spec fn shutdown_failed(h: Seq<(Step, bool)>) -> bool {
    exists|j: int| 0 <= j < h.len() && #[trigger] h[j].0 is Shutdown && !h[j].1
}

/// Whether a history holds a failed validation.
pub open spec fn validation_failed(h: Seq<(Step, bool)>) -> bool {
    exists|j: int| 0 <= j < h.len() && #[trigger] h[j].0 is Validate && !h[j].1
}

/// Whether a history holds a failed registration.
pub open spec fn registration_failed(h: Seq<(Step, bool)>) -> bool {
    exists|j: int| 0 <= j < h.len() && #[trigger] h[j].0 is Register && !h[j].1
}

/// Every step after a shutdown step is a shutdown step too.
pub open spec fn shutdowns_last(h: Seq<(Step, bool)>) -> bool {
    forall|i: int, j: int|
        0 <= i < j < h.len() && (#[trigger] h[i]).0 is Shutdown ==> (#[trigger] h[j]).0 is Shutdown
}

/// Whether some step other than a shutdown failed.
pub open spec fn stage_failed(h: Seq<(Step, bool)>) -> bool {
    exists|j: int| 0 <= j < h.len() && !(#[trigger] h[j]).1 && !(h[j].0 is Shutdown)
}

/// Every step after a failed step other than a shutdown is a shutdown step.
pub open spec fn only_shutdowns_after_failure(h: Seq<(Step, bool)>) -> bool {
    forall|i: int, j: int|
        0 <= i < j < h.len() && !(#[trigger] h[i]).1 && !(h[i].0 is Shutdown) ==> (#[trigger] h[j]).0 is Shutdown
}

/// Whether a history holds no shutdown step.
pub open spec fn no_shutdowns(h: Seq<(Step, bool)>) -> bool {
    forall|j: int| 0 <= j < h.len() ==> !((#[trigger] h[j]).0 is Shutdown)
}

/// Whether a history holds a failed registration of injection `k`.
pub open spec fn register_failed_at(h: Seq<(Step, bool)>, k: usize) -> bool {
    exists|j: int| 0 <= j < h.len() && #[trigger] h[j] == (Step::Register(k), false)
}

/// Which step a run takes next, and the steps it has taken with their outcomes.
pub struct Schedule {
    count: usize,
    phase: Phase,
    cursor: usize,
    registered: usize,
    history: Ghost<Seq<(Step, bool)>>,
}

impl Schedule {
    /// The steps taken so far, each with its outcome.
    pub closed spec fn spec_history(&self) -> Seq<(Step, bool)> {
        self.history@
    }

    /// The number of injections.
    pub closed spec fn spec_count(&self) -> nat {
        self.count as nat
    }

    /// The number of injections that registered.
    pub closed spec fn spec_registered(&self) -> nat {
        self.registered as nat
    }

    pub closed spec fn spec_phase(&self) -> Phase {
        self.phase
    }

    /// The step the run takes next.
    pub closed spec fn spec_current(&self) -> Step {
        match self.phase {
            Phase::Validating => Step::Validate(self.cursor),
            Phase::Registering => Step::Register(self.cursor),
            Phase::Exporting => Step::Export(self.cursor),
            Phase::Working => Step::Work,
            Phase::ShuttingDown => Step::Shutdown((self.cursor - 1) as usize),
            Phase::Finished => Step::Done,
        }
    }

    /// An upper bound on the steps left.
    pub closed spec fn remaining(&self) -> nat {
        let n = self.count as int;
        let c = self.cursor as int;
        (match self.phase {
            Phase::Validating => (n - c) + 3 * n + 1,
            Phase::Registering => (n - c) + 2 * n + 1,
            Phase::Exporting => (n - c) + n + 1,
            Phase::Working => n + 1,
            Phase::ShuttingDown => c,
            Phase::Finished => 0,
        }) as nat
    }

    /// The invariant of a run.
    pub closed spec fn wf(&self) -> bool {
        let h = self.history@;
        &&& self.registered <= self.count
        &&& match self.phase {
            Phase::Validating => self.cursor < self.count && self.registered == 0,
            Phase::Registering => self.cursor < self.count && self.registered == self.cursor,
            Phase::Exporting => self.cursor < self.count && self.registered == self.count,
            Phase::Working => self.registered == self.count,
            Phase::ShuttingDown => 0 < self.cursor <= self.registered,
            Phase::Finished => self.cursor <= self.registered,
        }
        &&& (self.phase == Phase::ShuttingDown || self.phase == Phase::Finished)
            ==> shutdown_steps(h) == descending(self.registered as int, self.cursor as int)
        &&& !(self.phase == Phase::ShuttingDown || self.phase == Phase::Finished)
            ==> shutdown_steps(h).len() == 0
        &&& (self.phase == Phase::Finished ==> self.cursor == 0)
        &&& (validation_failed(h) ==> self.phase == Phase::Finished && self.registered == 0
            && self.cursor == 0)
        &&& shutdowns_last(h)
        &&& only_shutdowns_after_failure(h)
        &&& (stage_failed(h) ==> self.phase == Phase::ShuttingDown || self.phase == Phase::Finished)
        &&& (!(self.phase == Phase::ShuttingDown || self.phase == Phase::Finished) ==> no_shutdowns(h))
        &&& (!validation_failed(h) && !registration_failed(h) && self.phase != Phase::Validating
            && self.phase != Phase::Registering ==> self.registered == self.count)
        &&& forall|k: usize| #[trigger] register_failed_at(h, k) ==> k == self.registered
            && self.phase != Phase::Validating && self.phase != Phase::Registering
    }

    /// A run over `count` injections, before its first step.
    pub fn new(count: usize) -> (r: Schedule)
        ensures
            r.wf(),
            r.spec_count() == count,
            r.spec_history().len() == 0,
            r.spec_current() == (if count > 0 {
                Step::Validate(0)
            } else {
                Step::Work
            }),
    {
        let r = Schedule {
            count,
            phase: if count > 0 {
                Phase::Validating
            } else {
                Phase::Working
            },
            cursor: 0,
            registered: 0,
            history: Ghost(Seq::empty()),
        };
        assert(shutdown_steps(r.history@) =~= Seq::<int>::empty());
        r
    }

    /// The step the run takes next.
    pub fn current(&self) -> (r: Step)
        requires
            self.wf(),
        ensures
            r == self.spec_current(),
            r matches Step::Validate(i) ==> i < self.spec_count(),
            r matches Step::Register(i) ==> i < self.spec_count(),
            r matches Step::Export(i) ==> i < self.spec_count(),
            r matches Step::Shutdown(i) ==> i < self.spec_registered(),
            self.spec_registered() <= self.spec_count(),
    {
        match self.phase {
            Phase::Validating => Step::Validate(self.cursor),
            Phase::Registering => Step::Register(self.cursor),
            Phase::Exporting => Step::Export(self.cursor),
            Phase::Working => Step::Work,
            Phase::ShuttingDown => Step::Shutdown(self.cursor - 1),
            Phase::Finished => Step::Done,
        }
    }

    proof fn lemma_shutdown_steps_push(h: Seq<(Step, bool)>, e: (Step, bool))
        ensures
            shutdown_steps(h.push(e)) == shutdown_steps(h) + match e.0 {
                Step::Shutdown(i) => seq![i as int],
                _ => seq![],
            },
    {
        assert(h.push(e).drop_last() =~= h);
    }

    pub proof fn lemma_history_push(h: Seq<(Step, bool)>, e: (Step, bool))
        ensures
            shutdown_failed(h.push(e)) == (shutdown_failed(h) || (e.0 is Shutdown && !e.1)),
            validation_failed(h.push(e)) == (validation_failed(h) || (e.0 is Validate && !e.1)),
            registration_failed(h.push(e)) == (registration_failed(h) || (e.0 is Register && !e.1)),
            (shutdowns_last(h) && (e.0 is Shutdown || no_shutdowns(h))) ==> shutdowns_last(h.push(e)),
            no_shutdowns(h) && !(e.0 is Shutdown) ==> no_shutdowns(h.push(e)),
            stage_failed(h.push(e)) == (stage_failed(h) || (!e.1 && !(e.0 is Shutdown))),
            (only_shutdowns_after_failure(h) && (e.0 is Shutdown || !stage_failed(h))) ==> only_shutdowns_after_failure(h.push(e)),
            forall|k: usize| #[trigger]
                register_failed_at(h.push(e), k) == (register_failed_at(h, k) || e == (
                    Step::Register(k),
                    false,
                )),
    {
        let g = h.push(e);
        if shutdown_failed(h) {
            let j = choose|j: int| 0 <= j < h.len() && #[trigger] h[j].0 is Shutdown && !h[j].1;
            assert(g[j] == h[j]);
        }
        if shutdown_failed(g) {
            let j = choose|j: int| 0 <= j < g.len() && #[trigger] g[j].0 is Shutdown && !g[j].1;
            if j < h.len() {
                assert(g[j] == h[j]);
            }
        }
        if e.0 is Shutdown && !e.1 {
            assert(g[h.len() as int] == e);
        }
        if validation_failed(h) {
            let j = choose|j: int| 0 <= j < h.len() && #[trigger] h[j].0 is Validate && !h[j].1;
            assert(g[j] == h[j]);
        }
        if validation_failed(g) {
            let j = choose|j: int| 0 <= j < g.len() && #[trigger] g[j].0 is Validate && !g[j].1;
            if j < h.len() {
                assert(g[j] == h[j]);
            }
        }
        if e.0 is Validate && !e.1 {
            assert(g[h.len() as int] == e);
        }
        if registration_failed(h) {
            let j = choose|j: int| 0 <= j < h.len() && #[trigger] h[j].0 is Register && !h[j].1;
            assert(g[j] == h[j]);
        }
        if registration_failed(g) {
            let j = choose|j: int| 0 <= j < g.len() && #[trigger] g[j].0 is Register && !g[j].1;
            if j < h.len() {
                assert(g[j] == h[j]);
            }
        }
        if e.0 is Register && !e.1 {
            assert(g[h.len() as int] == e);
        }
        if shutdowns_last(h) && (e.0 is Shutdown || no_shutdowns(h)) {
            assert forall|i: int, j: int|
                0 <= i < j < g.len() && (#[trigger] g[i]).0 is Shutdown implies (#[trigger] g[j]).0 is Shutdown by {
                assert(g[i] == h[i]);
                if j < h.len() {
                    assert(g[j] == h[j]);
                }
            }
        }
        if stage_failed(h) {
            let j = choose|j: int| 0 <= j < h.len() && !(#[trigger] h[j]).1 && !(h[j].0 is Shutdown);
            assert(g[j] == h[j]);
        }
        if stage_failed(g) {
            let j = choose|j: int| 0 <= j < g.len() && !(#[trigger] g[j]).1 && !(g[j].0 is Shutdown);
            if j < h.len() {
                assert(g[j] == h[j]);
            }
        }
        if !e.1 && !(e.0 is Shutdown) {
            assert(g[h.len() as int] == e);
        }
        if only_shutdowns_after_failure(h) && (e.0 is Shutdown || !stage_failed(h)) {
            assert forall|i: int, j: int|
                0 <= i < j < g.len() && !(#[trigger] g[i]).1 && !(g[i].0 is Shutdown) implies (#[trigger] g[j]).0 is Shutdown by {
                assert(g[i] == h[i]);
                if j < h.len() {
                    assert(g[j] == h[j]);
                }
            }
        }
        if no_shutdowns(h) && !(e.0 is Shutdown) {
            assert forall|j: int| 0 <= j < g.len() implies !((#[trigger] g[j]).0 is Shutdown) by {
                if j < h.len() {
                    assert(g[j] == h[j]);
                }
            }
        }
        assert forall|k: usize| #[trigger]
            register_failed_at(g, k) == (register_failed_at(h, k) || e == (Step::Register(k), false)) by {
            if register_failed_at(h, k) {
                let j = choose|j: int| 0 <= j < h.len() && #[trigger] h[j] == (
                    Step::Register(k),
                    false,
                );
                assert(g[j] == h[j]);
            }
            if register_failed_at(g, k) {
                let j = choose|j: int| 0 <= j < g.len() && #[trigger] g[j] == (
                    Step::Register(k),
                    false,
                );
                if j < h.len() {
                    assert(g[j] == h[j]);
                }
            }
            if e == (Step::Register(k), false) {
                assert(g[h.len() as int] == e);
            }
        }
    }

    /// Records the outcome of the current step and moves to the next one.
    /// A failed validation ends the run at once; a failed registration, a
    /// failed export and the caller's work, whatever its outcome, lead to the
    /// shutdown of the registered injections, last registered first; a
    /// failed shutdown does not stop that pass.
    pub fn report(&mut self, ok: bool)
        requires
            old(self).wf(),
            old(self).spec_current() != Step::Done,
        ensures
            final(self).wf(),
            final(self).spec_count() == old(self).spec_count(),
            final(self).spec_history() == old(self).spec_history().push((old(self).spec_current(), ok)),
            final(self).remaining() < old(self).remaining(),
            old(self).spec_current() matches Step::Register(i) ==> final(self).spec_registered() == (
                if ok {
                    i + 1
                } else {
                    i as int
                }),
            old(self).spec_current() matches Step::Register(i) ==> (!ok ==> (if i > 0 {
                final(self).spec_current() == Step::Shutdown((i - 1) as usize)
            } else {
                final(self).spec_current() == Step::Done
            })),
            old(self).spec_current() is Validate && !ok ==> final(self).spec_current() == Step::Done,
            old(self).spec_current() matches Step::Validate(i) ==> (ok ==> final(self).spec_current()
                == (if i + 1 < old(self).spec_count() {
                Step::Validate((i + 1) as usize)
            } else {
                Step::Register(0)
            })),
            old(self).spec_current() matches Step::Register(i) ==> (ok ==> final(self).spec_current()
                == (if i + 1 < old(self).spec_count() {
                Step::Register((i + 1) as usize)
            } else {
                Step::Export(0)
            })),
            old(self).spec_current() matches Step::Export(i) ==> (ok ==> final(self).spec_current()
                == (if i + 1 < old(self).spec_count() {
                Step::Export((i + 1) as usize)
            } else {
                Step::Work
            })),
            !(old(self).spec_current() is Register) ==> final(self).spec_registered() == old(self).spec_registered(),
            old(self).spec_current() matches Step::Shutdown(c) ==> final(self).spec_current() == (if c > 0 {
                Step::Shutdown((c - 1) as usize)
            } else {
                Step::Done
            }),
            (old(self).spec_current() is Work || (old(self).spec_current() is Export && !ok)) ==> final(self).spec_current() == (if old(self).spec_registered() > 0 {
                Step::Shutdown((old(self).spec_registered() - 1) as usize)
            } else {
                Step::Done
            }),
            (old(self).spec_current() is Work || old(self).spec_current() is Shutdown || (old(self).spec_current() is Export && !ok)) ==> (final(self).spec_current() is Shutdown || final(self).spec_current() is Done),
    {
        let ghost step = self.spec_current();
        let ghost h = self.history@;
        proof {
            Self::lemma_shutdown_steps_push(h, (step, ok));
            Self::lemma_history_push(h, (step, ok));
        }
        self.history = Ghost(self.history@.push((step, ok)));
        match self.phase {
            Phase::Validating => {
                if !ok {
                    self.phase = Phase::Finished;
                    self.cursor = 0;
                    assert(shutdown_steps(self.history@) =~= descending(0, 0));
                } else if self.cursor + 1 < self.count {
                    self.cursor = self.cursor + 1;
                } else {
                    self.phase = Phase::Registering;
                    self.cursor = 0;
                }
            },
            Phase::Registering => {
                if !ok {
                    self.cursor = self.registered;
                    self.phase = if self.cursor > 0 {
                        Phase::ShuttingDown
                    } else {
                        Phase::Finished
                    };
                    assert(shutdown_steps(self.history@) =~= descending(
                        self.registered as int,
                        self.cursor as int,
                    ));
                } else {
                    self.registered = self.registered + 1;
                    if self.cursor + 1 < self.count {
                        self.cursor = self.cursor + 1;
                    } else {
                        self.phase = Phase::Exporting;
                        self.cursor = 0;
                    }
                }
            },
            Phase::Exporting => {
                if !ok {
                    self.cursor = self.registered;
                    self.phase = Phase::ShuttingDown;
                    assert(shutdown_steps(self.history@) =~= descending(
                        self.registered as int,
                        self.cursor as int,
                    ));
                } else if self.cursor + 1 < self.count {
                    self.cursor = self.cursor + 1;
                } else {
                    self.phase = Phase::Working;
                    self.cursor = 0;
                }
            },
            Phase::Working => {
                self.cursor = self.registered;
                self.phase = if self.cursor > 0 {
                    Phase::ShuttingDown
                } else {
                    Phase::Finished
                };
                assert(shutdown_steps(self.history@) =~= descending(
                    self.registered as int,
                    self.cursor as int,
                ));
            },
            Phase::ShuttingDown => {
                let ghost before = shutdown_steps(h);
                self.cursor = self.cursor - 1;
                if self.cursor == 0 {
                    self.phase = Phase::Finished;
                }
                assert(shutdown_steps(self.history@) =~= descending(
                    self.registered as int,
                    self.cursor as int,
                ));
            },
            Phase::Finished => {},
        }
    }

    /// Whether the run is over.
    pub fn is_done(&self) -> (r: bool)
        ensures
            r == (self.spec_current() == Step::Done),
    {
        match self.phase {
            Phase::Finished => true,
            _ => false,
        }
    }
}

/// When registration fails at the `k`-th injection (counting from one),
/// shutdown is invoked on injections `k - 1` down to `1`, in that order,
/// each exactly once, and never on injection `k` or a later one; a failed
/// shutdown does not stop the pass.
pub proof fn lemma_rollback_after_failed_registration(s: &Schedule, k: int)
    requires
        s.wf(),
        s.spec_current() == Step::Done,
        1 <= k <= usize::MAX,
        register_failed_at(s.spec_history(), (k - 1) as usize),
    ensures
        shutdown_steps(s.spec_history()) == descending(k - 1, 0),
        forall|j: int| 0 <= j < shutdown_steps(s.spec_history()).len() ==> shutdown_steps(s.spec_history())[j] < k - 1,
{
    assert(s.registered == k - 1);
    assert(shutdown_steps(s.spec_history()) == descending(k - 1, s.cursor as int));
}

/// A failed validation ends the run at once: nothing registered, and no
/// shutdown step was or will be taken.
pub proof fn lemma_failed_validation_ends_run(s: &Schedule)
    requires
        s.wf(),
        validation_failed(s.spec_history()),
    ensures
        s.spec_current() == Step::Done,
        s.spec_registered() == 0,
        shutdown_steps(s.spec_history()).len() == 0,
{
}

/// Shutdown steps come after every other step: once the run shuts
/// something down it only shuts down.
pub proof fn lemma_shutdowns_come_last(s: &Schedule)
    requires
        s.wf(),
    ensures
        shutdowns_last(s.spec_history()),
{
}

/// When no validation and no registration failed, every injection
/// registered, and a finished run shut all of them down, last first,
/// whatever happened in the export stage, the caller's work or another
/// shutdown.
pub proof fn lemma_full_shutdown_pass(s: &Schedule)
    requires
        s.wf(),
        s.spec_current() == Step::Done,
        !validation_failed(s.spec_history()),
        !registration_failed(s.spec_history()),
    ensures
        s.spec_registered() == s.spec_count(),
        shutdown_steps(s.spec_history()) == descending(s.spec_count() as int, 0),
{
}

/// After a failed validation, registration, export or work, the run takes
/// shutdown steps only: no later registration, export or work.
pub proof fn lemma_only_shutdowns_after_failure(s: &Schedule)
    requires
        s.wf(),
    ensures
        only_shutdowns_after_failure(s.spec_history()),
{
}

/// Once a step other than a shutdown failed, the run is shutting down or over.
pub proof fn lemma_stage_failure_leads_to_shutdown(s: &Schedule)
    requires
        s.wf(),
        stage_failed(s.spec_history()),
    ensures
        s.spec_current() is Shutdown || s.spec_current() == Step::Done,
{
}

/// The facts about the position of a run that its invariant gives.
pub proof fn lemma_current_in_range(s: &Schedule)
    requires
        s.wf(),
    ensures
        s.spec_registered() <= s.spec_count(),
        s.spec_current() matches Step::Shutdown(c) ==> c < s.spec_registered(),
        s.spec_current() matches Step::Register(i) ==> i == s.spec_registered() && i < s.spec_count(),
        s.spec_current() matches Step::Export(i) ==> s.spec_registered() == s.spec_count() && i < s.spec_count(),
        s.spec_current() matches Step::Validate(i) ==> s.spec_registered() == 0 && i < s.spec_count(),
        s.spec_current() is Work ==> s.spec_registered() == s.spec_count(),
{
}

} // verus!

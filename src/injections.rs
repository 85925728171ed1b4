//! The lifecycle engine over env, command and symlink injections.
//!
//! The engine decides everything and performs nothing outside itself: each
//! call of `next_request` says what the caller must do (probe a path, place
//! or remove a link, run a command, run its own work), and `reply` hands the
//! engine what came of it. Pure stages run inside the engine.
use vstd::prelude::*;
use vstd::string::*;

use crate::ambient::{pairs_view, EnvSnapshot};
use crate::command::{command_export_spec, CommandInjection, CommandOutput};
use crate::env::{blank, env_export_spec, env_validate_spec, EnvInjection};
use crate::envmap::in_key_order;
use crate::profile::InjectionProfile;
use crate::schedule::{shutdown_failed, stage_failed, Schedule, Step};
use crate::stage::{tagged, Stage, StageError};
use crate::symlink::{may_remove, register_decision, SymlinkInjection, TargetState};

verus! {

/// An enabled injection of one run.
pub enum RuntimeInjection {
    Env(EnvInjection),
    Command(CommandInjection),
    Symlink(SymlinkInjection),
}

/// The injection that a declaration becomes.
pub open spec fn runtime_of(p: InjectionProfile) -> RuntimeInjection {
    match p {
        InjectionProfile::Env(c) => RuntimeInjection::Env(EnvInjection { cfg: c }),
        InjectionProfile::Command(c) => RuntimeInjection::Command(CommandInjection { cfg: c }),
        InjectionProfile::Symlink(c) => RuntimeInjection::Symlink(
            SymlinkInjection { cfg: c, registered: false, created_link: false },
        ),
    }
}

/// The enabled declarations, in order.
pub open spec fn enabled_profiles(specs: Seq<InjectionProfile>) -> Seq<InjectionProfile>
    decreases specs.len(),
{
    if specs.len() == 0 {
        seq![]
    } else if specs.last().spec_enabled() {
        enabled_profiles(specs.drop_last()).push(specs.last())
    } else {
        enabled_profiles(specs.drop_last())
    }
}

/// The injections that a run builds from a list of declarations.
pub open spec fn runtimes(specs: Seq<InjectionProfile>) -> Seq<RuntimeInjection> {
    enabled_profiles(specs).map_values(|p: InjectionProfile| runtime_of(p))
}

/// Only enabled declarations become injections of a run, each once and in
/// order; a disabled one gets no injection, so no stage ever runs on it and
/// it exports nothing. A profile without an enabled declaration builds none.
pub proof fn lemma_only_enabled_injections_run(specs: Seq<InjectionProfile>)
    ensures
        forall|i: int|
            0 <= i < enabled_profiles(specs).len() ==> (#[trigger] enabled_profiles(
                specs,
            )[i]).spec_enabled() && specs.contains(enabled_profiles(specs)[i]),
        runtimes(specs).len() == enabled_profiles(specs).len(),
        (forall|i: int| 0 <= i < specs.len() ==> !(#[trigger] specs[i]).spec_enabled())
            ==> runtimes(specs).len() == 0,
    decreases specs.len(),
{
    if specs.len() > 0 {
        let init = specs.drop_last();
        lemma_only_enabled_injections_run(init);
        let e = enabled_profiles(specs);
        assert forall|i: int| 0 <= i < e.len() implies (#[trigger] e[i]).spec_enabled()
            && specs.contains(e[i]) by {
            if i < enabled_profiles(init).len() {
                assert(e[i] == enabled_profiles(init)[i]);
                let j = choose|j: int| 0 <= j < init.len() && init[j] == e[i];
                assert(specs[j] == e[i]);
            } else {
                assert(specs[specs.len() - 1] == e[i]);
            }
        }
        if forall|i: int| 0 <= i < specs.len() ==> !(#[trigger] specs[i]).spec_enabled() {
            assert forall|i: int| 0 <= i < init.len() implies !(#[trigger] init[i]).spec_enabled() by {
                assert(init[i] == specs[i]);
            }
            assert(!specs[specs.len() - 1].spec_enabled());
        }
    }
}

/// Builds one injection per enabled declaration, in order.
pub fn build_injections(specs: Vec<InjectionProfile>) -> (r: Vec<RuntimeInjection>)
    ensures
        r@ == runtimes(specs@),
{
    let ghost all = specs@;
    let n = specs.len();
    let mut rest = specs;
    let mut injections: Vec<RuntimeInjection> = Vec::new();
    let mut i: usize = 0;
    while rest.len() > 0
        invariant
            i <= all.len(),
            all.len() == n,
            rest@ == all.subrange(i as int, all.len() as int),
            injections@ == runtimes(all.subrange(0, i as int)),
        decreases rest.len(),
    {
        assert(all.subrange(0, i + 1).drop_last() =~= all.subrange(0, i as int));
        let spec = rest.remove(0);
        assert(spec == all[i as int]);
        match spec {
            InjectionProfile::Env(cfg) => {
                if cfg.enabled {
                    injections.push(RuntimeInjection::Env(EnvInjection::new(cfg)));
                }
            },
            InjectionProfile::Command(cfg) => {
                if cfg.enabled {
                    injections.push(RuntimeInjection::Command(CommandInjection::new(cfg)));
                }
            },
            InjectionProfile::Symlink(cfg) => {
                if cfg.enabled {
                    injections.push(RuntimeInjection::Symlink(SymlinkInjection::new(cfg)));
                }
            },
        }
        assert(injections@ =~= runtimes(all.subrange(0, i + 1)));
        i += 1;
        assert(rest@ =~= all.subrange(i as int, all.len() as int));
    }
    assert(all.subrange(0, i as int) =~= all);
    injections
}

/// The name of an injection's kind.
pub open spec fn kind_name(inj: RuntimeInjection) -> Seq<char> {
    match inj {
        RuntimeInjection::Env(_) => "env"@,
        RuntimeInjection::Command(_) => "command"@,
        RuntimeInjection::Symlink(_) => "symlink"@,
    }
}

impl RuntimeInjection {
    pub fn name(&self) -> (r: &'static str)
        ensures
            r@ == kind_name(*self),
    {
        match self {
            RuntimeInjection::Env(inner) => inner.name(),
            RuntimeInjection::Command(inner) => inner.name(),
            RuntimeInjection::Symlink(inner) => inner.name(),
        }
    }
}

/// What the caller must do next.
pub enum Request {
    /// Tell whether `source` exists.
    CheckSource { index: usize, source: String },
    /// Probe `target` without following symbolic links.
    ProbeTarget { index: usize, target: String },
    /// Remove what is at `target` when `replace_existing` holds, create the
    /// parent directories of `target`, then make `target` a symbolic link
    /// to `source`.
    PlaceLink { index: usize, source: String, target: String, replace_existing: bool },
    /// Remove the symbolic link at `target`.
    RemoveLink { index: usize, target: String },
    /// Run `program` with `args` and capture its standard output.
    RunCommand { index: usize, program: String, args: Vec<String> },
    /// Run the caller's own work with the exports gathered.
    Work,
    /// Nothing is left to do.
    Finished,
}

/// What came of the caller's action.
pub enum Reply {
    SourceExists(bool),
    Probed(Result<TargetState, String>),
    Done(Result<(), String>),
    Ran(Result<CommandOutput, String>),
}

/// What the engine is waiting for.
#[derive(Clone, Copy, PartialEq, Eq, Structural)]
pub enum Waiting {
    Nothing,
    Source,
    RegisterProbe,
    PlaceNext(bool),
    Place,
    Run,
    WorkDone,
    ShutdownProbe,
    RemoveNext,
    Remove,
}

/// What the caller reported for one step, as far as the step's outcome
/// depends on it.
pub enum Evidence {
    /// The engine decided the step alone.
    Internal,
    /// Whether the symlink source exists.
    Source(bool),
    /// The probe of the link target (none when probing failed) and whether
    /// placing the link succeeded.
    Placement(Option<TargetState>, bool),
    /// What running the command gave.
    Output(Result<CommandOutput, String>),
    /// Whether the caller's work succeeded.
    WorkOutcome(bool),
    /// The probe of the link target (none when probing failed) and whether
    /// removing the link succeeded.
    Removal(Option<TargetState>, bool),
    /// The caller answered with a reply of the wrong kind.
    Unexpected,
}

/// Whether a step concerns an injection among the first `n`, or none.
pub open spec fn step_in_range(step: Step, n: int) -> bool {
    match step {
        Step::Work => true,
        Step::Done => true,
        _ => 0 <= step_index(step) < n,
    }
}

/// Whether a step that the engine finished without the caller is one whose
/// outcome cannot depend on the caller: it carries no report, and is not the
/// work, the validation or registration of a symlink, the export of a
/// command, or the shutdown of a symlink that asks for cleanup.
pub open spec fn internal_entry(step: Step, ev: Evidence, inj: RuntimeInjection) -> bool {
    ev == Evidence::Internal && match step {
        Step::Work => false,
        Step::Done => false,
        _ => match inj {
            RuntimeInjection::Env(_) => true,
            RuntimeInjection::Command(_) => !(step is Export),
            RuntimeInjection::Symlink(s) => step is Export || (step is Shutdown && !s.cfg.cleanup),
        },
    }
}

/// Whether injection `i` is still owed its shutdown step at `step`.
pub open spec fn awaiting_shutdown(step: Step, i: int) -> bool {
    match step {
        Step::Shutdown(c) => i <= c,
        Step::Done => false,
        _ => true,
    }
}

/// Whether `j` is the first failed shutdown step of a history.
pub open spec fn first_failed_shutdown_at(h: Seq<(Step, bool)>, j: int) -> bool {
    &&& 0 <= j < h.len()
    &&& h[j].0 is Shutdown
    &&& !h[j].1
    &&& forall|i: int| 0 <= i < j ==> !((#[trigger] h[i]).0 is Shutdown && !h[i].1)
}

/// The stage a step belongs to.
pub open spec fn stage_of(step: Step) -> Stage {
    match step {
        Step::Validate(_) => Stage::Validate,
        Step::Register(_) => Stage::Register,
        Step::Export(_) => Stage::Export,
        _ => Stage::Shutdown,
    }
}

/// Whether a step on injection `inj` succeeds, given what the caller
/// reported: validation follows the declaration (and, for a symlink, the
/// existence of its source); a symlink registers when the probe allows it
/// and the link was placed; a command exports when it ran successfully with
/// UTF-8 output; the work succeeds when the caller says so; a symlink shuts
/// down when no removal is owed, or the probe showed the link pointing to
/// its source and removing it succeeded. Every other step succeeds.
pub open spec fn verdict(inj: RuntimeInjection, step: Step, ev: Evidence, ambient: EnvSnapshot) -> bool {
    match step {
        Step::Validate(_) => match inj {
            RuntimeInjection::Env(e) => env_validate_spec(e.cfg) is None,
            RuntimeInjection::Command(c) => !blank(c.cfg.program@),
            RuntimeInjection::Symlink(s) => ev == Evidence::Source(true) && !blank(s.cfg.source@)
                && !blank(s.cfg.target@),
        },
        Step::Register(_) => match inj {
            RuntimeInjection::Symlink(s) => ev matches Evidence::Placement(Some(p), true)
                && register_decision(s.cfg.on_exist, p) is Some,
            _ => true,
        },
        Step::Export(_) => match inj {
            RuntimeInjection::Command(_) => ev matches Evidence::Output(run) && command_export_spec(
                run,
                ambient,
            ) is Some,
            _ => true,
        },
        Step::Work => ev == Evidence::WorkOutcome(true),
        Step::Shutdown(_) => match inj {
            RuntimeInjection::Symlink(s) => !s.cfg.cleanup || (ev matches Evidence::Removal(Some(p), true)
                && may_remove(s.cfg.source@, p)),
            _ => true,
        },
        Step::Done => true,
    }
}

/// One run of the lifecycle over a fixed list of injections.
pub struct Lifecycle {
    schedule: Schedule,
    injections: Vec<RuntimeInjection>,
    waiting: Waiting,
    exports: Vec<(String, String)>,
    failure: Option<String>,
    shutdown_failure: Option<String>,
    ambient: EnvSnapshot,
    resource_home: String,
    approved_probe: Ghost<TargetState>,
    initial: Ghost<Seq<RuntimeInjection>>,
    outputs: Ghost<Seq<Seq<(Seq<char>, Seq<char>)>>>,
    output_evidence: Ghost<Seq<Evidence>>,
    evidence: Ghost<Seq<Evidence>>,
    register_probe: Ghost<TargetState>,
    failure_origin: Ghost<(Step, Seq<char>)>,
    shutdown_origin: Ghost<(int, Seq<char>)>,
}

/// The pairs of every contribution, one after the other.
pub open spec fn concat_all(s: Seq<Seq<(Seq<char>, Seq<char>)>>) -> Seq<(Seq<char>, Seq<char>)>
    decreases s.len(),
{
    if s.len() == 0 {
        seq![]
    } else {
        concat_all(s.drop_last()) + s.last()
    }
}

/// Whether `out` is what injection `inj` exports: an env injection its
/// variables in key order, a command injection the assignments of the
/// output its command gave (`ev`), a symlink injection nothing.
pub open spec fn exported_by(
    inj: RuntimeInjection,
    out: Seq<(Seq<char>, Seq<char>)>,
    ev: Evidence,
    ambient: EnvSnapshot,
    root: Seq<char>,
) -> bool {
    match inj {
        RuntimeInjection::Env(e) => in_key_order(out, env_export_spec(e.cfg, ambient, root)),
        RuntimeInjection::Command(_) => ev matches Evidence::Output(run) && command_export_spec(
            run,
            ambient,
        ) == Some(out),
        RuntimeInjection::Symlink(_) => out.len() == 0,
    }
}

/// The same injection, up to the flags a symlink injection keeps.
pub open spec fn same_config(a: RuntimeInjection, b: RuntimeInjection) -> bool {
    match (a, b) {
        (RuntimeInjection::Symlink(x), RuntimeInjection::Symlink(y)) => x.cfg == y.cfg,
        _ => a == b,
    }
}

/// The same injections, up to the flags symlink injections keep.
pub open spec fn same_configs(a: Seq<RuntimeInjection>, b: Seq<RuntimeInjection>) -> bool {
    a.len() == b.len() && forall|j: int| 0 <= j < a.len() ==> same_config(#[trigger] a[j], b[j])
}

/// Whether a step and the injection it concerns call for the caller to act
/// while waiting as `w`.
pub open spec fn waits_on(w: Waiting, step: Step, inj: RuntimeInjection) -> bool {
    match w {
        Waiting::Nothing => true,
        Waiting::Source => step is Validate && inj is Symlink,
        Waiting::RegisterProbe | Waiting::PlaceNext(_) | Waiting::Place => step is Register
            && inj is Symlink,
        Waiting::Run => step is Export && inj is Command,
        Waiting::WorkDone => step is Work,
        Waiting::ShutdownProbe | Waiting::RemoveNext | Waiting::Remove => step is Shutdown
            && inj is Symlink,
    }
}

/// The index of the injection that a step concerns.
pub open spec fn step_index(step: Step) -> int {
    match step {
        Step::Validate(i) => i as int,
        Step::Register(i) => i as int,
        Step::Export(i) => i as int,
        Step::Shutdown(i) => i as int,
        _ => 0,
    }
}

/// Whether some step of a history failed.
pub open spec fn any_failed(h: Seq<(Step, bool)>) -> bool {
    exists|j: int| 0 <= j < h.len() && !(#[trigger] h[j]).1
}

/// A step failed exactly when a shutdown or another step failed.
pub proof fn lemma_any_failed_split(h: Seq<(Step, bool)>)
    ensures
        any_failed(h) <==> (stage_failed(h) || shutdown_failed(h)),
{
    if any_failed(h) {
        let j = choose|j: int| 0 <= j < h.len() && !(#[trigger] h[j]).1;
        if h[j].0 is Shutdown {
            assert(h[j].0 is Shutdown && !h[j].1);
            assert(shutdown_failed(h));
        } else {
            assert(stage_failed(h));
        }
    }
    if stage_failed(h) {
        let j = choose|j: int| 0 <= j < h.len() && !(#[trigger] h[j]).1 && !(h[j].0 is Shutdown);
        assert(!h[j].1);
    }
    if shutdown_failed(h) {
        let j = choose|j: int| 0 <= j < h.len() && #[trigger] h[j].0 is Shutdown && !h[j].1;
        assert(!h[j].1);
    }
}

proof fn lemma_any_failed_push(h: Seq<(Step, bool)>, e: (Step, bool))
    ensures
        any_failed(h.push(e)) == (any_failed(h) || !e.1),
{
    let g = h.push(e);
    if any_failed(h) {
        let j = choose|j: int| 0 <= j < h.len() && !(#[trigger] h[j]).1;
        assert(g[j] == h[j]);
    }
    if any_failed(g) {
        let j = choose|j: int| 0 <= j < g.len() && !(#[trigger] g[j]).1;
        if j < h.len() {
            assert(g[j] == h[j]);
        }
    }
    if !e.1 {
        assert(g[h.len() as int] == e);
    }
}

/// A copy of a list of strings.
fn clone_strings(v: &Vec<String>) -> (r: Vec<String>)
    ensures
        r@ == v@,
{
    let mut out: Vec<String> = Vec::new();
    let mut i: usize = 0;
    while i < v.len()
        invariant
            i <= v@.len(),
            out@ == v@.subrange(0, i as int),
        decreases v.len() - i,
    {
        out.push(v[i].clone());
        i += 1;
        assert(out@ =~= v@.subrange(0, i as int));
    }
    assert(v@.subrange(0, i as int) =~= v@);
    out
}

impl Lifecycle {
    /// Whether some stage failed so far.
    pub closed spec fn spec_failed(&self) -> bool {
        self.failure is Some || self.shutdown_failure is Some
    }

    /// The injections as the run built them.
    pub closed spec fn spec_initial(&self) -> Seq<RuntimeInjection> {
        self.initial@
    }

    /// What each exported injection contributed, in order.
    pub closed spec fn spec_outputs(&self) -> Seq<Seq<(Seq<char>, Seq<char>)>> {
        self.outputs@
    }

    /// The ambient environment of the run.
    pub closed spec fn spec_ambient(&self) -> EnvSnapshot {
        self.ambient
    }

    /// The resource root of the run.
    pub closed spec fn spec_resource_home(&self) -> Seq<char> {
        self.resource_home@
    }

    /// The schedule of the run.
    pub closed spec fn spec_schedule(&self) -> Schedule {
        self.schedule
    }

    /// The injections of the run.
    pub closed spec fn spec_injections(&self) -> Seq<RuntimeInjection> {
        self.injections@
    }

    /// What the engine waits for.
    pub closed spec fn spec_waiting(&self) -> Waiting {
        self.waiting
    }

    /// What the caller reported for each step of the history.
    pub closed spec fn spec_evidence(&self) -> Seq<Evidence> {
        self.evidence@
    }

    /// What each command export ran on, in the order of the outputs.
    pub closed spec fn spec_output_evidence(&self) -> Seq<Evidence> {
        self.output_evidence@
    }

    /// The probe of the link target that the pending registration acts on.
    pub closed spec fn spec_register_probe(&self) -> TargetState {
        self.register_probe@
    }

    /// The message of the first failure outside shutdown.
    pub closed spec fn spec_failure(&self) -> Option<Seq<char>> {
        match self.failure {
            Some(f) => Some(f@),
            None => None,
        }
    }

    /// The message of the shutdown failure.
    pub closed spec fn spec_shutdown_failure(&self) -> Option<Seq<char>> {
        match self.shutdown_failure {
            Some(f) => Some(f@),
            None => None,
        }
    }

    /// The step that failed first outside shutdown, and the cause it gave.
    pub closed spec fn spec_failure_origin(&self) -> (Step, Seq<char>) {
        self.failure_origin@
    }

    /// The injection whose shutdown failed, and the cause it gave.
    pub closed spec fn spec_shutdown_origin(&self) -> (int, Seq<char>) {
        self.shutdown_origin@
    }

    /// Every recorded step outcome is the verdict on that step's injection
    /// and on what the caller reported for it.
    pub open spec fn faithful(&self) -> bool {
        let h = self.spec_schedule().spec_history();
        let ev = self.spec_evidence();
        &&& h.len() == ev.len()
        &&& forall|j: int| 0 <= j < h.len() ==> step_in_range((#[trigger] h[j]).0, self.spec_initial().len() as int)
        &&& forall|j: int|
            0 <= j < h.len() ==> (#[trigger] h[j]).1 == verdict(
                self.spec_initial()[step_index(h[j].0)],
                h[j].0,
                ev[j],
                self.spec_ambient(),
            )
    }

    /// Failures are tagged with the injection's kind and the stage: the
    /// caller's work fails with its own message; any other step with
    /// `<name> <stage> failed: <cause>`.
    pub open spec fn failures_tagged(&self) -> bool {
        let h = self.spec_schedule().spec_history();
        &&& (self.spec_failure() is Some <==> stage_failed(h))
        &&& (self.spec_shutdown_failure() is Some <==> shutdown_failed(h))
        &&& forall|j: int|
            0 <= j < h.len() && !(#[trigger] h[j]).1 && !(h[j].0 is Shutdown) ==> h[j].0
                == self.spec_failure_origin().0
        &&& (self.spec_shutdown_failure() is Some ==> exists|j: int|
            first_failed_shutdown_at(h, j) && step_index(#[trigger] h[j].0)
                == self.spec_shutdown_origin().0)
        &&& (self.spec_failure() matches Some(f) ==> {
            let (step, cause) = self.spec_failure_origin();
            &&& step != Step::Done
            &&& !(step is Shutdown)
            &&& (step is Work ==> f == cause)
            &&& (!(step is Work) ==> 0 <= step_index(step) < self.spec_initial().len() && f == tagged(
                kind_name(self.spec_initial()[step_index(step)]),
                stage_of(step),
                cause,
            ))
        })
        &&& (self.spec_shutdown_failure() matches Some(f) ==> {
            let (i, cause) = self.spec_shutdown_origin();
            0 <= i < self.spec_initial().len() && f == tagged(
                kind_name(self.spec_initial()[i]),
                Stage::Shutdown,
                cause,
            )
        })
    }

    /// What holds of every run between calls.
    pub open spec fn run_invariant(&self) -> bool {
        &&& self.wf()
        &&& self.spec_schedule().wf()
        &&& self.spec_schedule().spec_count() == self.spec_initial().len()
        &&& same_configs(self.spec_injections(), self.spec_initial())
        &&& self.spec_output_evidence().len() == self.spec_outputs().len()
        &&& forall|k: int|
            0 <= k < self.spec_outputs().len() ==> exported_by(
                #[trigger] self.spec_initial()[k],
                self.spec_outputs()[k],
                self.spec_output_evidence()[k],
                self.spec_ambient(),
                self.spec_resource_home(),
            )
        &&& (self.spec_schedule().spec_current() is Work && !any_failed(self.spec_schedule().spec_history())
            ==> self.spec_outputs().len() == self.spec_initial().len())
        &&& self.faithful()
        &&& self.failures_tagged()
    }

    /// The last probe of a link target that approved its removal.
    pub closed spec fn spec_approved_probe(&self) -> TargetState {
        self.approved_probe@
    }

    /// The invariant of a run.
    pub closed spec fn wf(&self) -> bool {
        &&& self.schedule.wf()
        &&& self.faithful()
        &&& self.failures_tagged()
        &&& self.output_evidence@.len() == self.outputs@.len()
        &&& forall|i: int|
            0 <= i < self.schedule.spec_registered() && awaiting_shutdown(self.schedule.spec_current(), i)
                ==> (#[trigger] self.injections@[i] matches RuntimeInjection::Symlink(s) ==> s.registered
                && s.created_link)
        &&& self.schedule.spec_count() == self.injections@.len()
        &&& same_configs(self.injections@, self.initial@)
        &&& pairs_view(self.exports@) == concat_all(self.outputs@)
        &&& self.outputs@.len() <= self.injections@.len()
        &&& forall|k: int|
            0 <= k < self.outputs@.len() ==> exported_by(
                #[trigger] self.initial@[k],
                self.outputs@[k],
                self.output_evidence@[k],
                self.ambient,
                self.resource_home@,
            )
        &&& match self.schedule.spec_current() {
            Step::Validate(_) => self.outputs@.len() == 0,
            Step::Register(_) => self.outputs@.len() == 0,
            Step::Export(i) => self.outputs@.len() == i,
            _ => !any_failed(self.schedule.spec_history()) ==> self.outputs@.len()
                == self.injections@.len(),
        }
        &&& (self.waiting != Waiting::Nothing ==> {
            let step = self.schedule.spec_current();
            &&& step != Step::Done
            &&& (step is Work || 0 <= step_index(step) < self.injections@.len())
            &&& (!(step is Work) ==> waits_on(self.waiting, step, self.injections@[step_index(step)]))
            &&& (step is Work ==> self.waiting == Waiting::WorkDone)
        })
        &&& ((self.waiting == Waiting::RemoveNext || self.waiting == Waiting::Remove) ==> match self.injections@[step_index(
            self.schedule.spec_current(),
        )] {
            RuntimeInjection::Symlink(s) => may_remove(s.cfg.source@, self.approved_probe@),
            _ => false,
        })
        &&& ((self.waiting is PlaceNext || self.waiting == Waiting::Place) ==> match self.injections@[step_index(
            self.schedule.spec_current(),
        )] {
            RuntimeInjection::Symlink(s) => register_decision(s.cfg.on_exist, self.register_probe@) is Some
                && (self.waiting matches Waiting::PlaceNext(r) ==> register_decision(
                s.cfg.on_exist,
                self.register_probe@,
            ) == Some(r)),
            _ => false,
        })
        &&& ((self.waiting == Waiting::ShutdownProbe || self.waiting == Waiting::RemoveNext
            || self.waiting == Waiting::Remove) ==> match self.injections@[step_index(
            self.schedule.spec_current(),
        )] {
            RuntimeInjection::Symlink(s) => s.registered && s.cfg.cleanup && s.created_link,
            _ => false,
        })
    }

    /// A run over the enabled declarations of `specs`, reading the ambient
    /// environment from `ambient` and resolving resource references under
    /// `resource_home`.
    pub fn new(specs: Vec<InjectionProfile>, ambient: EnvSnapshot, resource_home: String) -> (r:
        Lifecycle)
        ensures
            r.run_invariant(),
            r.spec_injections() == runtimes(specs@),
            r.spec_schedule().spec_count() == runtimes(specs@).len(),
            r.spec_schedule().spec_history().len() == 0,
            r.spec_waiting() == Waiting::Nothing,
            r.spec_initial() == runtimes(specs@),
            r.spec_ambient() == ambient,
            r.spec_resource_home() == resource_home@,
    {
        let injections = build_injections(specs);
        let ghost built = injections@;
        let schedule = Schedule::new(injections.len());
        let r = Lifecycle {
            schedule,
            injections,
            waiting: Waiting::Nothing,
            exports: Vec::new(),
            failure: None,
            shutdown_failure: None,
            ambient,
            resource_home,
            approved_probe: Ghost(TargetState::Absent),
            initial: Ghost(built),
            outputs: Ghost(Seq::empty()),
            output_evidence: Ghost(Seq::empty()),
            evidence: Ghost(Seq::empty()),
            register_probe: Ghost(TargetState::Absent),
            failure_origin: Ghost((Step::Done, Seq::empty())),
            shutdown_origin: Ghost((0, Seq::empty())),
        };
        assert(pairs_view(r.exports@) =~= concat_all(r.outputs@));
        proof {
            let h = r.schedule.spec_history();
            assert(h.len() == 0);
            assert(!stage_failed(h));
            assert(!shutdown_failed(h));
            lemma_any_failed_split(h);
            crate::schedule::lemma_current_in_range(&r.schedule);
        }
        r
    }

    /// The exports gathered so far.
    pub fn exports(&self) -> (r: &Vec<(String, String)>)
        requires
            self.run_invariant(),
        ensures
            pairs_view(r@) == concat_all(self.spec_outputs()),
    {
        &self.exports
    }

    proof fn lemma_record(
        h: Seq<(Step, bool)>,
        evs: Seq<Evidence>,
        e: (Step, bool),
        ev: Evidence,
        initial: Seq<RuntimeInjection>,
        ambient: EnvSnapshot,
    )
        requires
            h.len() == evs.len(),
            forall|j: int|
                0 <= j < h.len() ==> (#[trigger] h[j]).1 == verdict(
                    initial[step_index(h[j].0)],
                    h[j].0,
                    evs[j],
                    ambient,
                ),
            e.1 == verdict(initial[step_index(e.0)], e.0, ev, ambient),
            forall|j: int| 0 <= j < h.len() ==> step_in_range((#[trigger] h[j]).0, initial.len() as int),
            step_in_range(e.0, initial.len() as int),
        ensures
            forall|j: int| 0 <= j < h.push(e).len() ==> step_in_range((#[trigger] h.push(e)[j]).0, initial.len() as int),
            forall|j: int|
                0 <= j < h.push(e).len() ==> (#[trigger] h.push(e)[j]).1 == verdict(
                    initial[step_index(h.push(e)[j].0)],
                    h.push(e)[j].0,
                    evs.push(ev)[j],
                    ambient,
                ),
    {
        assert forall|j: int| 0 <= j < h.push(e).len() implies (#[trigger] h.push(e)[j]).1 == verdict(
            initial[step_index(h.push(e)[j].0)],
            h.push(e)[j].0,
            evs.push(ev)[j],
            ambient,
        ) by {
            if j < h.len() {
                assert(h.push(e)[j] == h[j]);
                assert(evs.push(ev)[j] == evs[j]);
            }
        }
        assert forall|j: int| 0 <= j < h.push(e).len() implies step_in_range((#[trigger] h.push(e)[j]).0, initial.len() as int) by {
            if j < h.len() {
                assert(h.push(e)[j] == h[j]);
            }
        }
    }

    /// Finishes the current step with outcome `ok`, on what the caller
    /// reported (`ev`): a failure records `cause` (tagged with the
    /// injection's kind and stage, except for the caller's work); a
    /// successful export adds `pairs`.
    fn close_step(&mut self, ok: bool, ev: Ghost<Evidence>, cause: String, pairs: Vec<(String, String)>)
        requires
            old(self).wf(),
            old(self).schedule.spec_current() != Step::Done,
            verdict(
                old(self).initial@[step_index(old(self).schedule.spec_current())],
                old(self).schedule.spec_current(),
                ev@,
                old(self).ambient,
            ) == ok,
            old(self).schedule.spec_current() matches Step::Register(i) ==> (ok ==> (old(self).injections@[i as int] matches RuntimeInjection::Symlink(s) ==> s.registered && s.created_link)),
            old(self).schedule.spec_current() matches Step::Export(i) ==> (ok ==> exported_by(
                old(self).initial@[i as int],
                pairs_view(pairs@),
                ev@,
                old(self).ambient,
                old(self).resource_home@,
            )),
        ensures
            final(self).wf(),
            final(self).waiting == Waiting::Nothing,
            final(self).injections == old(self).injections,
            final(self).initial == old(self).initial,
            final(self).ambient == old(self).ambient,
            final(self).resource_home == old(self).resource_home,
            final(self).register_probe == old(self).register_probe,
            final(self).approved_probe == old(self).approved_probe,
            final(self).evidence@ == old(self).evidence@.push(ev@),
            final(self).schedule.spec_history() == old(self).schedule.spec_history().push(
                (old(self).schedule.spec_current(), ok),
            ),
            old(self).schedule.spec_current() matches Step::Shutdown(c) ==> !awaiting_shutdown(final(self).schedule.spec_current(), c as int),
            final(self).schedule.remaining() < old(self).schedule.remaining(),
    {
        let cur = self.schedule.current();
        let n = self.injections.len();
        let ghost h = self.schedule.spec_history();
        let ghost e = (cur, ok);
        let ghost old_schedule = self.schedule;
        proof {
            crate::schedule::lemma_current_in_range(&self.schedule);
            lemma_any_failed_push(h, e);
            Schedule::lemma_history_push(h, e);
            Self::lemma_record(h, self.evidence@, e, ev@, self.initial@, self.ambient);
            if !(cur is Shutdown) && stage_failed(h) {
                crate::schedule::lemma_stage_failure_leads_to_shutdown(&self.schedule);
            }
            if !(cur is Work) {
                assert(same_config(
                    self.injections@[step_index(cur)],
                    self.initial@[step_index(cur)],
                ));
            }
        }
        if !ok {
            match cur {
                Step::Work => {
                    let ghost why = cause@;
                    self.failure = Some(cause);
                    self.failure_origin = Ghost((cur, why));
                },
                Step::Shutdown(i) => {
                    if self.shutdown_failure.is_none() {
                        let ghost why = cause@;
                        let err = StageError::new(self.injections[i].name(), Stage::Shutdown, cause);
                        self.shutdown_failure = Some(err.message());
                        self.shutdown_origin = Ghost((i as int, why));
                    }
                },
                Step::Validate(i) => {
                    let ghost why = cause@;
                    let err = StageError::new(self.injections[i].name(), Stage::Validate, cause);
                    self.failure = Some(err.message());
                    self.failure_origin = Ghost((cur, why));
                },
                Step::Register(i) => {
                    let ghost why = cause@;
                    let err = StageError::new(self.injections[i].name(), Stage::Register, cause);
                    self.failure = Some(err.message());
                    self.failure_origin = Ghost((cur, why));
                },
                Step::Export(i) => {
                    let ghost why = cause@;
                    let err = StageError::new(self.injections[i].name(), Stage::Export, cause);
                    self.failure = Some(err.message());
                    self.failure_origin = Ghost((cur, why));
                },
                Step::Done => {},
            }
        }
        if ok {
            match cur {
                Step::Export(i) => {
                    let ghost contribution = pairs_view(pairs@);
                    let ghost before = self.exports@;
                    let ghost outs = self.outputs@;
                    let ghost oevs = self.output_evidence@;
                    let mut pairs = pairs;
                    self.exports.append(&mut pairs);
                    self.outputs = Ghost(self.outputs@.push(contribution));
                    self.output_evidence = Ghost(self.output_evidence@.push(ev@));
                    assert(self.outputs@.drop_last() =~= outs);
                    assert(pairs_view(self.exports@) =~= pairs_view(before) + contribution);
                    assert forall|k: int| 0 <= k < self.outputs@.len() implies exported_by(
                        #[trigger] self.initial@[k],
                        self.outputs@[k],
                        self.output_evidence@[k],
                        self.ambient,
                        self.resource_home@,
                    ) by {
                        if k < outs.len() {
                            assert(self.outputs@[k] == outs[k]);
                            assert(self.output_evidence@[k] == oevs[k]);
                        }
                    }
                },
                _ => {},
            }
        }
        self.evidence = Ghost(self.evidence@.push(ev@));
        self.waiting = Waiting::Nothing;
        self.schedule.report(ok);
        proof {
            let g = self.schedule.spec_history();
            assert(g == h.push(e));
            assert(g[h.len() as int] == e);
            assert forall|j: int|
                0 <= j < g.len() && !(#[trigger] g[j]).1 && !(g[j].0 is Shutdown) implies g[j].0
                    == self.failure_origin@.0 by {
                if j < h.len() {
                    assert(g[j] == h[j]);
                    if !ok && !(cur is Shutdown) {
                        assert(stage_failed(h));
                    }
                }
            }
            if self.shutdown_failure is Some {
                if old(self).shutdown_failure is Some {
                    let j = choose|j: int|
                        first_failed_shutdown_at(h, j) && step_index(#[trigger] h[j].0)
                            == old(self).shutdown_origin@.0;
                    assert(g[j] == h[j]);
                    assert forall|i: int| 0 <= i < j implies !((#[trigger] g[i]).0 is Shutdown && !g[i].1) by {
                        assert(g[i] == h[i]);
                    }
                    assert(first_failed_shutdown_at(g, j));
                } else {
                    let j = h.len() as int;
                    assert forall|i: int| 0 <= i < j implies !((#[trigger] g[i]).0 is Shutdown && !g[i].1) by {
                        assert(g[i] == h[i]);
                        if h[i].0 is Shutdown && !h[i].1 {
                            assert(shutdown_failed(h));
                        }
                    }
                    assert(first_failed_shutdown_at(g, j));
                }
            }
            if ok {
                match cur {
                    Step::Export(i) => {
                        assert(self.outputs@.len() == i + 1);
                        if i + 1 < n {
                            assert(self.schedule.spec_current() == Step::Export((i + 1) as usize));
                        } else {
                            assert(self.schedule.spec_current() == Step::Work);
                        }
                    },
                    _ => {},
                }
            }
            assert(old_schedule.spec_current() == cur);
        }
    }

    /// Finishes the current step successfully, on what the caller reported.
    fn advance(&mut self, ev: Ghost<Evidence>)
        requires
            old(self).wf(),
            old(self).schedule.spec_current() != Step::Done,
            !(old(self).schedule.spec_current() is Export),
            verdict(
                old(self).initial@[step_index(old(self).schedule.spec_current())],
                old(self).schedule.spec_current(),
                ev@,
                old(self).ambient,
            ),
            old(self).schedule.spec_current() matches Step::Register(i) ==> (old(self).injections@[i as int] matches RuntimeInjection::Symlink(s) ==> s.registered && s.created_link),
        ensures
            final(self).wf(),
            final(self).waiting == Waiting::Nothing,
            final(self).injections == old(self).injections,
            final(self).initial == old(self).initial,
            final(self).ambient == old(self).ambient,
            final(self).resource_home == old(self).resource_home,
            final(self).register_probe == old(self).register_probe,
            final(self).approved_probe == old(self).approved_probe,
            final(self).evidence@ == old(self).evidence@.push(ev@),
            final(self).schedule.spec_history() == old(self).schedule.spec_history().push(
                (old(self).schedule.spec_current(), true),
            ),
            old(self).schedule.spec_current() matches Step::Shutdown(c) ==> !awaiting_shutdown(final(self).schedule.spec_current(), c as int),
            final(self).schedule.remaining() < old(self).schedule.remaining(),
    {
        self.close_step(true, ev, String::new(), Vec::new());
    }

    /// Finishes the current step with a failure caused by `cause`.
    fn fail_step(&mut self, cause: String, ev: Ghost<Evidence>)
        requires
            old(self).wf(),
            old(self).schedule.spec_current() != Step::Done,
            !verdict(
                old(self).initial@[step_index(old(self).schedule.spec_current())],
                old(self).schedule.spec_current(),
                ev@,
                old(self).ambient,
            ),
        ensures
            final(self).wf(),
            final(self).waiting == Waiting::Nothing,
            final(self).injections == old(self).injections,
            final(self).initial == old(self).initial,
            final(self).ambient == old(self).ambient,
            final(self).resource_home == old(self).resource_home,
            final(self).register_probe == old(self).register_probe,
            final(self).approved_probe == old(self).approved_probe,
            final(self).evidence@ == old(self).evidence@.push(ev@),
            final(self).schedule.spec_history() == old(self).schedule.spec_history().push(
                (old(self).schedule.spec_current(), false),
            ),
            final(self).schedule.remaining() < old(self).schedule.remaining(),
    {
        self.close_step(false, ev, cause, Vec::new());
    }

    /// Runs the steps that need nothing from the caller, and returns the
    /// first request that does; `Finished` once the run is over. The steps
    /// it finishes itself carry no report and cannot depend on one; it stops
    /// at the caller's work, at the validation and registration of a
    /// symlink, at a command's export and at the shutdown of a symlink that
    /// owes cleanup.
    pub fn next_request(&mut self) -> (r: Request)
        requires
            old(self).run_invariant(),
            old(self).spec_waiting() == Waiting::Nothing || old(self).spec_waiting() is PlaceNext
                || old(self).spec_waiting() == Waiting::RemoveNext,
        ensures
            final(self).run_invariant(),
            final(self).spec_injections().len() == old(self).spec_injections().len(),
            final(self).spec_initial() == old(self).spec_initial(),
            final(self).spec_ambient() == old(self).spec_ambient(),
            final(self).spec_resource_home() == old(self).spec_resource_home(),
            old(self).spec_schedule().spec_history().is_prefix_of(
                final(self).spec_schedule().spec_history(),
            ),
            final(self).spec_evidence().len() == final(self).spec_schedule().spec_history().len(),
            forall|j: int|
                old(self).spec_schedule().spec_history().len() <= j < final(self).spec_schedule().spec_history().len()
                    ==> internal_entry(
                    (#[trigger] final(self).spec_schedule().spec_history()[j]).0,
                    final(self).spec_evidence()[j],
                    final(self).spec_initial()[step_index(final(self).spec_schedule().spec_history()[j].0)],
                ),
            r is Finished <==> final(self).spec_schedule().spec_current() == Step::Done,
            !(r is Finished) ==> final(self).spec_waiting() != Waiting::Nothing && !(final(self).spec_waiting() is PlaceNext) && final(self).spec_waiting() != Waiting::RemoveNext,
            final(self).spec_schedule().spec_current() is Work ==> r is Work,
            final(self).spec_schedule().spec_current() matches Step::Validate(i) ==> r matches Request::CheckSource { index, .. } && index == i,
            final(self).spec_schedule().spec_current() matches Step::Register(i) ==> (r matches Request::ProbeTarget { index, .. } && index == i) || (r matches Request::PlaceLink { index, .. } && index == i),
            final(self).spec_schedule().spec_current() matches Step::Export(i) ==> r matches Request::RunCommand { index, .. } && index == i,
            final(self).spec_schedule().spec_current() matches Step::Shutdown(i) ==> (r matches Request::ProbeTarget { index, .. } && index == i) || (r matches Request::RemoveLink { index, .. } && index == i),
            r matches Request::CheckSource { index, source } ==> final(self).spec_schedule().spec_current()
                == Step::Validate(index) && match final(self).spec_injections()[index as int] {
                RuntimeInjection::Symlink(s) => source@ == s.cfg.source@,
                _ => false,
            },
            r matches Request::ProbeTarget { index, target } ==> (final(self).spec_schedule().spec_current() == Step::Register(index) || final(self).spec_schedule().spec_current() == Step::Shutdown(index)) && match final(self).spec_injections()[index as int] {
                RuntimeInjection::Symlink(s) => target@ == s.cfg.target@ && (final(self).spec_schedule().spec_current() == Step::Shutdown(index) ==> s.registered && s.cfg.cleanup && s.created_link),
                _ => false,
            },
            r matches Request::RemoveLink { index, target } ==> final(self).spec_schedule().spec_current() == Step::Shutdown(index) && match final(self).spec_injections()[index as int] {
                RuntimeInjection::Symlink(s) => may_remove(
                    s.cfg.source@,
                    final(self).spec_approved_probe(),
                ) && target@ == s.cfg.target@ && s.registered && s.cfg.cleanup && s.created_link,
                _ => false,
            },
            r matches Request::PlaceLink { index, source, target, replace_existing } ==> final(self).spec_schedule().spec_current()
                == Step::Register(index) && match final(self).spec_injections()[index as int] {
                RuntimeInjection::Symlink(s) => source@ == s.cfg.source@ && target@ == s.cfg.target@
                    && register_decision(s.cfg.on_exist, final(self).spec_register_probe()) == Some(replace_existing),
                _ => false,
            },
            r matches Request::RunCommand { index, program, args } ==> final(self).spec_schedule().spec_current() == Step::Export(index) && match final(self).spec_injections()[index as int] {
                RuntimeInjection::Command(c) => program@ == c.cfg.program@ && args@ == c.cfg.args@,
                _ => false,
            },
    {
        let ghost h0 = self.schedule.spec_history();
        match self.waiting {
            Waiting::PlaceNext(replace) => {
                let i = self.current_index();
                match &self.injections[i] {
                    RuntimeInjection::Symlink(s) => {
                        let source = s.cfg.source.clone();
                        let target = s.cfg.target.clone();
                        self.waiting = Waiting::Place;
                        assert(h0.is_prefix_of(self.schedule.spec_history()));
                        return Request::PlaceLink {
                            index: i,
                            source,
                            target,
                            replace_existing: replace,
                        };
                    },
                    _ => {
                        assert(false);
                        return Request::Finished;
                    },
                }
            },
            Waiting::RemoveNext => {
                let i = self.current_index();
                match &self.injections[i] {
                    RuntimeInjection::Symlink(s) => {
                        let target = s.cfg.target.clone();
                        self.waiting = Waiting::Remove;
                        assert(h0.is_prefix_of(self.schedule.spec_history()));
                        return Request::RemoveLink { index: i, target };
                    },
                    _ => {
                        assert(false);
                        return Request::Finished;
                    },
                }
            },
            _ => {},
        }
        loop
            invariant
                self.wf(),
                self.waiting == Waiting::Nothing,
                self.injections@.len() == old(self).injections@.len(),
                self.initial == old(self).initial,
                self.ambient == old(self).ambient,
                self.resource_home == old(self).resource_home,
                h0 == old(self).schedule.spec_history(),
                h0.is_prefix_of(self.schedule.spec_history()),
                forall|j: int|
                    h0.len() <= j < self.schedule.spec_history().len() ==> internal_entry(
                        (#[trigger] self.schedule.spec_history()[j]).0,
                        self.evidence@[j],
                        self.initial@[step_index(self.schedule.spec_history()[j].0)],
                    ),
            decreases self.schedule.remaining(),
        {
            let step = self.schedule.current();
            let ghost hb = self.schedule.spec_history();
            let ghost evb = self.evidence@;
            proof {
                crate::schedule::lemma_current_in_range(&self.schedule);
                if !(step is Work) && !(step is Done) {
                    assert(same_config(
                        self.injections@[step_index(step)],
                        self.initial@[step_index(step)],
                    ));
                }
            }
            match step {
                Step::Done => {
                    return Request::Finished;
                },
                Step::Work => {
                    self.waiting = Waiting::WorkDone;
                    return Request::Work;
                },
                Step::Validate(i) => {
                    let outcome = match &self.injections[i] {
                        RuntimeInjection::Env(e) => match e.validate() {
                            Ok(()) => Ok(()),
                            Err(err) => Err(err.message()),
                        },
                        RuntimeInjection::Command(c) => match c.validate() {
                            Ok(()) => Ok(()),
                            Err(err) => Err(err.message()),
                        },
                        RuntimeInjection::Symlink(s) => {
                            let source = s.cfg.source.clone();
                            self.waiting = Waiting::Source;
                            return Request::CheckSource { index: i, source };
                        },
                    };
                    match outcome {
                        Ok(()) => self.advance(Ghost(Evidence::Internal)),
                        Err(cause) => self.fail_step(cause, Ghost(Evidence::Internal)),
                    }
                },
                Step::Register(i) => {
                    match &self.injections[i] {
                        RuntimeInjection::Symlink(s) => {
                            let target = s.cfg.target.clone();
                            self.waiting = Waiting::RegisterProbe;
                            return Request::ProbeTarget { index: i, target };
                        },
                        _ => {},
                    }
                    self.advance(Ghost(Evidence::Internal));
                },
                Step::Export(i) => {
                    let pairs = match &self.injections[i] {
                        RuntimeInjection::Env(e) => e.export(&self.ambient, self.resource_home.as_str()),
                        RuntimeInjection::Command(c) => {
                            let program = c.cfg.program.clone();
                            let args = clone_strings(&c.cfg.args);
                            self.waiting = Waiting::Run;
                            return Request::RunCommand { index: i, program, args };
                        },
                        RuntimeInjection::Symlink(_) => {
                            let none: Vec<(String, String)> = Vec::new();
                            assert(pairs_view(none@) =~= Seq::empty());
                            none
                        },
                    };
                    self.close_step(true, Ghost(Evidence::Internal), String::new(), pairs);
                },
                Step::Shutdown(i) => {
                    let owes = match &self.injections[i] {
                        RuntimeInjection::Symlink(s) => s.owes_cleanup(),
                        _ => false,
                    };
                    if owes {
                        match &self.injections[i] {
                            RuntimeInjection::Symlink(s) => {
                                let target = s.cfg.target.clone();
                                self.waiting = Waiting::ShutdownProbe;
                                return Request::ProbeTarget { index: i, target };
                            },
                            _ => {},
                        }
                    }
                    self.advance(Ghost(Evidence::Internal));
                    self.mark_shut_down(i, false);
                },
            }
            proof {
                let g = self.schedule.spec_history();
                assert(g == hb.push((step, g[hb.len() as int].1)));
                assert(internal_entry(step, Evidence::Internal, self.initial@[step_index(step)]));
                assert forall|j: int| h0.len() <= j < g.len() implies internal_entry(
                    (#[trigger] g[j]).0,
                    self.evidence@[j],
                    self.initial@[step_index(g[j].0)],
                ) by {
                    if j < hb.len() {
                        assert(g[j] == hb[j]);
                        assert(self.evidence@[j] == evb[j]);
                    }
                }
                assert(hb.is_prefix_of(g));
            }
        }
    }

    fn current_index(&self) -> (r: usize)
        requires
            self.wf(),
            self.waiting != Waiting::Nothing,
            !(self.schedule.spec_current() is Work),
        ensures
            r == step_index(self.schedule.spec_current()),
            r < self.injections@.len(),
    {
        match self.schedule.current() {
            Step::Validate(i) => i,
            Step::Register(i) => i,
            Step::Export(i) => i,
            Step::Shutdown(i) => i,
            _ => 0,
        }
    }

    fn mark_shut_down(&mut self, i: usize, removed: bool)
        requires
            i < old(self).injections@.len(),
            old(self).wf(),
            old(self).waiting == Waiting::Nothing,
            !awaiting_shutdown(old(self).schedule.spec_current(), i as int),
        ensures
            final(self).wf(),
            final(self).schedule == old(self).schedule,
            final(self).waiting == old(self).waiting,
            final(self).approved_probe == old(self).approved_probe,
            final(self).failure == old(self).failure,
            final(self).shutdown_failure == old(self).shutdown_failure,
            final(self).injections@.len() == old(self).injections@.len(),
            final(self).exports == old(self).exports,
            final(self).outputs == old(self).outputs,
            final(self).initial == old(self).initial,
            final(self).ambient == old(self).ambient,
            final(self).resource_home == old(self).resource_home,
            same_configs(final(self).injections@, old(self).injections@),
            final(self).evidence == old(self).evidence,
            final(self).output_evidence == old(self).output_evidence,
            final(self).register_probe == old(self).register_probe,
            final(self).failure_origin == old(self).failure_origin,
            final(self).shutdown_origin == old(self).shutdown_origin,
    {
        let ghost before = self.injections@;
        let mut inj = self.injections.remove(i);
        match &mut inj {
            RuntimeInjection::Symlink(s) => s.shut_down(removed),
            _ => {},
        }
        self.injections.insert(i, inj);
        assert(self.injections@ =~= before.update(i as int, inj));
        proof {
            crate::schedule::lemma_current_in_range(&self.schedule);
            assert forall|j: int|
                0 <= j < self.schedule.spec_registered() && awaiting_shutdown(self.schedule.spec_current(), j)
                    implies (#[trigger] self.injections@[j] matches RuntimeInjection::Symlink(s) ==> s.registered
                    && s.created_link) by {
                if j != i {
                    assert(self.injections@[j] == before[j]);
                }
            }
        }
    }

    fn mark_link_placed(&mut self, i: usize)
        requires
            i < old(self).injections@.len(),
            old(self).wf(),
            old(self).waiting == Waiting::Nothing,
            old(self).schedule.spec_current() == Step::Register(i),
        ensures
            final(self).wf(),
            final(self).injections@[i as int] matches RuntimeInjection::Symlink(s) ==> s.registered && s.created_link,
            final(self).schedule == old(self).schedule,
            final(self).waiting == old(self).waiting,
            final(self).approved_probe == old(self).approved_probe,
            final(self).failure == old(self).failure,
            final(self).shutdown_failure == old(self).shutdown_failure,
            final(self).injections@.len() == old(self).injections@.len(),
            final(self).exports == old(self).exports,
            final(self).outputs == old(self).outputs,
            final(self).initial == old(self).initial,
            final(self).ambient == old(self).ambient,
            final(self).resource_home == old(self).resource_home,
            same_configs(final(self).injections@, old(self).injections@),
            final(self).evidence == old(self).evidence,
            final(self).output_evidence == old(self).output_evidence,
            final(self).register_probe == old(self).register_probe,
            final(self).failure_origin == old(self).failure_origin,
            final(self).shutdown_origin == old(self).shutdown_origin,
    {
        let ghost before = self.injections@;
        let mut inj = self.injections.remove(i);
        match &mut inj {
            RuntimeInjection::Symlink(s) => s.link_placed(),
            _ => {},
        }
        self.injections.insert(i, inj);
        assert(self.injections@ =~= before.update(i as int, inj));
        proof {
            crate::schedule::lemma_current_in_range(&self.schedule);
            assert forall|j: int|
                0 <= j < self.schedule.spec_registered() && awaiting_shutdown(self.schedule.spec_current(), j)
                    implies (#[trigger] self.injections@[j] matches RuntimeInjection::Symlink(s) ==> s.registered
                    && s.created_link) by {
                if j != i {
                    assert(self.injections@[j] == before[j]);
                }
            }
        }
    }

    /// Hands the engine what came of the request it made last. The step it
    /// concerns is recorded with the verdict on what was reported; a probe
    /// that allows placing or removing a link leaves the step open for that
    /// request instead.
    pub fn reply(&mut self, reply: Reply)
        requires
            old(self).run_invariant(),
            old(self).spec_waiting() != Waiting::Nothing,
            !(old(self).spec_waiting() is PlaceNext),
            old(self).spec_waiting() != Waiting::RemoveNext,
        ensures
            final(self).run_invariant(),
            final(self).spec_injections().len() == old(self).spec_injections().len(),
            final(self).spec_initial() == old(self).spec_initial(),
            final(self).spec_ambient() == old(self).spec_ambient(),
            final(self).spec_resource_home() == old(self).spec_resource_home(),
            final(self).spec_waiting() == Waiting::Nothing || final(self).spec_waiting() is PlaceNext
                || final(self).spec_waiting() == Waiting::RemoveNext,
            final(self).spec_waiting() == Waiting::Nothing ==> final(self).spec_schedule().spec_history()
                == old(self).spec_schedule().spec_history().push((old(self).spec_schedule().spec_current(), final(self).spec_schedule().spec_history().last().1))
                && final(self).spec_evidence() == old(self).spec_evidence().push(final(self).spec_evidence().last()),
            final(self).spec_waiting() != Waiting::Nothing ==> final(self).spec_schedule() == old(self).spec_schedule(),
            old(self).spec_waiting() == Waiting::Source ==> (reply matches Reply::SourceExists(b) ==> final(self).spec_evidence().last() == Evidence::Source(b)),
            old(self).spec_waiting() == Waiting::RegisterProbe ==> (reply matches Reply::Probed(Err(_)) ==> final(self).spec_evidence().last() == Evidence::Placement(None, false)),
            old(self).spec_waiting() == Waiting::RegisterProbe ==> (reply matches Reply::Probed(Ok(st)) ==> (final(self).spec_waiting() is PlaceNext && final(self).spec_register_probe() == st) || (final(self).spec_waiting() == Waiting::Nothing && final(self).spec_evidence().last() == Evidence::Placement(Some(st), false))),
            old(self).spec_waiting() == Waiting::Place ==> (reply matches Reply::Done(res) ==> final(self).spec_evidence().last() == Evidence::Placement(Some(old(self).spec_register_probe()), res is Ok)),
            old(self).spec_waiting() == Waiting::Run ==> (reply matches Reply::Ran(run) ==> final(self).spec_evidence().last() == Evidence::Output(run)),
            old(self).spec_waiting() == Waiting::WorkDone ==> (reply matches Reply::Done(res) ==> final(self).spec_evidence().last() == Evidence::WorkOutcome(res is Ok)),
            old(self).spec_waiting() == Waiting::ShutdownProbe ==> (reply matches Reply::Probed(Err(_)) ==> final(self).spec_evidence().last() == Evidence::Removal(None, false)),
            old(self).spec_waiting() == Waiting::ShutdownProbe ==> (reply matches Reply::Probed(Ok(st)) ==> (final(self).spec_waiting() == Waiting::RemoveNext && final(self).spec_approved_probe() == st) || (final(self).spec_waiting() == Waiting::Nothing && final(self).spec_evidence().last() == Evidence::Removal(Some(st), false))),
            old(self).spec_waiting() == Waiting::RegisterProbe ==> (reply matches Reply::Probed(Ok(st)) ==> (old(self).spec_injections()[step_index(old(self).spec_schedule().spec_current())] matches RuntimeInjection::Symlink(s) ==> (register_decision(s.cfg.on_exist, st) matches Some(b) ==> final(self).spec_waiting() == Waiting::PlaceNext(b)))),
            old(self).spec_waiting() == Waiting::ShutdownProbe ==> (reply matches Reply::Probed(Ok(st)) ==> (old(self).spec_injections()[step_index(old(self).spec_schedule().spec_current())] matches RuntimeInjection::Symlink(s) ==> (may_remove(s.cfg.source@, st) ==> final(self).spec_waiting() == Waiting::RemoveNext))),
            old(self).spec_waiting() == Waiting::Remove ==> (reply matches Reply::Done(res) ==> final(self).spec_evidence().last() == Evidence::Removal(Some(old(self).spec_approved_probe()), res is Ok)),
    {
        if self.waiting == Waiting::WorkDone {
            match reply {
                Reply::Done(Ok(())) => self.advance(Ghost(Evidence::WorkOutcome(true))),
                Reply::Done(Err(message)) => self.fail_step(message, Ghost(Evidence::WorkOutcome(false))),
                _ => self.fail_step(String::from_str("unexpected reply to work"), Ghost(Evidence::Unexpected)),
            }
            return;
        }
        let i = self.current_index();
        proof {
            assert(same_config(self.injections@[i as int], self.initial@[i as int]));
        }
        match self.waiting {
            Waiting::Source => {
                match (reply, &self.injections[i]) {
                    (Reply::SourceExists(exists), RuntimeInjection::Symlink(s)) => match s.validate(exists) {
                        Ok(()) => self.advance(Ghost(Evidence::Source(exists))),
                        Err(e) => {
                            let cause = e.message();
                            self.fail_step(cause, Ghost(Evidence::Source(exists)))
                        },
                    },
                    _ => self.fail_step(String::from_str("unexpected reply"), Ghost(Evidence::Unexpected)),
                }
            },
            Waiting::RegisterProbe => {
                match (reply, &self.injections[i]) {
                    (Reply::Probed(Ok(state)), RuntimeInjection::Symlink(s)) => match s.plan_register(&state) {
                        Ok(replace) => {
                            self.register_probe = Ghost(state);
                            self.waiting = Waiting::PlaceNext(replace);
                        },
                        Err(e) => {
                            let cause = e.message();
                            self.fail_step(cause, Ghost(Evidence::Placement(Some(state), false)))
                        },
                    },
                    (Reply::Probed(Err(message)), _) => self.fail_step(message, Ghost(Evidence::Placement(None, false))),
                    _ => self.fail_step(String::from_str("unexpected reply"), Ghost(Evidence::Unexpected)),
                }
            },
            Waiting::Place => {
                let ghost probe = self.register_probe@;
                match reply {
                    Reply::Done(Ok(())) => {
                        self.waiting = Waiting::Nothing;
                        self.mark_link_placed(i);
                        self.advance(Ghost(Evidence::Placement(Some(probe), true)));
                    },
                    Reply::Done(Err(message)) => self.fail_step(message, Ghost(Evidence::Placement(Some(probe), false))),
                    _ => self.fail_step(String::from_str("unexpected reply"), Ghost(Evidence::Unexpected)),
                }
            },
            Waiting::Run => {
                match (reply, &self.injections[i]) {
                    (Reply::Ran(run), RuntimeInjection::Command(c)) => {
                        let ghost ran = run;
                        match c.export_from(run, &self.ambient) {
                            Ok(pairs) => self.close_step(true, Ghost(Evidence::Output(ran)), String::new(), pairs),
                            Err(e) => {
                                let cause = e.message();
                                self.fail_step(cause, Ghost(Evidence::Output(ran)))
                            },
                        }
                    },
                    _ => self.fail_step(String::from_str("unexpected reply"), Ghost(Evidence::Unexpected)),
                }
            },
            Waiting::ShutdownProbe => {
                match (reply, &self.injections[i]) {
                    (Reply::Probed(Ok(state)), RuntimeInjection::Symlink(s)) => match s.plan_shutdown(&state) {
                        Ok(()) => {
                            self.approved_probe = Ghost(state);
                            self.waiting = Waiting::RemoveNext;
                        },
                        Err(e) => {
                            let cause = e.message();
                            self.fail_step(cause, Ghost(Evidence::Removal(Some(state), false)))
                        },
                    },
                    (Reply::Probed(Err(message)), _) => self.fail_step(message, Ghost(Evidence::Removal(None, false))),
                    _ => self.fail_step(String::from_str("unexpected reply"), Ghost(Evidence::Unexpected)),
                }
            },
            Waiting::Remove => {
                let ghost probe = self.approved_probe@;
                match reply {
                    Reply::Done(Ok(())) => {
                        self.waiting = Waiting::Nothing;
                        self.advance(Ghost(Evidence::Removal(Some(probe), true)));
                        self.mark_shut_down(i, true);
                    },
                    Reply::Done(Err(message)) => self.fail_step(message, Ghost(Evidence::Removal(Some(probe), false))),
                    _ => self.fail_step(String::from_str("unexpected reply"), Ghost(Evidence::Unexpected)),
                }
            },
            _ => {},
        }
    }

    /// The result of a finished run: the exports when every stage succeeded;
    /// otherwise the first failure, joined with the shutdown failure when
    /// there is one too.
    pub fn finish(self) -> (r: Result<Vec<(String, String)>, String>)
        requires
            self.run_invariant(),
            self.spec_schedule().spec_current() == Step::Done,
        ensures
            r is Ok <==> !any_failed(self.spec_schedule().spec_history()),
            r matches Ok(v) ==> pairs_view(v@) == concat_all(self.spec_outputs())
                && self.spec_outputs().len() == self.spec_initial().len() && forall|k: int|
                0 <= k < self.spec_initial().len() ==> exported_by(
                    #[trigger] self.spec_initial()[k],
                    self.spec_outputs()[k],
                    self.spec_output_evidence()[k],
                    self.spec_ambient(),
                    self.spec_resource_home(),
                ),
            r matches Err(m) ==> match (self.spec_failure(), self.spec_shutdown_failure()) {
                (Some(f), Some(s)) => m@ == f + "; also failed shutdown: "@ + s,
                (Some(f), None) => m@ == f,
                (None, Some(s)) => m@ == s,
                (None, None) => false,
            },
    {
        match (self.failure, self.shutdown_failure) {
            (None, None) => Ok(self.exports),
            (Some(f), None) => Err(f),
            (None, Some(s)) => Err(s),
            (Some(f), Some(s)) => {
                let mut m = f;
                m.append("; also failed shutdown: ");
                m.append(s.as_str());
                Err(m)
            },
        }
    }
}

/// A run over env declarations that are all valid fails no step unless the
/// caller's work fails: validating, registering, exporting and shutting
/// down an env injection always succeed, so `finish` then returns the
/// variables of every declaration.
pub proof fn lemma_valid_env_run_succeeds(lc: &Lifecycle)
    requires
        lc.run_invariant(),
        forall|k: int|
            0 <= k < lc.spec_initial().len() ==> ((#[trigger] lc.spec_initial()[k]) matches RuntimeInjection::Env(e)
                && env_validate_spec(e.cfg) is None),
        forall|j: int|
            0 <= j < lc.spec_schedule().spec_history().len() && (#[trigger] lc.spec_schedule().spec_history()[j]).0 is Work
                ==> lc.spec_evidence()[j] == Evidence::WorkOutcome(true),
    ensures
        !any_failed(lc.spec_schedule().spec_history()),
{
    let h = lc.spec_schedule().spec_history();
    assert forall|j: int| 0 <= j < h.len() implies (#[trigger] h[j]).1 by {
        assert(step_in_range(h[j].0, lc.spec_initial().len() as int));
        if !(h[j].0 is Work) && !(h[j].0 is Done) {
            let k = step_index(h[j].0);
            assert(lc.spec_initial()[k] is Env);
        }
    }
}

/// The rollback law for a run: when the registration of the `k`-th
/// injection (counting from one) failed, shutdown went to injections `k - 1`
/// down to `1`, in that order, and to none from `k` on, whether or not one
/// of those shutdowns failed. The run's error is then that registration's
/// failure, tagged `<kind> registration failed: <cause>`.
pub proof fn lemma_run_rollback_after_failed_registration(lc: &Lifecycle, k: int)
    requires
        lc.run_invariant(),
        lc.spec_schedule().spec_current() == Step::Done,
        1 <= k <= usize::MAX,
        crate::schedule::register_failed_at(lc.spec_schedule().spec_history(), (k - 1) as usize),
    ensures
        crate::schedule::shutdown_steps(lc.spec_schedule().spec_history())
            == crate::schedule::descending(k - 1, 0),
        forall|j: int|
            0 <= j < crate::schedule::shutdown_steps(lc.spec_schedule().spec_history()).len()
                ==> crate::schedule::shutdown_steps(lc.spec_schedule().spec_history())[j] < k - 1,
        lc.spec_failure_origin().0 == Step::Register((k - 1) as usize),
        lc.spec_failure() == Some(tagged(
            kind_name(lc.spec_initial()[k - 1]),
            Stage::Register,
            lc.spec_failure_origin().1,
        )),
{
    crate::schedule::lemma_rollback_after_failed_registration(&lc.spec_schedule(), k);
    let h = lc.spec_schedule().spec_history();
    let j = choose|j: int| 0 <= j < h.len() && #[trigger] h[j] == (Step::Register((k - 1) as usize), false);
    assert(!h[j].1 && !(h[j].0 is Shutdown));
    assert(stage_failed(h));
}

/// A failed validation ends a run at once: nothing was registered and no
/// shutdown, export or work step is ever taken.
pub proof fn lemma_run_stops_at_failed_validation(lc: &Lifecycle)
    requires
        lc.run_invariant(),
        crate::schedule::validation_failed(lc.spec_schedule().spec_history()),
    ensures
        lc.spec_schedule().spec_current() == Step::Done,
        lc.spec_schedule().spec_registered() == 0,
        crate::schedule::shutdown_steps(lc.spec_schedule().spec_history()).len() == 0,
{
    crate::schedule::lemma_failed_validation_ends_run(&lc.spec_schedule());
}

/// The order of a run's steps: shutdown steps come after every other step,
/// and after a failed validation, registration, export or work only
/// shutdown steps follow. A finished run in which no validation or
/// registration failed shut every injection down, last first, also when an
/// export, the caller's work or a shutdown failed.
pub proof fn lemma_run_order(lc: &Lifecycle)
    requires
        lc.run_invariant(),
    ensures
        crate::schedule::shutdowns_last(lc.spec_schedule().spec_history()),
        crate::schedule::only_shutdowns_after_failure(lc.spec_schedule().spec_history()),
        (lc.spec_schedule().spec_current() == Step::Done && !crate::schedule::validation_failed(
            lc.spec_schedule().spec_history(),
        ) && !crate::schedule::registration_failed(lc.spec_schedule().spec_history()))
            ==> crate::schedule::shutdown_steps(lc.spec_schedule().spec_history())
            == crate::schedule::descending(lc.spec_initial().len() as int, 0),
{
    crate::schedule::lemma_shutdowns_come_last(&lc.spec_schedule());
    crate::schedule::lemma_only_shutdowns_after_failure(&lc.spec_schedule());
    if lc.spec_schedule().spec_current() == Step::Done && !crate::schedule::validation_failed(
        lc.spec_schedule().spec_history(),
    ) && !crate::schedule::registration_failed(lc.spec_schedule().spec_history()) {
        crate::schedule::lemma_full_shutdown_pass(&lc.spec_schedule());
    }
}

} // verus!

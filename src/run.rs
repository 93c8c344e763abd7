//! The decisions of a conversion run, as a state machine.
//!
//! The caller performs each [`RunAction`] (start an encoder invocation, write the
//! manifest) and hands the outcome back to [`ConversionRun::advance`]. Invocations run
//! strictly one after another; the first failure ends the run, and exactly one terminal
//! action (`Finished` or `Failed`) is produced.

use vstd::prelude::*;
use crate::error::PackError;
use crate::format::{AudioFormat, is_project};
use crate::plan::{ConversionPlan, ProgressInfo, input_positions, planned_jobs};

verus! {

/// An event reported to whoever watches a run.
#[derive(Debug)]
pub enum ProcessProgress {
    Finished,
    Error(PackError),
    Processing(ProgressInfo),
}

/// An event reported to the user interface.
#[derive(Debug)]
pub enum AppProgress {
    Process(ProcessProgress),
}

/// Where a run stands: waiting for the outcome of job `j`, of the manifest write, or over.
#[derive(Debug, Clone, Copy, PartialEq, Eq, Structural)]
pub enum RunPhase {
    Converting(usize),
    Exporting,
    Done,
}

/// What the caller does next.
#[derive(Debug, Clone, PartialEq, Eq)]
pub enum RunAction {
    /// Report the job's progress, then run its invocation and report back its outcome.
    Convert(usize),
    /// Write the manifest under the output root and report back the outcome.
    WriteManifest,
    /// Report success; the run is over.
    Finished,
    /// Report this failure; the run is over.
    Failed(PackError),
}

/// Whether `a` ends the run.
pub open spec fn is_terminal(a: RunAction) -> bool {
    a is Finished || a is Failed
}

/// The step that starts job `from` of `jobs`, or, once none is left, the manifest write
/// (when there is a manifest) or the end of the run.
pub open spec fn after_jobs(jobs: nat, from: nat, has_manifest: bool) -> (RunPhase, RunAction) {
    if from < jobs {
        (RunPhase::Converting(from as usize), RunAction::Convert(from as usize))
    } else if has_manifest {
        (RunPhase::Exporting, RunAction::WriteManifest)
    } else {
        (RunPhase::Done, RunAction::Finished)
    }
}

/// The first step of a run.
pub open spec fn first_step(jobs: nat, has_manifest: bool) -> (RunPhase, RunAction) {
    after_jobs(jobs, 0, has_manifest)
}

/// The step that follows `outcome` of what phase `phase` was waiting for.
pub open spec fn next_step(jobs: nat, has_manifest: bool, phase: RunPhase, outcome: Result<(), PackError>) -> (
    RunPhase,
    RunAction,
) {
    match outcome {
        Err(e) => (RunPhase::Done, RunAction::Failed(e)),
        Ok(()) => match phase {
            RunPhase::Converting(j) => after_jobs(jobs, j as nat + 1, has_manifest),
            _ => (RunPhase::Done, RunAction::Finished),
        },
    }
}

/// The actions that follow phase `phase` when `outcomes` are reported one by one, until
/// the run is over or the outcomes run out.
pub open spec fn run_trace(jobs: nat, has_manifest: bool, phase: RunPhase, outcomes: Seq<Result<(), PackError>>) -> Seq<
    RunAction,
>
    decreases outcomes.len(),
{
    if phase is Done || outcomes.len() == 0 {
        Seq::empty()
    } else {
        let (p, a) = next_step(jobs, has_manifest, phase, outcomes[0]);
        seq![a] + run_trace(jobs, has_manifest, p, outcomes.drop_first())
    }
}

/// Every action of a run, from its start, when `outcomes` are reported one by one.
pub open spec fn run_actions(jobs: nat, has_manifest: bool, outcomes: Seq<Result<(), PackError>>) -> Seq<RunAction> {
    seq![first_step(jobs, has_manifest).1] + run_trace(jobs, has_manifest, first_step(jobs, has_manifest).0, outcomes)
}

/// What the outcome of an invocation is, given its exit code (absent when the process
/// was killed by a signal): success exactly for exit code zero.
pub open spec fn exit_result(code: Option<i32>) -> Result<(), PackError> {
    if code == Some(0i32) {
        Ok(())
    } else {
        Err(PackError::EncodeFailed { code })
    }
}

/// Classifies how an encoder invocation ended.
pub fn exit_outcome(code: Option<i32>) -> (r: Result<(), PackError>)
    ensures
        r == exit_result(code),
{
    match code {
        Some(0) => Ok(()),
        _ => Err(PackError::EncodeFailed { code }),
    }
}

/// A conversion run in progress over a plan.
pub struct ConversionRun {
    plan: ConversionPlan,
    phase: RunPhase,
}

impl ConversionRun {
    #[verifier::type_invariant]
    spec fn inv(&self) -> bool {
        match self.phase {
            RunPhase::Converting(j) => j < self.plan.jobs.len(),
            RunPhase::Exporting => self.plan.manifest is Some,
            RunPhase::Done => true,
        }
    }

    pub closed spec fn spec_plan(&self) -> ConversionPlan {
        self.plan
    }

    pub closed spec fn spec_phase(&self) -> RunPhase {
        self.phase
    }

    /// The plan being carried out.
    pub fn plan(&self) -> (r: &ConversionPlan)
        ensures
            *r == self.spec_plan(),
    {
        &self.plan
    }

    /// Where the run stands.
    pub fn phase(&self) -> (r: RunPhase)
        ensures
            r == self.spec_phase(),
    {
        self.phase
    }

    /// Whether the run is over.
    pub fn is_done(&self) -> (r: bool)
        ensures
            r == (self.spec_phase() is Done),
    {
        matches!(self.phase, RunPhase::Done)
    }

    /// Starts a run over `plan`, returning it with its first action.
    pub fn start(plan: ConversionPlan) -> (r: (ConversionRun, RunAction))
        ensures
            r.0.spec_plan() == plan,
            (r.0.spec_phase(), r.1) == first_step(plan.jobs.len() as nat, plan.manifest is Some),
    {
        let (phase, action) = if plan.jobs.len() > 0 {
            (RunPhase::Converting(0), RunAction::Convert(0))
        } else if plan.manifest.is_some() {
            (RunPhase::Exporting, RunAction::WriteManifest)
        } else {
            (RunPhase::Done, RunAction::Finished)
        };
        (ConversionRun { plan, phase }, action)
    }

    /// Takes the outcome of the last action and returns the next one.
    pub fn advance(&mut self, outcome: Result<(), PackError>) -> (a: RunAction)
        requires
            !(old(self).spec_phase() is Done),
        ensures
            final(self).spec_plan() == old(self).spec_plan(),
            (final(self).spec_phase(), a) == next_step(
                old(self).spec_plan().jobs.len() as nat,
                old(self).spec_plan().manifest is Some,
                old(self).spec_phase(),
                outcome,
            ),
    {
        proof {
            use_type_invariant(&*self);
        }
        match outcome {
            Err(e) => {
                self.phase = RunPhase::Done;
                RunAction::Failed(e)
            },
            Ok(()) => match self.phase {
                RunPhase::Converting(j) => {
                    let next = j + 1;
                    if next < self.plan.jobs.len() {
                        self.phase = RunPhase::Converting(next);
                        RunAction::Convert(next)
                    } else if self.plan.manifest.is_some() {
                        self.phase = RunPhase::Exporting;
                        RunAction::WriteManifest
                    } else {
                        self.phase = RunPhase::Done;
                        RunAction::Finished
                    }
                },
                _ => {
                    self.phase = RunPhase::Done;
                    RunAction::Finished
                },
            },
        }
    }
}

/// A step ends the run exactly when it produces a terminal action.
pub proof fn lemma_terminal_iff_done(jobs: nat, has_manifest: bool, phase: RunPhase, outcome: Result<(), PackError>)
    ensures
        is_terminal(next_step(jobs, has_manifest, phase, outcome).1) <==> next_step(jobs, has_manifest, phase, outcome).0 is Done,
        is_terminal(first_step(jobs, has_manifest).1) <==> first_step(jobs, has_manifest).0 is Done,
{
}

/// Whatever the outcomes, a run produces at most one terminal action, and only as its
/// last action.
pub proof fn lemma_one_terminal_at_end(jobs: nat, has_manifest: bool, outcomes: Seq<Result<(), PackError>>)
    ensures
        forall|i: int|
            0 <= i < run_actions(jobs, has_manifest, outcomes).len() - 1 ==> !is_terminal(
                #[trigger] run_actions(jobs, has_manifest, outcomes)[i],
            ),
{
    let (p, a) = first_step(jobs, has_manifest);
    lemma_trace_terminal(jobs, has_manifest, p, outcomes);
    let acts = run_actions(jobs, has_manifest, outcomes);
    let tr = run_trace(jobs, has_manifest, p, outcomes);
    assert forall|i: int| 0 <= i < acts.len() - 1 implies !is_terminal(#[trigger] acts[i]) by {
        if i == 0 {
            assert(!(p is Done));
        } else {
            assert(acts[i] == tr[i - 1]);
        }
    }
}

proof fn lemma_trace_terminal(jobs: nat, has_manifest: bool, phase: RunPhase, outcomes: Seq<Result<(), PackError>>)
    ensures
        run_trace(jobs, has_manifest, phase, outcomes).len() > 0 ==> !(phase is Done),
        forall|i: int|
            0 <= i < run_trace(jobs, has_manifest, phase, outcomes).len() - 1 ==> !is_terminal(
                #[trigger] run_trace(jobs, has_manifest, phase, outcomes)[i],
            ),
    decreases outcomes.len(),
{
    if !(phase is Done) && outcomes.len() > 0 {
        let (p, a) = next_step(jobs, has_manifest, phase, outcomes[0]);
        let rest = run_trace(jobs, has_manifest, p, outcomes.drop_first());
        lemma_trace_terminal(jobs, has_manifest, p, outcomes.drop_first());
        let tr = run_trace(jobs, has_manifest, phase, outcomes);
        assert(tr == seq![a] + rest);
        assert forall|i: int| 0 <= i < tr.len() - 1 implies !is_terminal(#[trigger] tr[i]) by {
            if i == 0 {
                assert(!(p is Done));
            } else {
                assert(tr[i] == rest[i - 1]);
            }
        }
    }
}

/// The actions `Convert(i)` for `i` in `from .. to`.
pub open spec fn converts(from: nat, to: nat) -> Seq<RunAction> {
    Seq::new((to - from) as nat, |i: int| RunAction::Convert((from + i) as usize))
}

proof fn lemma_trace_all_ok(jobs: nat, has_manifest: bool, j: nat, outcomes: Seq<Result<(), PackError>>)
    requires
        j < jobs <= usize::MAX,
        outcomes.len() == (jobs - j) + if has_manifest { 1int } else { 0int },
        forall|i: int| 0 <= i < outcomes.len() ==> #[trigger] outcomes[i] is Ok,
    ensures
        run_trace(jobs, has_manifest, RunPhase::Converting(j as usize), outcomes) == converts(j + 1, jobs) + (
        if has_manifest {
            seq![RunAction::WriteManifest]
        } else {
            Seq::empty()
        }) + seq![RunAction::Finished],
    decreases jobs - j,
{
    let rest = outcomes.drop_first();
    assert(outcomes[0] is Ok);
    assert forall|i: int| 0 <= i < rest.len() implies #[trigger] rest[i] is Ok by {
        assert(rest[i] == outcomes[i + 1]);
    }
    let m_tail: Seq<RunAction> = if has_manifest {
        seq![RunAction::WriteManifest]
    } else {
        Seq::empty()
    };
    let tr = run_trace(jobs, has_manifest, RunPhase::Converting(j as usize), outcomes);
    let (p, a) = after_jobs(jobs, j + 1, has_manifest);
    assert(next_step(jobs, has_manifest, RunPhase::Converting(j as usize), outcomes[0]) == (p, a));
    assert(tr == seq![a] + run_trace(jobs, has_manifest, p, rest));
    if j + 1 < jobs {
        lemma_trace_all_ok(jobs, has_manifest, j + 1, rest);
        assert(converts(j + 1, jobs) =~= seq![RunAction::Convert((j + 1) as usize)] + converts(j + 2, jobs));
        assert(tr =~= converts(j + 1, jobs) + m_tail + seq![RunAction::Finished]);
    } else if has_manifest {
        let rest2 = rest.drop_first();
        assert(rest[0] is Ok);
        assert(next_step(jobs, has_manifest, RunPhase::Exporting, rest[0]) == (RunPhase::Done, RunAction::Finished));
        assert(run_trace(jobs, has_manifest, RunPhase::Exporting, rest) == seq![RunAction::Finished] + run_trace(
            jobs,
            has_manifest,
            RunPhase::Done,
            rest2,
        ));
        assert(run_trace(jobs, has_manifest, RunPhase::Done, rest2) =~= Seq::<RunAction>::empty());
        assert(converts(j + 1, jobs) =~= Seq::<RunAction>::empty());
        assert(tr =~= converts(j + 1, jobs) + m_tail + seq![RunAction::Finished]);
    } else {
        assert(run_trace(jobs, has_manifest, RunPhase::Done, rest) =~= Seq::<RunAction>::empty());
        assert(converts(j + 1, jobs) =~= Seq::<RunAction>::empty());
        assert(tr =~= converts(j + 1, jobs) + m_tail + seq![RunAction::Finished]);
    }
}

proof fn lemma_trace_failure(jobs: nat, has_manifest: bool, j: nat, failed: nat, e: PackError, outcomes: Seq<Result<(), PackError>>)
    requires
        j <= failed < jobs <= usize::MAX,
        outcomes.len() > failed - j,
        forall|i: int| 0 <= i < failed - j ==> #[trigger] outcomes[i] is Ok,
        outcomes[failed - j] == Err::<(), PackError>(e),
    ensures
        run_trace(jobs, has_manifest, RunPhase::Converting(j as usize), outcomes) == converts(j + 1, failed + 1)
            + seq![RunAction::Failed(e)],
    decreases failed - j,
{
    let rest = outcomes.drop_first();
    let tr = run_trace(jobs, has_manifest, RunPhase::Converting(j as usize), outcomes);
    if j == failed {
        assert(next_step(jobs, has_manifest, RunPhase::Converting(j as usize), outcomes[0]) == (RunPhase::Done, RunAction::Failed(e)));
        assert(run_trace(jobs, has_manifest, RunPhase::Done, rest) =~= Seq::<RunAction>::empty());
        assert(converts(j + 1, failed + 1) =~= Seq::<RunAction>::empty());
        assert(tr =~= converts(j + 1, failed + 1) + seq![RunAction::Failed(e)]);
    } else {
        assert(outcomes[0] is Ok);
        assert forall|i: int| 0 <= i < failed - (j + 1) implies #[trigger] rest[i] is Ok by {
            assert(rest[i] == outcomes[i + 1]);
        }
        assert(rest[failed - (j + 1)] == outcomes[failed - j]);
        lemma_trace_failure(jobs, has_manifest, j + 1, failed, e, rest);
        assert(next_step(jobs, has_manifest, RunPhase::Converting(j as usize), outcomes[0]) == (
            RunPhase::Converting((j + 1) as usize),
            RunAction::Convert((j + 1) as usize),
        ));
        assert(converts(j + 1, failed + 1) =~= seq![RunAction::Convert((j + 1) as usize)] + converts(j + 2, failed + 1));
        assert(tr =~= converts(j + 1, failed + 1) + seq![RunAction::Failed(e)]);
    }
}

/// A run whose every step succeeds starts its jobs in order, then writes the manifest
/// when there is one, then finishes.
pub proof fn lemma_successful_run(jobs: nat, has_manifest: bool, outcomes: Seq<Result<(), PackError>>)
    requires
        jobs <= usize::MAX,
        outcomes.len() == jobs + if has_manifest { 1int } else { 0int },
        forall|i: int| 0 <= i < outcomes.len() ==> #[trigger] outcomes[i] is Ok,
    ensures
        run_actions(jobs, has_manifest, outcomes) == converts(0, jobs) + (if has_manifest {
            seq![RunAction::WriteManifest]
        } else {
            Seq::empty()
        }) + seq![RunAction::Finished],
{
    let acts = run_actions(jobs, has_manifest, outcomes);
    let m_tail: Seq<RunAction> = if has_manifest {
        seq![RunAction::WriteManifest]
    } else {
        Seq::empty()
    };
    if jobs > 0 {
        lemma_trace_all_ok(jobs, has_manifest, 0, outcomes);
        assert(converts(0, jobs) =~= seq![RunAction::Convert(0)] + converts(1, jobs));
        assert(acts =~= converts(0, jobs) + m_tail + seq![RunAction::Finished]);
    } else if has_manifest {
        let rest = outcomes.drop_first();
        assert(outcomes[0] is Ok);
        assert(next_step(jobs, has_manifest, RunPhase::Exporting, outcomes[0]) == (RunPhase::Done, RunAction::Finished));
        assert(run_trace(jobs, has_manifest, RunPhase::Done, rest) =~= Seq::<RunAction>::empty());
        assert(converts(0, jobs) =~= Seq::<RunAction>::empty());
        assert(acts =~= converts(0, jobs) + m_tail + seq![RunAction::Finished]);
    } else {
        assert(converts(0, jobs) =~= Seq::<RunAction>::empty());
        assert(acts =~= converts(0, jobs) + m_tail + seq![RunAction::Finished]);
    }
}

/// When job `failed` fails with `e` after every earlier job succeeded, the run has started
/// jobs `0 ..= failed` and nothing after them, and its last action reports `e`; later
/// outcomes are never asked for.
pub proof fn lemma_failure_stops_run(jobs: nat, has_manifest: bool, failed: nat, e: PackError, outcomes: Seq<Result<(), PackError>>)
    requires
        failed < jobs <= usize::MAX,
        outcomes.len() > failed,
        forall|i: int| 0 <= i < failed ==> #[trigger] outcomes[i] is Ok,
        outcomes[failed as int] == Err::<(), PackError>(e),
    ensures
        run_actions(jobs, has_manifest, outcomes) == converts(0, failed + 1) + seq![RunAction::Failed(e)],
{
    lemma_trace_failure(jobs, has_manifest, 0, failed, e, outcomes);
    assert(converts(0, failed + 1) =~= seq![RunAction::Convert(0)] + converts(1, failed + 1));
    assert(run_actions(jobs, has_manifest, outcomes) =~= converts(0, failed + 1) + seq![RunAction::Failed(e)]);
}

/// Converting the tracks of a listing one by one reports, before the `k`-th of `N`
/// invocations, that track's name with index `k` and total `N`; when every step succeeds
/// the run starts those `N` invocations in order and ends with a single terminal action.
pub proof fn lemma_file_by_file_progress(
    names: Seq<Seq<char>>,
    format: AudioFormat,
    normalize: bool,
    outcomes: Seq<Result<(), PackError>>,
)
    requires
        input_positions(names).len() <= usize::MAX,
        outcomes.len() == input_positions(names).len() + if is_project(format) { 1int } else { 0int },
        forall|i: int| 0 <= i < outcomes.len() ==> #[trigger] outcomes[i] is Ok,
    ensures
        planned_jobs(names, format, normalize, false).len() == input_positions(names).len(),
        forall|k: int|
            0 <= k < input_positions(names).len() ==> #[trigger] planned_jobs(names, format, normalize, false)[k].0
                == (names[input_positions(names)[k]], k as nat, input_positions(names).len()),
        run_actions(input_positions(names).len(), is_project(format), outcomes) == converts(
            0,
            input_positions(names).len(),
        ) + (if is_project(format) {
            seq![RunAction::WriteManifest]
        } else {
            Seq::empty()
        }) + seq![RunAction::Finished],
{
    lemma_successful_run(input_positions(names).len(), is_project(format), outcomes);
}

/// When invocation `failed` exits with the non-zero code `code` after every earlier one
/// succeeded, no later invocation is started and the run's terminal action carries that
/// exit code.
pub proof fn lemma_exit_status_reported(jobs: nat, has_manifest: bool, failed: nat, code: i32, outcomes: Seq<Result<(), PackError>>)
    requires
        failed < jobs <= usize::MAX,
        code != 0,
        outcomes.len() > failed,
        forall|i: int| 0 <= i < failed ==> #[trigger] outcomes[i] == exit_result(Some(0i32)),
        outcomes[failed as int] == exit_result(Some(code)),
    ensures
        run_actions(jobs, has_manifest, outcomes) == converts(0, failed + 1) + seq![
            RunAction::Failed(PackError::EncodeFailed { code: Some(code) }),
        ],
{
    assert forall|i: int| 0 <= i < failed implies #[trigger] outcomes[i] is Ok by {
        assert(outcomes[i] == exit_result(Some(0i32)));
    }
    lemma_failure_stops_run(jobs, has_manifest, failed, PackError::EncodeFailed { code: Some(code) }, outcomes);
}

} // verus!

//! What holds while a plan is carried out.

use crate::outcome::{FatalReason, OutcomeView, StepView};
use crate::report::spec_halted;
use crate::runner::{is_outcome_of, lemma_settle, RunnerView};
use vstd::prelude::*;

verus! {

/// What `step` comes to when each of its operations succeeds.
pub open spec fn untroubled_outcome(step: StepView) -> OutcomeView {
    step.conclude(step.operations().len())
}

/// No operation has failed: every outcome so far is that of a step whose
/// operations all succeeded.
pub open spec fn untroubled(run: RunnerView) -> bool {
    forall|i: int|
        0 <= i < run.outcomes.len() ==> #[trigger] run.outcomes[i] == untroubled_outcome(
            run.steps[i],
        )
}

/// Each recorded outcome is the one that the step at its position calls
/// for. A skipped pair is recorded as skipped and never as fatal, a
/// missing source as fatal. A placement is completed, or fatal for a
/// failed write or a failed tool.
pub proof fn law_outcomes_follow_steps(run: RunnerView, i: int)
    requires
        run.orderly(),
        0 <= i < run.outcomes.len(),
    ensures
        match run.steps[i] {
            StepView::Skip { configuration, purpose } => run.outcomes[i]
                == (OutcomeView::SkippedMissingDestination { configuration, purpose }),
            StepView::Halt { source_path, destination_path } => run.outcomes[i]
                == (OutcomeView::Fatal {
                reason: FatalReason::MissingRequiredSource,
                source_path,
                destination_path,
            }),
            StepView::Place { operations, source_path, destination_path } => {
                ||| run.outcomes[i] == (OutcomeView::Completed { destination_path })
                ||| exists|failed: int|
                    0 <= failed < operations.len() && run.outcomes[i] == (OutcomeView::Fatal {
                        reason: (#[trigger] operations[failed]).failure(),
                        source_path,
                        destination_path,
                    })
            },
        },
{
    assert(is_outcome_of(run.outcomes[i], run.steps[i]));
    let count = choose|count: nat| #[trigger] run.steps[i].conclude(count) == run.outcomes[i];
    match run.steps[i] {
        StepView::Place { operations, source_path, destination_path } => {
            if count < operations.len() {
                assert(run.outcomes[i] == (OutcomeView::Fatal {
                    reason: operations[count as int].failure(),
                    source_path,
                    destination_path,
                }));
            }
        },
        _ => {},
    }
}

/// A failed operation ends the run at once: the current step is recorded
/// as fatal for the reason that belongs to the operation, and nothing is
/// pending any more.
pub proof fn law_failure_ends_the_run(run: RunnerView)
    requires
        run.orderly(),
        run.pending() is Some,
    ensures
        ({
            let after = run.resolve(false);
            &&& after.finished()
            &&& after.pending() is None
            &&& after.outcomes.len() == run.outcomes.len() + 1
            &&& after.outcomes.last() matches OutcomeView::Fatal { reason, .. }
            &&& reason == run.pending()->0.failure()
        }),
{
    let concluded = run.conclude_current();
    assert(spec_halted(concluded.outcomes));
}

/// Settling records no failure of an operation.
proof fn lemma_settle_keeps_untroubled(run: RunnerView)
    requires
        run.orderly(),
        untroubled(run),
    ensures
        untroubled(run.settle()),
    decreases run.steps.len() - run.outcomes.len(),
{
    if !(run.finished() || run.pending() is Some) {
        let next = run.conclude_current();
        assert(run.succeeded >= run.current().operations().len());
        assert(run.current().conclude(run.succeeded) == untroubled_outcome(run.current()));
        assert(untroubled(next));
        assert(next.orderly()) by {
            assert(is_outcome_of(next.outcomes[run.outcomes.len() as int], run.current()));
        }
        lemma_settle_keeps_untroubled(next);
    }
}

/// At its start a run is untroubled.
pub proof fn law_start_is_untroubled(steps: Seq<StepView>)
    ensures
        untroubled(RunnerView::start(steps)),
        RunnerView::start(steps).orderly(),
{
    let run = RunnerView { steps, succeeded: 0, outcomes: Seq::empty() };
    lemma_settle_keeps_untroubled(run);
    lemma_settle(run);
}

/// While every operation succeeds the run stays untroubled: each placement
/// is recorded as completed, each absent destination as skipped, and the
/// only fatal outcome there can be is a missing source.
pub proof fn law_success_keeps_the_run_untroubled(run: RunnerView)
    requires
        run.orderly(),
        untroubled(run),
    ensures
        untroubled(run.resolve(true)),
        run.resolve(true).orderly(),
{
    if run.pending() is Some {
        let next = RunnerView {
            steps: run.steps,
            succeeded: run.succeeded + 1,
            outcomes: run.outcomes,
        };
        assert(next.orderly());
        lemma_settle_keeps_untroubled(next);
        lemma_settle(next);
    }
}

/// A run that is over and was not stopped has an outcome for every step.
pub proof fn law_finished_run_accounts_for_every_step(run: RunnerView)
    requires
        run.orderly(),
        run.finished(),
        !spec_halted(run.outcomes),
    ensures
        run.outcomes.len() == run.steps.len(),
{
}

} // verus!

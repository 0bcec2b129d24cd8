//! Carrying out a plan: which operation the caller performs next, and what
//! its result means for the run.
//!
//! The runner performs nothing itself. It names the pending operation, is
//! told whether that operation succeeded, and records the outcome of each
//! step as soon as it is known. After a fatal outcome nothing is pending
//! any more.

use crate::outcome::{Operation, OperationView, OutcomeView, Step, StepView};
use crate::plan::step_views;
use crate::report::{spec_halted, RunReport};
use vstd::prelude::*;

verus! {

/// A run in progress as the contracts see it.
pub struct RunnerView {
    /// The plan.
    pub steps: Seq<StepView>,
    /// How many operations of the current step have succeeded.
    pub succeeded: nat,
    /// The outcomes of the steps before the current one.
    pub outcomes: Seq<OutcomeView>,
}

impl RunnerView {
    /// The run is over: every step has its outcome, or one was fatal.
    pub open spec fn finished(self) -> bool {
        self.outcomes.len() >= self.steps.len() || spec_halted(self.outcomes)
    }

    /// The step whose outcome is not known yet.
    pub open spec fn current(self) -> StepView {
        self.steps[self.outcomes.len() as int]
    }

    /// The operation that the caller has to perform next.
    pub open spec fn pending(self) -> Option<OperationView> {
        if !self.finished() && self.succeeded < self.current().operations().len() {
            Some(self.current().operations()[self.succeeded as int])
        } else {
            None
        }
    }

    /// The run after the current step has been given its outcome.
    pub open spec fn conclude_current(self) -> RunnerView {
        RunnerView {
            steps: self.steps,
            succeeded: 0,
            outcomes: self.outcomes.push(self.current().conclude(self.succeeded)),
        }
    }

    /// The run after every step that waits for no operation has been given
    /// its outcome.
    pub open spec fn settle(self) -> RunnerView
        decreases self.steps.len() - self.outcomes.len(),
    {
        if self.finished() || self.pending() is Some {
            self
        } else {
            self.conclude_current().settle()
        }
    }

    /// The run before anything has been performed.
    pub open spec fn start(steps: Seq<StepView>) -> RunnerView {
        (RunnerView { steps, succeeded: 0, outcomes: Seq::empty() }).settle()
    }

    /// The run after the pending operation has succeeded or failed. A
    /// failure is the fatal outcome of the current step.
    pub open spec fn resolve(self, success: bool) -> RunnerView {
        if self.pending() is None {
            self
        } else if success {
            (RunnerView {
                steps: self.steps,
                succeeded: self.succeeded + 1,
                outcomes: self.outcomes,
            }).settle()
        } else {
            self.conclude_current().settle()
        }
    }

    /// Each outcome belongs to the step at its position, and none follows
    /// a fatal one.
    pub open spec fn orderly(self) -> bool {
        &&& self.outcomes.len() <= self.steps.len()
        &&& forall|i: int|
            0 <= i < self.outcomes.len() ==> is_outcome_of(#[trigger] self.outcomes[i], self.steps[i])
        &&& forall|i: int| 0 <= i < self.outcomes.len() - 1 ==> !(#[trigger] self.outcomes[i] is Fatal)
    }
}

/// `outcome` is what `step` comes to for some number of operations that
/// succeeded.
pub open spec fn is_outcome_of(outcome: OutcomeView, step: StepView) -> bool {
    exists|count: nat| #[trigger] step.conclude(count) == outcome
}

/// Giving the current step its outcome keeps a run orderly.
proof fn lemma_conclude_current(run: RunnerView)
    requires
        run.orderly(),
        !run.finished(),
    ensures
        run.conclude_current().orderly(),
{
    let next = run.conclude_current();
    assert forall|i: int| 0 <= i < next.outcomes.len() implies is_outcome_of(
        #[trigger] next.outcomes[i],
        next.steps[i],
    ) by {
        if i == run.outcomes.len() {
            assert(next.steps[i].conclude(run.succeeded) == next.outcomes[i]);
        } else {
            assert(next.outcomes[i] == run.outcomes[i]);
        }
    }
}

/// Settling keeps a run orderly and leaves it finished or waiting for an
/// operation.
pub proof fn lemma_settle(run: RunnerView)
    requires
        run.orderly(),
    ensures
        run.settle().orderly(),
        run.settle().steps == run.steps,
        run.settle().finished() || run.settle().pending() is Some,
    decreases run.steps.len() - run.outcomes.len(),
{
    if !(run.finished() || run.pending() is Some) {
        lemma_conclude_current(run);
        lemma_settle(run.conclude_current());
    }
}

/// Walks through a plan while the caller performs its operations.
pub struct Runner {
    steps: Vec<Step>,
    succeeded: usize,
    report: RunReport,
}

impl View for Runner {
    type V = RunnerView;

    closed spec fn view(&self) -> RunnerView {
        RunnerView {
            steps: step_views(self.steps@),
            succeeded: self.succeeded as nat,
            outcomes: self.report@,
        }
    }
}

impl Runner {
    /// The runner is consistent. Every runner that this module hands out
    /// is well formed.
    pub closed spec fn wf(&self) -> bool {
        &&& self.report.wf()
        &&& self@.orderly()
        &&& self@.finished() || self@.pending() is Some
    }

    /// Tells whether the current step exists and is not waiting for an
    /// operation, so that its outcome is known.
    fn current_is_settled(&self) -> (settled: bool)
        requires
            self.report.wf(),
        ensures
            settled == !(self@.finished() || self@.pending() is Some),
    {
        let position = self.report.len();
        if position >= self.steps.len() || self.report.is_halted() {
            return false;
        }
        match &self.steps[position] {
            Step::Place { operations, .. } => self.succeeded >= operations.len(),
            _ => true,
        }
    }

    /// Gives every step that waits for no operation its outcome.
    fn settle(&mut self)
        requires
            old(self).report.wf(),
            old(self)@.orderly(),
        ensures
            final(self).wf(),
            final(self)@ == old(self)@.settle(),
    {
        proof {
            lemma_settle(self@);
        }
        while self.current_is_settled()
            invariant
                self.report.wf(),
                self@.orderly(),
                self@.settle() == old(self)@.settle(),
            decreases self.steps.len() - self.report@.len(),
        {
            let outcome = self.steps[self.report.len()].conclude(self.succeeded);
            proof {
                lemma_conclude_current(self@);
            }
            self.report.record(outcome);
            self.succeeded = 0;
        }
    }

    /// Begins the run of `steps`.
    pub fn new(steps: Vec<Step>) -> (runner: Runner)
        ensures
            runner.wf(),
            runner@ == RunnerView::start(step_views(steps@)),
    {
        let mut runner = Runner { steps, succeeded: 0, report: RunReport::new() };
        runner.settle();
        runner
    }

    /// The operation that the caller has to perform next, or nothing when
    /// the run is over.
    pub fn pending(&self) -> (operation: Option<&Operation>)
        requires
            self.wf(),
        ensures
            operation matches Some(found) ==> self@.pending() == Some(found@),
            operation is None ==> self@.pending() is None,
    {
        let position = self.report.len();
        if position >= self.steps.len() || self.report.is_halted() {
            return None;
        }
        match &self.steps[position] {
            Step::Place { operations, .. } => {
                if self.succeeded < operations.len() {
                    Some(&operations[self.succeeded])
                } else {
                    None
                }
            },
            _ => None,
        }
    }

    /// Takes up the result of the pending operation. On success the run
    /// goes on with the next operation. On failure the current step has a
    /// fatal outcome and the run is over. With nothing pending, nothing
    /// changes.
    pub fn resolve(&mut self, success: bool)
        requires
            old(self).wf(),
        ensures
            final(self).wf(),
            final(self)@ == old(self)@.resolve(success),
    {
        let position = self.report.len();
        if position >= self.steps.len() || self.report.is_halted() {
            return ;
        }
        let waiting = match &self.steps[position] {
            Step::Place { operations, .. } => operations.len(),
            _ => 0,
        };
        if self.succeeded >= waiting {
            return ;
        }
        if success {
            self.succeeded = self.succeeded + 1;
        } else {
            let outcome = self.steps[self.report.len()].conclude(self.succeeded);
            proof {
                lemma_conclude_current(self@);
            }
            self.report.record(outcome);
            self.succeeded = 0;
        }
        self.settle();
    }

    /// Tells whether the run is over.
    pub fn is_finished(&self) -> (finished: bool)
        requires
            self.wf(),
        ensures
            finished == self@.finished(),
            finished == self@.pending() is None,
    {
        self.report.len() >= self.steps.len() || self.report.is_halted()
    }

    /// The outcomes so far: one for each step before the current one, in
    /// the order of the plan.
    pub fn report(&self) -> (report: &RunReport)
        requires
            self.wf(),
        ensures
            report.wf(),
            report@ == self@.outcomes,
            self@.orderly(),
    {
        &self.report
    }

    /// Ends the run and hands out its report.
    pub fn into_report(self) -> (report: RunReport)
        requires
            self.wf(),
        ensures
            report.wf(),
            report@ == self@.outcomes,
            self@.orderly(),
    {
        self.report
    }
}

} // verus!

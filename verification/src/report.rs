//! The record of a run: every outcome in the order of its pair, and whether
//! the run has to stop.

use crate::outcome::{OutcomeView, SyncOutcome};
use vstd::prelude::*;

verus! {

/// The run stops after the last of `outcomes`: it is fatal.
pub open spec fn spec_halted(outcomes: Seq<OutcomeView>) -> bool {
    outcomes.len() > 0 && outcomes.last() is Fatal
}

/// How many of `outcomes` are completed placements.
pub open spec fn spec_completed_count(outcomes: Seq<OutcomeView>) -> nat
    decreases outcomes.len(),
{
    if outcomes.len() == 0 {
        0
    } else if outcomes.last() is Completed {
        spec_completed_count(outcomes.drop_last()) + 1
    } else {
        spec_completed_count(outcomes.drop_last())
    }
}

/// How many of `outcomes` are skipped pairs.
pub open spec fn spec_skipped_count(outcomes: Seq<OutcomeView>) -> nat
    decreases outcomes.len(),
{
    if outcomes.len() == 0 {
        0
    } else if outcomes.last() is SkippedMissingDestination {
        spec_skipped_count(outcomes.drop_last()) + 1
    } else {
        spec_skipped_count(outcomes.drop_last())
    }
}

/// The lines that report `outcomes`, each closed by a line feed.
pub open spec fn spec_summary(outcomes: Seq<OutcomeView>) -> Seq<char>
    decreases outcomes.len(),
{
    if outcomes.len() == 0 {
        Seq::empty()
    } else {
        spec_summary(outcomes.drop_last()) + outcomes.last().describe() + seq!['\n']
    }
}

/// Collects the outcomes of a run. Nothing is recorded after a fatal
/// outcome, so a fatal outcome is always the last.
pub struct RunReport {
    outcomes: Vec<SyncOutcome>,
}

impl View for RunReport {
    type V = Seq<OutcomeView>;

    /// The recorded outcomes, oldest first.
    closed spec fn view(&self) -> Seq<OutcomeView> {
        self.outcomes@.map_values(|outcome: SyncOutcome| outcome@)
    }
}

impl RunReport {
    /// No outcome was recorded after a fatal one. Every report that this
    /// module hands out is well formed.
    pub open spec fn wf(&self) -> bool {
        forall|i: int| 0 <= i < self@.len() - 1 ==> !(#[trigger] self@[i] is Fatal)
    }

    /// The report of a run that has not begun.
    pub fn new() -> (report: RunReport)
        ensures
            report.wf(),
            report@ == Seq::<OutcomeView>::empty(),
    {
        let report = RunReport { outcomes: Vec::new() };
        assert(report@ =~= Seq::<OutcomeView>::empty());
        report
    }

    /// Tells whether a fatal outcome has been recorded: no further pair may
    /// be attempted.
    pub fn is_halted(&self) -> (halted: bool)
        ensures
            halted == spec_halted(self@),
    {
        let n = self.outcomes.len();
        n > 0 && self.outcomes[n - 1].is_fatal()
    }

    /// Records the outcome of the pair that was attempted last. After a
    /// fatal outcome nothing is taken up any more and the report stays as
    /// it is.
    pub fn record(&mut self, outcome: SyncOutcome) -> (accepted: bool)
        requires
            old(self).wf(),
        ensures
            final(self).wf(),
            accepted == !spec_halted(old(self)@),
            accepted ==> final(self)@ == old(self)@.push(outcome@),
            !accepted ==> final(self)@ == old(self)@,
    {
        if self.is_halted() {
            return false;
        }
        self.outcomes.push(outcome);
        assert(self@ =~= old(self)@.push(outcome@));
        true
    }

    /// Tells whether no recorded outcome is fatal.
    pub fn succeeded(&self) -> (success: bool)
        requires
            self.wf(),
        ensures
            success == forall|i: int| 0 <= i < self@.len() ==> !(#[trigger] self@[i] is Fatal),
    {
        let halted = self.is_halted();
        proof {
            if halted {
                assert(self@[self@.len() - 1] is Fatal);
            }
        }
        !halted
    }

    /// The status for the process to exit with: zero exactly when the run
    /// succeeded.
    pub fn exit_code(&self) -> (code: i32)
        ensures
            code == (if spec_halted(self@) { 1i32 } else { 0i32 }),
    {
        if self.is_halted() {
            1
        } else {
            0
        }
    }

    /// The number of recorded outcomes.
    pub fn len(&self) -> (count: usize)
        ensures
            count == self@.len(),
    {
        self.outcomes.len()
    }

    /// The outcome recorded at position `index`, counted from zero.
    pub fn outcome(&self, index: usize) -> (outcome: Option<SyncOutcome>)
        ensures
            index < self@.len() ==> (outcome matches Some(found) && found@ == self@[index as int]),
            index >= self@.len() ==> outcome is None,
    {
        if index < self.outcomes.len() {
            Some(self.outcomes[index].clone())
        } else {
            None
        }
    }

    /// The fatal outcome that ended the run, if there is one.
    pub fn fatal(&self) -> (outcome: Option<SyncOutcome>)
        ensures
            spec_halted(self@) ==> (outcome matches Some(found) && found@ == self@.last()),
            !spec_halted(self@) ==> outcome is None,
    {
        if self.is_halted() {
            Some(self.outcomes[self.outcomes.len() - 1].clone())
        } else {
            None
        }
    }

    /// The number of completed placements.
    pub fn completed_count(&self) -> (count: usize)
        ensures
            count == spec_completed_count(self@),
    {
        let mut count: usize = 0;
        let mut i: usize = 0;
        while i < self.outcomes.len()
            invariant
                i <= self.outcomes.len(),
                count <= i,
                count == spec_completed_count(self@.take(i as int)),
            decreases self.outcomes.len() - i,
        {
            assert(self@.take(i + 1).drop_last() =~= self@.take(i as int));
            if let SyncOutcome::Completed { .. } = &self.outcomes[i] {
                count += 1;
            }
            i += 1;
        }
        assert(self@.take(i as int) =~= self@);
        count
    }

    /// The number of pairs that were skipped for want of a destination.
    pub fn skipped_count(&self) -> (count: usize)
        ensures
            count == spec_skipped_count(self@),
    {
        let mut count: usize = 0;
        let mut i: usize = 0;
        while i < self.outcomes.len()
            invariant
                i <= self.outcomes.len(),
                count <= i,
                count == spec_skipped_count(self@.take(i as int)),
            decreases self.outcomes.len() - i,
        {
            assert(self@.take(i + 1).drop_last() =~= self@.take(i as int));
            if let SyncOutcome::SkippedMissingDestination { .. } = &self.outcomes[i] {
                count += 1;
            }
            i += 1;
        }
        assert(self@.take(i as int) =~= self@);
        count
    }

    /// Renders the report: one line for each outcome, in the order in which
    /// they were recorded.
    pub fn summary(&self) -> (text: String)
        ensures
            text@ == spec_summary(self@),
    {
        let mut text = String::new();
        let mut i: usize = 0;
        while i < self.outcomes.len()
            invariant
                i <= self.outcomes.len(),
                text@ == spec_summary(self@.take(i as int)),
            decreases self.outcomes.len() - i,
        {
            assert(self@.take(i + 1).drop_last() =~= self@.take(i as int));
            let line = self.outcomes[i].describe();
            text.append(line.as_str());
            text.append("\n");
            proof {
                reveal_strlit("\n");
                assert("\n"@ =~= seq!['\n']);
            }
            i += 1;
        }
        assert(self@.take(i as int) =~= self@);
        text
    }
}

} // verus!

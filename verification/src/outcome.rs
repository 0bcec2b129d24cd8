//! What a run plans for one artifact and one configuration, and how the
//! attempt ended.

use crate::registry::{BuildConfiguration, SyncPurpose};
use vstd::prelude::*;

verus! {

/// Why a placement failed for good.
#[derive(Clone, Copy, Debug, PartialEq, Eq, Structural)]
pub enum FatalReason {
    /// A declared dependency or resource directory is absent.
    MissingRequiredSource,
    /// The archive packer did not complete successfully.
    ExternalToolFailure,
    /// A copy or the creation of a directory failed.
    FilesystemWriteFailure,
}

impl FatalReason {
    /// The words that name the reason in messages.
    pub open spec fn spec_label(self) -> Seq<char> {
        match self {
            FatalReason::MissingRequiredSource => "required source is missing"@,
            FatalReason::ExternalToolFailure => "external tool failed"@,
            FatalReason::FilesystemWriteFailure => "filesystem write failed"@,
        }
    }

    /// The words that name the reason in messages.
    pub fn label(self) -> (text: &'static str)
        ensures
            text@ == self.spec_label(),
    {
        match self {
            FatalReason::MissingRequiredSource => "required source is missing",
            FatalReason::ExternalToolFailure => "external tool failed",
            FatalReason::FilesystemWriteFailure => "filesystem write failed",
        }
    }
}

/// The result of one placement attempt.
#[derive(Debug, PartialEq, Eq)]
pub enum SyncOutcome {
    /// The artifact stands at `destination_path`.
    Completed { destination_path: String },
    /// The configuration's destination directory is absent: it may not be
    /// built yet.
    SkippedMissingDestination { configuration: BuildConfiguration, purpose: SyncPurpose },
    /// The placement failed and the run must stop.
    Fatal { reason: FatalReason, source_path: String, destination_path: String },
}

/// An outcome as the contracts see it.
pub enum OutcomeView {
    Completed { destination_path: Seq<char> },
    SkippedMissingDestination { configuration: BuildConfiguration, purpose: SyncPurpose },
    Fatal { reason: FatalReason, source_path: Seq<char>, destination_path: Seq<char> },
}

impl OutcomeView {
    /// The line that reports the outcome.
    pub open spec fn describe(self) -> Seq<char> {
        match self {
            OutcomeView::Completed { destination_path } => "completed: "@ + destination_path,
            OutcomeView::SkippedMissingDestination { configuration, purpose } => "skipped: "@
                + configuration.spec_name() + " build directory for "@ + purpose.spec_label()
                + " does not exist"@,
            OutcomeView::Fatal { reason, source_path, destination_path } => "fatal: "@
                + reason.spec_label() + ": "@ + source_path + " -> "@ + destination_path,
        }
    }
}

impl View for SyncOutcome {
    type V = OutcomeView;

    open spec fn view(&self) -> OutcomeView {
        match *self {
            SyncOutcome::Completed { destination_path } => OutcomeView::Completed {
                destination_path: destination_path@,
            },
            SyncOutcome::SkippedMissingDestination {
                configuration,
                purpose,
            } => OutcomeView::SkippedMissingDestination { configuration, purpose },
            SyncOutcome::Fatal { reason, source_path, destination_path } => OutcomeView::Fatal {
                reason,
                source_path: source_path@,
                destination_path: destination_path@,
            },
        }
    }
}

impl Clone for SyncOutcome {
    fn clone(&self) -> (copy: SyncOutcome)
        ensures
            copy@ == self@,
    {
        match self {
            SyncOutcome::Completed { destination_path } => SyncOutcome::Completed {
                destination_path: destination_path.clone(),
            },
            SyncOutcome::SkippedMissingDestination {
                configuration,
                purpose,
            } => SyncOutcome::SkippedMissingDestination {
                configuration: *configuration,
                purpose: *purpose,
            },
            SyncOutcome::Fatal { reason, source_path, destination_path } => SyncOutcome::Fatal {
                reason: *reason,
                source_path: source_path.clone(),
                destination_path: destination_path.clone(),
            },
        }
    }
}

impl SyncOutcome {
    /// Tells whether the outcome stops the run.
    pub fn is_fatal(&self) -> (fatal: bool)
        ensures
            fatal == (self@ is Fatal),
    {
        match self {
            SyncOutcome::Fatal { .. } => true,
            _ => false,
        }
    }

    /// Renders the line that reports the outcome.
    pub fn describe(&self) -> (line: String)
        ensures
            line@ == self@.describe(),
    {
        match self {
            SyncOutcome::Completed { destination_path } => {
                let mut line = String::from_str("completed: ");
                line.append(destination_path.as_str());
                line
            },
            SyncOutcome::SkippedMissingDestination { configuration, purpose } => {
                let mut line = String::from_str("skipped: ");
                line.append(configuration.name());
                line.append(" build directory for ");
                line.append(purpose.label());
                line.append(" does not exist");
                line
            },
            SyncOutcome::Fatal { reason, source_path, destination_path } => {
                let mut line = String::from_str("fatal: ");
                line.append(reason.label());
                line.append(": ");
                line.append(source_path.as_str());
                line.append(" -> ");
                line.append(destination_path.as_str());
                line
            },
        }
    }
}

/// One write that the caller carries out for the run.
#[derive(Debug, PartialEq, Eq)]
pub enum Operation {
    /// Copy the file byte for byte, replacing what stands at `destination`.
    CopyFile { source: String, destination: String },
    /// Create the directory `path`.
    CreateDirectory { path: String },
    /// Have the archive packer bundle `source_directory` into `archive`
    /// under the category label `label`, and wait until it is done.
    PackArchive { source_directory: String, archive: String, label: String },
}

/// An operation as the contracts see it.
pub enum OperationView {
    CopyFile { source: Seq<char>, destination: Seq<char> },
    CreateDirectory { path: Seq<char> },
    PackArchive { source_directory: Seq<char>, archive: Seq<char>, label: Seq<char> },
}

impl OperationView {
    /// What it means when the operation fails.
    pub open spec fn failure(self) -> FatalReason {
        match self {
            OperationView::PackArchive { .. } => FatalReason::ExternalToolFailure,
            _ => FatalReason::FilesystemWriteFailure,
        }
    }

    /// The path that exists once the operation has succeeded.
    pub open spec fn product(self) -> Seq<char> {
        match self {
            OperationView::CopyFile { destination, .. } => destination,
            OperationView::CreateDirectory { path } => path,
            OperationView::PackArchive { archive, .. } => archive,
        }
    }
}

impl View for Operation {
    type V = OperationView;

    open spec fn view(&self) -> OperationView {
        match *self {
            Operation::CopyFile { source, destination } => OperationView::CopyFile {
                source: source@,
                destination: destination@,
            },
            Operation::CreateDirectory { path } => OperationView::CreateDirectory { path: path@ },
            Operation::PackArchive {
                source_directory,
                archive,
                label,
            } => OperationView::PackArchive {
                source_directory: source_directory@,
                archive: archive@,
                label: label@,
            },
        }
    }
}

impl Clone for Operation {
    fn clone(&self) -> (copy: Operation)
        ensures
            copy@ == self@,
    {
        match self {
            Operation::CopyFile { source, destination } => Operation::CopyFile {
                source: source.clone(),
                destination: destination.clone(),
            },
            Operation::CreateDirectory { path } => Operation::CreateDirectory {
                path: path.clone(),
            },
            Operation::PackArchive { source_directory, archive, label } => Operation::PackArchive {
                source_directory: source_directory.clone(),
                archive: archive.clone(),
                label: label.clone(),
            },
        }
    }
}

impl Operation {
    /// What it means when the operation fails.
    pub fn failure(&self) -> (reason: FatalReason)
        ensures
            reason == self@.failure(),
    {
        match self {
            Operation::PackArchive { .. } => FatalReason::ExternalToolFailure,
            _ => FatalReason::FilesystemWriteFailure,
        }
    }
}

/// The views of a list of operations, in the same order.
pub open spec fn operation_views(operations: Seq<Operation>) -> Seq<OperationView> {
    operations.map_values(|operation: Operation| operation@)
}

/// What the run decided for one artifact and one configuration.
#[derive(Debug, PartialEq, Eq)]
pub enum Step {
    /// The destination directory is absent: nothing is written.
    Skip { configuration: BuildConfiguration, purpose: SyncPurpose },
    /// The source is absent: nothing is written and the run ends here.
    Halt { source_path: String, destination_path: String },
    /// The caller carries out `operations` in order and stops at the first
    /// that fails.
    Place { operations: Vec<Operation>, source_path: String, destination_path: String },
}

/// A step as the contracts see it.
pub enum StepView {
    Skip { configuration: BuildConfiguration, purpose: SyncPurpose },
    Halt { source_path: Seq<char>, destination_path: Seq<char> },
    Place { operations: Seq<OperationView>, source_path: Seq<char>, destination_path: Seq<char> },
}

impl StepView {
    /// The writes that the step asks for.
    pub open spec fn operations(self) -> Seq<OperationView> {
        match self {
            StepView::Place { operations, .. } => operations,
            _ => Seq::empty(),
        }
    }

    /// The outcome of the step when the first `succeeded` of its operations
    /// succeeded and the next one, if there is one, failed.
    pub open spec fn conclude(self, succeeded: nat) -> OutcomeView {
        match self {
            StepView::Skip { configuration, purpose } => OutcomeView::SkippedMissingDestination {
                configuration,
                purpose,
            },
            StepView::Halt { source_path, destination_path } => OutcomeView::Fatal {
                reason: FatalReason::MissingRequiredSource,
                source_path,
                destination_path,
            },
            StepView::Place { operations, source_path, destination_path } => {
                if succeeded >= operations.len() {
                    OutcomeView::Completed { destination_path }
                } else {
                    OutcomeView::Fatal {
                        reason: operations[succeeded as int].failure(),
                        source_path,
                        destination_path,
                    }
                }
            },
        }
    }
}

impl View for Step {
    type V = StepView;

    open spec fn view(&self) -> StepView {
        match *self {
            Step::Skip { configuration, purpose } => StepView::Skip { configuration, purpose },
            Step::Halt { source_path, destination_path } => StepView::Halt {
                source_path: source_path@,
                destination_path: destination_path@,
            },
            Step::Place { operations, source_path, destination_path } => StepView::Place {
                operations: operation_views(operations@),
                source_path: source_path@,
                destination_path: destination_path@,
            },
        }
    }
}

impl Clone for Step {
    fn clone(&self) -> (copy: Step)
        ensures
            copy@ == self@,
    {
        match self {
            Step::Skip { configuration, purpose } => Step::Skip {
                configuration: *configuration,
                purpose: *purpose,
            },
            Step::Halt { source_path, destination_path } => Step::Halt {
                source_path: source_path.clone(),
                destination_path: destination_path.clone(),
            },
            Step::Place { operations, source_path, destination_path } => {
                let mut copies: Vec<Operation> = Vec::new();
                let mut i: usize = 0;
                while i < operations.len()
                    invariant
                        i <= operations.len(),
                        copies.len() == i,
                        forall|j: int| 0 <= j < i ==> #[trigger] copies[j]@ == operations[j]@,
                    decreases operations.len() - i,
                {
                    copies.push(operations[i].clone());
                    i += 1;
                }
                assert(operation_views(copies@) =~= operation_views(operations@));
                Step::Place {
                    operations: copies,
                    source_path: source_path.clone(),
                    destination_path: destination_path.clone(),
                }
            },
        }
    }
}

impl Step {
    /// Tells whether the step ends the run before anything is attempted.
    pub fn is_halt(&self) -> (halt: bool)
        ensures
            halt == (self@ is Halt),
    {
        match self {
            Step::Halt { .. } => true,
            _ => false,
        }
    }

    /// The outcome of the step, given how many of its operations succeeded
    /// before the first failure. A step without operations has its outcome
    /// whatever the count.
    pub fn conclude(&self, succeeded: usize) -> (outcome: SyncOutcome)
        ensures
            outcome@ == self@.conclude(succeeded as nat),
    {
        match self {
            Step::Skip { configuration, purpose } => SyncOutcome::SkippedMissingDestination {
                configuration: *configuration,
                purpose: *purpose,
            },
            Step::Halt { source_path, destination_path } => SyncOutcome::Fatal {
                reason: FatalReason::MissingRequiredSource,
                source_path: source_path.clone(),
                destination_path: destination_path.clone(),
            },
            Step::Place { operations, source_path, destination_path } => {
                if succeeded >= operations.len() {
                    SyncOutcome::Completed { destination_path: destination_path.clone() }
                } else {
                    SyncOutcome::Fatal {
                        reason: operations[succeeded].failure(),
                        source_path: source_path.clone(),
                        destination_path: destination_path.clone(),
                    }
                }
            },
        }
    }
}

} // verus!

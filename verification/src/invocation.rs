//! From the way the engine's process ended to the outcome of the command.

use vstd::prelude::*;
use vstd::string::StringExecFns;
use crate::command::{CommandDescriptor, CommandView};

verus! {

/// How the engine's process ended, once it had been started.
#[derive(Clone, Copy, Debug, PartialEq, Eq)]
pub enum Termination {
    /// The process exited with this status.
    Exited(i32),
    /// The process was ended by a signal and left no status.
    Signaled,
}

impl Termination {
    /// The process exited with status zero.
    pub open spec fn succeeded(self) -> bool {
        self == Termination::Exited(0)
    }

    /// Whether the process exited with status zero.
    pub fn success(&self) -> (b: bool)
        ensures
            b == self.succeeded(),
    {
        match self {
            Termination::Exited(code) => *code == 0,
            Termination::Signaled => false,
        }
    }
}

/// What a command came to.
#[derive(Debug)]
pub enum ExecutionOutcome {
    /// The engine succeeded; the output is at this location.
    Success(String),
    /// The engine did not succeed; the text names the operation.
    Failure(String),
}

/// An `ExecutionOutcome` as character sequences.
pub enum OutcomeView {
    Success(Seq<char>),
    Failure(Seq<char>),
}

impl View for ExecutionOutcome {
    type V = OutcomeView;

    open spec fn view(&self) -> OutcomeView {
        match *self {
            ExecutionOutcome::Success(location) => OutcomeView::Success(location@),
            ExecutionOutcome::Failure(label) => OutcomeView::Failure(label@),
        }
    }
}

/// The outcome of `command` after a process that ended as `termination`
/// says: success, with the output location that the command declares, for
/// exit status zero; failure, under the label of the command's kind, for any
/// other status and for a signal.
pub open spec fn outcome_of(command: CommandView, termination: Termination) -> OutcomeView {
    if termination.succeeded() {
        OutcomeView::Success(command.output)
    } else {
        OutcomeView::Failure(command.kind.failure_label())
    }
}

/// Classifies the end of the process that ran `command`.
pub fn classify(command: &CommandDescriptor, termination: Termination) -> (outcome:
    ExecutionOutcome)
    ensures
        outcome@ == outcome_of(command@, termination),
{
    if termination.success() {
        ExecutionOutcome::Success(command.output.clone())
    } else {
        ExecutionOutcome::Failure(String::from_str(command.kind.label()))
    }
}

} // verus!

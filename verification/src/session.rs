//! The session loop's decisions: what to do with each outcome of reading a
//! line from the editor.

use vstd::prelude::*;

use crate::commands::is_history_request;
use crate::text::{trim, trim_str};

verus! {

/// What reading a line from the editor gave.
pub enum ReadOutcome {
    /// A line was entered.
    Line(String),
    /// The user pressed Ctrl-C.
    Interrupted,
    /// The input ended (Ctrl-D).
    Eof,
    /// Reading failed for another reason.
    Failed,
}

/// What the session does next.
#[derive(Clone, Debug, PartialEq, Eq)]
pub enum Step {
    /// Nothing: prompt again.
    Skip,
    /// Show the command history, then prompt again.
    ShowHistory,
    /// Carry out the (trimmed) line; the session goes on unless it ends the session.
    Run(String),
    /// Say that the connection was lost and end the session.
    Disconnect,
    /// Report the read error and end the session.
    Abort,
}

/// The mathematical form of a `Step`.
pub enum StepView {
    Skip,
    ShowHistory,
    Run(Seq<char>),
    Disconnect,
    Abort,
}

impl View for Step {
    type V = StepView;

    open spec fn view(&self) -> StepView {
        match self {
            Step::Skip => StepView::Skip,
            Step::ShowHistory => StepView::ShowHistory,
            Step::Run(line) => StepView::Run(line@),
            Step::Disconnect => StepView::Disconnect,
            Step::Abort => StepView::Abort,
        }
    }
}

/// What the session does with a read outcome: a line is trimmed; a blank
/// one is skipped, exactly `/history` shows the history, any other is run.
/// Ctrl-C prompts again, the end of input disconnects, and any other read
/// error aborts.
pub open spec fn step_of(o: ReadOutcome) -> StepView {
    match o {
        ReadOutcome::Line(line) => {
            let t = trim(line@);
            if t.len() == 0 {
                StepView::Skip
            } else if t == "/history"@ {
                StepView::ShowHistory
            } else {
                StepView::Run(t)
            }
        },
        ReadOutcome::Interrupted => StepView::Skip,
        ReadOutcome::Eof => StepView::Disconnect,
        ReadOutcome::Failed => StepView::Abort,
    }
}

/// What the session does next after reading `outcome`.
pub fn next_step(outcome: ReadOutcome) -> (r: Step)
    ensures
        r@ == step_of(outcome),
{
    match outcome {
        ReadOutcome::Line(line) => {
            let t = trim_str(line.as_str());
            if t.as_str().is_empty() {
                Step::Skip
            } else if is_history_request(t.as_str()) {
                Step::ShowHistory
            } else {
                Step::Run(t)
            }
        },
        ReadOutcome::Interrupted => Step::Skip,
        ReadOutcome::Eof => Step::Disconnect,
        ReadOutcome::Failed => Step::Abort,
    }
}

} // verus!

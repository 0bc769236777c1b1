//! The interactive session as a state machine.
//!
//! The session reads a line, dispatches it, reports the outcome, and either
//! reads again or is done. The machine decides; its driver does the work:
//! it reads the line, runs it, prints the message, and hands each result back
//! as an event.

use vstd::prelude::*;

use crate::task::TaskAction;

verus! {

/// The number of lines of history that a session keeps, unless the caller
/// sets another.
pub const DEFAULT_HISTORY_SIZE: usize = 3;

/// Where a session stands.
#[derive(Debug, PartialEq, Eq)]
pub enum SessionState {
    /// Waiting for the next line.
    Reading,
    /// A line was submitted and is to be run.
    Dispatching { line: String },
    /// The line has run: its action, and the error to print if it failed.
    Reporting { action: TaskAction, message: Option<String> },
    /// The session is over, with the action that ended it.
    Done(TaskAction),
}

/// What the driver hands back to the machine.
#[derive(Debug, PartialEq, Eq)]
pub enum SessionEvent {
    /// A line was submitted.
    Line(String),
    /// The line has run.
    Outcome(Result<TaskAction, String>),
    /// The outcome was shown to the user.
    Reported,
}

/// The action that a run counts as: its own, or `Continue` where it failed.
pub open spec fn outcome_action(outcome: Result<TaskAction, String>) -> TaskAction {
    match outcome {
        Ok(action) => action,
        Err(_) => TaskAction::Continue,
    }
}

/// The text to print for a run: its error, if it failed.
pub open spec fn outcome_message(outcome: Result<TaskAction, String>) -> Option<String> {
    match outcome {
        Ok(_) => None,
        Err(e) => Some(e),
    }
}

/// The state that follows a state on an event. An event that the state does
/// not wait for leaves it as it is.
pub open spec fn next_state(state: SessionState, event: SessionEvent) -> SessionState {
    match (state, event) {
        (SessionState::Reading, SessionEvent::Line(line)) => SessionState::Dispatching { line },
        (SessionState::Dispatching { .. }, SessionEvent::Outcome(outcome)) => SessionState::Reporting {
            action: outcome_action(outcome),
            message: outcome_message(outcome),
        },
        (SessionState::Reporting { action, .. }, SessionEvent::Reported) => if action
            == TaskAction::Continue {
            SessionState::Reading
        } else {
            SessionState::Done(action)
        },
        (state, _) => state,
    }
}

/// Whether the driver is to read a line in this state.
pub open spec fn reads_line(state: SessionState) -> bool {
    state is Reading
}

impl SessionState {
    /// The state in which a session begins.
    pub fn start() -> (s: Self)
        ensures
            s == SessionState::Reading,
    {
        SessionState::Reading
    }

    /// The state that follows this one on an event.
    pub fn advance(self, event: SessionEvent) -> (s: Self)
        ensures
            s == next_state(self, event),
    {
        match (self, event) {
            (SessionState::Reading, SessionEvent::Line(line)) => SessionState::Dispatching { line },
            (SessionState::Dispatching { .. }, SessionEvent::Outcome(outcome)) => match outcome {
                Ok(action) => SessionState::Reporting { action, message: None },
                Err(e) => SessionState::Reporting {
                    action: TaskAction::Continue,
                    message: Some(e),
                },
            },
            (SessionState::Reporting { action, .. }, SessionEvent::Reported) => match action {
                TaskAction::Continue => SessionState::Reading,
                _ => SessionState::Done(action),
            },
            (state, _) => state,
        }
    }

    /// Whether the driver is to read a line now.
    pub fn wants_line(&self) -> (r: bool)
        ensures
            r == reads_line(*self),
    {
        match self {
            SessionState::Reading => true,
            _ => false,
        }
    }

    /// The action with which the session ended, once it has.
    pub fn finished(&self) -> (r: Option<TaskAction>)
        ensures
            r == match *self {
                SessionState::Done(action) => Some(action),
                _ => None::<TaskAction>,
            },
    {
        match self {
            SessionState::Done(action) => Some(*action),
            _ => None,
        }
    }
}

/// A session that is done stays done, whatever comes, and reads no line.
pub proof fn done_is_final(action: TaskAction, event: SessionEvent)
    ensures
        next_state(SessionState::Done(action), event) == SessionState::Done(action),
        !reads_line(SessionState::Done(action)),
{
}

/// Once a line has run with an action other than `Continue`, the session
/// reports and is done with that action: it does not read again before.
pub proof fn leaving_action_ends_session(line: String, action: TaskAction)
    requires
        action != TaskAction::Continue,
    ensures
        ({
            let reporting = next_state(
                SessionState::Dispatching { line },
                SessionEvent::Outcome(Ok(action)),
            );
            &&& !reads_line(reporting)
            &&& next_state(reporting, SessionEvent::Reported) == SessionState::Done(action)
        }),
{
}

/// A line that ran with `Continue`, or that failed, is reported and the
/// session reads again.
pub proof fn continuing_outcome_reads_again(line: String, outcome: Result<TaskAction, String>)
    requires
        outcome_action(outcome) == TaskAction::Continue,
    ensures
        ({
            let reporting = next_state(SessionState::Dispatching { line }, SessionEvent::Outcome(outcome));
            &&& reporting is Reporting
            &&& reporting->message == outcome_message(outcome)
            &&& next_state(reporting, SessionEvent::Reported) == SessionState::Reading
        }),
{
}

/// Dispatching always leads to reporting, and reporting to reading or to the
/// end: the session is done exactly when the action reported is not `Continue`.
pub proof fn session_steps(state: SessionState, event: SessionEvent)
    ensures
        state is Reading && event is Line ==> next_state(state, event) is Dispatching,
        state is Dispatching && event is Outcome ==> next_state(state, event) is Reporting,
        state is Reporting && event is Reported ==> (next_state(state, event) is Done <==> state->action
            != TaskAction::Continue),
        state is Reporting && event is Reported ==> (next_state(state, event) is Reading <==> state->action
            == TaskAction::Continue),
        next_state(state, event) is Done ==> state is Done || state is Reporting,
{
}

} // verus!

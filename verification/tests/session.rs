use multicall::session::{SessionEvent, SessionState, DEFAULT_HISTORY_SIZE};
use multicall::TaskAction;

fn dispatching() -> SessionState {
    SessionState::start().advance(SessionEvent::Line("quit".to_string()))
}

#[test]
fn a_session_starts_reading() {
    assert_eq!(SessionState::start(), SessionState::Reading);
    assert!(SessionState::start().wants_line());
    assert_eq!(SessionState::start().finished(), None);
}

#[test]
fn a_line_leads_to_dispatching() {
    assert_eq!(dispatching(), SessionState::Dispatching { line: "quit".to_string() });
    assert!(!dispatching().wants_line());
}

#[test]
fn exit_ends_the_session_without_another_read() {
    let reporting = dispatching().advance(SessionEvent::Outcome(Ok(TaskAction::Exit)));
    assert_eq!(reporting, SessionState::Reporting { action: TaskAction::Exit, message: None });
    assert!(!reporting.wants_line());
    let done = reporting.advance(SessionEvent::Reported);
    assert_eq!(done, SessionState::Done(TaskAction::Exit));
    assert!(!done.wants_line());
    assert_eq!(done.finished(), Some(TaskAction::Exit));
}

#[test]
fn break_ends_the_session_too() {
    let done = dispatching()
        .advance(SessionEvent::Outcome(Ok(TaskAction::Break)))
        .advance(SessionEvent::Reported);
    assert_eq!(done.finished(), Some(TaskAction::Break));
}

#[test]
fn continue_reads_again() {
    let reporting = dispatching().advance(SessionEvent::Outcome(Ok(TaskAction::Continue)));
    assert_eq!(reporting, SessionState::Reporting { action: TaskAction::Continue, message: None });
    let next = reporting.advance(SessionEvent::Reported);
    assert_eq!(next, SessionState::Reading);
    assert!(next.wants_line());
}

#[test]
fn an_error_is_reported_and_the_session_reads_again() {
    let reporting = dispatching().advance(SessionEvent::Outcome(Err("error: Invalid quoting".to_string())));
    assert_eq!(
        reporting,
        SessionState::Reporting {
            action: TaskAction::Continue,
            message: Some("error: Invalid quoting".to_string()),
        }
    );
    assert_eq!(reporting.advance(SessionEvent::Reported), SessionState::Reading);
}

#[test]
fn a_finished_session_stays_finished() {
    let done = SessionState::Done(TaskAction::Exit);
    let done = done.advance(SessionEvent::Line("a".to_string()));
    let done = done.advance(SessionEvent::Outcome(Ok(TaskAction::Continue)));
    let done = done.advance(SessionEvent::Reported);
    assert_eq!(done, SessionState::Done(TaskAction::Exit));
}

#[test]
fn an_event_out_of_turn_changes_nothing() {
    assert_eq!(SessionState::Reading.advance(SessionEvent::Reported), SessionState::Reading);
    assert_eq!(
        SessionState::Reading.advance(SessionEvent::Outcome(Ok(TaskAction::Exit))),
        SessionState::Reading
    );
    assert_eq!(dispatching().advance(SessionEvent::Reported), dispatching());
    assert_eq!(dispatching().advance(SessionEvent::Line("x".to_string())), dispatching());
}

#[test]
fn history_keeps_three_lines_by_default() {
    assert_eq!(DEFAULT_HISTORY_SIZE, 3);
}

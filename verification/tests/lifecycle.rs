//! Lifecycle state machine and engine-signal behavior.

use job_hub::task::{drive, exit_outcome, step, EngineSignal, Handle, Status, UnitOutcome};

#[test]
fn terminal_states_are_terminal() {
    assert!(!Status::Queued.is_terminal());
    assert!(!Status::Running.is_terminal());
    assert!(Status::Completed.is_terminal());
    assert!(Status::Failed.is_terminal());
    assert!(Status::TimedOut.is_terminal());
    assert!(Status::Cancelled.is_terminal());
}

#[test]
fn first_signal_commits_terminal_status() {
    assert_eq!(
        step(Status::Running, EngineSignal::WorkFinished(UnitOutcome::Success)),
        Status::Completed
    );
    assert_eq!(
        step(Status::Running, EngineSignal::WorkFinished(UnitOutcome::Failure)),
        Status::Failed
    );
    assert_eq!(step(Status::Running, EngineSignal::DeadlineExpired), Status::TimedOut);
    assert_eq!(step(Status::Running, EngineSignal::CancelRequested), Status::Cancelled);
}

#[test]
fn terminal_status_absorbs_later_signals() {
    let s = step(Status::Running, EngineSignal::DeadlineExpired);
    assert_eq!(s, Status::TimedOut);
    // The unit of work finishing after the deadline changes nothing.
    assert_eq!(step(s, EngineSignal::WorkFinished(UnitOutcome::Success)), Status::TimedOut);
    assert_eq!(step(s, EngineSignal::CancelRequested), Status::TimedOut);
}

#[test]
fn cancel_before_running_ends_cancelled() {
    let s = step(Status::Queued, EngineSignal::CancelRequested);
    assert_eq!(s, Status::Cancelled);
    // Even if the work later reports finishing, the cancel stands.
    let end = drive(s, &vec![
        EngineSignal::WorkFinished(UnitOutcome::Success),
        EngineSignal::DeadlineExpired,
    ]);
    assert_eq!(end, Status::Cancelled);
}

#[test]
fn exit_code_maps_to_outcome() {
    assert_eq!(exit_outcome(0), UnitOutcome::Success);
    assert_eq!(exit_outcome(1), UnitOutcome::Failure);
    assert_eq!(exit_outcome(-9), UnitOutcome::Failure);
    assert_eq!(exit_outcome(137), UnitOutcome::Failure);
}

#[test]
fn drive_folds_signals_in_order() {
    // Natural completion first: later cancel and timer are abandoned.
    let end = drive(Status::Running, &vec![
        EngineSignal::WorkFinished(UnitOutcome::Success),
        EngineSignal::CancelRequested,
        EngineSignal::DeadlineExpired,
    ]);
    assert_eq!(end, Status::Completed);
    // Cancellation delivered before completion wins over the timer.
    let end = drive(Status::Running, &vec![
        EngineSignal::CancelRequested,
        EngineSignal::DeadlineExpired,
        EngineSignal::WorkFinished(UnitOutcome::Failure),
    ]);
    assert_eq!(end, Status::Cancelled);
}

#[test]
fn handle_cancel_is_idempotent_and_does_not_change_status() {
    let mut h = Handle::new();
    assert_eq!(h.status(), Status::Queued);
    assert!(!h.cancel_requested);
    h.send_cancel_signal();
    assert!(h.cancel_requested);
    assert_eq!(h.status(), Status::Queued);
    h.send_cancel_signal();
    assert!(h.cancel_requested);
    assert_eq!(h.status(), Status::Queued);
}

#[test]
fn handle_begin_running_only_moves_queued() {
    let mut h = Handle::new();
    h.begin_running();
    assert_eq!(h.status(), Status::Running);
    h.commit(EngineSignal::WorkFinished(UnitOutcome::Success));
    assert_eq!(h.status(), Status::Completed);
    h.begin_running();
    assert_eq!(h.status(), Status::Completed);
}

#[test]
fn status_response_wraps_the_looked_up_status() {
    let r = job_hub::routes::StatusReponse::new(Status::Running);
    assert!(matches!(r.status, Status::Running));
}

//! Task store: identity allocation, owner authorization, eviction.

use job_hub::state::{ApiState, ApiStateInner, RETENTION_SECS};
use job_hub::task::{EngineSignal, Status, UnitOutcome};

fn fresh_state() -> ApiStateInner {
    ApiStateInner::new(String::from("token"), String::from("projects"))
}

#[test]
fn issued_task_ids_are_unique_and_increasing() {
    let mut st = fresh_state();
    let a = st.run_task(String::from("alice"));
    let b = st.run_task(String::from("bob"));
    let c = st.run_task(String::from("alice"));
    assert_ne!(a, b);
    assert_ne!(b, c);
    assert_ne!(a, c);
    assert!(a < b && b < c);
}

#[test]
fn status_requires_matching_owner() {
    let mut st = fresh_state();
    let owner = String::from("alice");
    let id = st.run_task(owner.clone());
    assert_eq!(st.task_status(id, &owner), Some(Status::Queued));
    // Wrong owner and unknown id are the same notFound answer.
    assert_eq!(st.task_status(id, &String::from("mallory")), None);
    assert_eq!(st.task_status(id + 1, &owner), None);
}

#[test]
fn cancel_with_wrong_owner_is_not_found_and_state_unaffected() {
    let mut st = fresh_state();
    let owner = String::from("alice");
    let id = st.run_task(owner.clone());
    // Scenario: an incorrect owner gets notFound...
    assert_eq!(st.cancel_task(id, &String::from("mallory")), None);
    // ...the task is unaffected and remains cancellable by the correct owner.
    assert_eq!(st.task_status(id, &owner), Some(Status::Queued));
    assert_eq!(st.cancel_task(id, &owner), Some(id));
}

#[test]
fn cancel_on_unknown_id_is_not_found() {
    let mut st = fresh_state();
    let owner = String::from("alice");
    assert_eq!(st.cancel_task(42, &owner), None);
    let id = st.run_task(owner.clone());
    assert_eq!(st.cancel_task(id + 7, &owner), None);
}

#[test]
fn process_task_run_to_completion() {
    // Scenario: a process task that does its work and exits 0 ends Completed.
    let mut st = fresh_state();
    let owner = String::from("alice");
    let id = st.run_task(owner.clone());
    assert_eq!(st.task_status(id, &owner), Some(Status::Queued));
    st.task_started(id);
    assert_eq!(st.task_status(id, &owner), Some(Status::Running));
    st.commit_signal(id, EngineSignal::WorkFinished(UnitOutcome::Success), 10);
    assert_eq!(st.task_status(id, &owner), Some(Status::Completed));
}

#[test]
fn immediate_cancel_ends_cancelled() {
    // Scenario: create a task and cancel it with the correct owner at once.
    let mut st = fresh_state();
    let owner = String::from("alice");
    let id = st.run_task(owner.clone());
    assert_eq!(st.cancel_task(id, &owner), Some(id));
    // The engine observes the request before the work begins.
    st.commit_signal(id, EngineSignal::CancelRequested, 5);
    assert_eq!(st.task_status(id, &owner), Some(Status::Cancelled));
    // Later signals no longer move the task.
    st.commit_signal(id, EngineSignal::WorkFinished(UnitOutcome::Success), 6);
    assert_eq!(st.task_status(id, &owner), Some(Status::Cancelled));
}

#[test]
fn deadline_ends_timed_out() {
    let mut st = fresh_state();
    let owner = String::from("alice");
    let id = st.run_task(owner.clone());
    st.task_started(id);
    st.commit_signal(id, EngineSignal::DeadlineExpired, 601);
    assert_eq!(st.task_status(id, &owner), Some(Status::TimedOut));
    st.commit_signal(id, EngineSignal::WorkFinished(UnitOutcome::Failure), 602);
    assert_eq!(st.task_status(id, &owner), Some(Status::TimedOut));
}

#[test]
fn non_zero_exit_ends_failed() {
    let mut st = fresh_state();
    let owner = String::from("alice");
    let id = st.run_task(owner.clone());
    st.task_started(id);
    st.commit_signal(id, EngineSignal::WorkFinished(UnitOutcome::Failure), 3);
    assert_eq!(st.task_status(id, &owner), Some(Status::Failed));
}

#[test]
fn record_present_through_retention_window_and_evicted_after() {
    let mut st = fresh_state();
    let owner = String::from("alice");
    let id = st.run_task(owner.clone());
    st.task_started(id);
    let terminal_at = 100;
    st.commit_signal(id, EngineSignal::WorkFinished(UnitOutcome::Success), terminal_at);
    // At or before terminal moment + retention delay the record is present.
    st.evict_expired(terminal_at + RETENTION_SECS);
    assert_eq!(st.task_status(id, &owner), Some(Status::Completed));
    // Strictly after it, the record is gone.
    st.evict_expired(terminal_at + RETENTION_SECS + 1);
    assert_eq!(st.task_status(id, &owner), None);
}

#[test]
fn eviction_keeps_unfinished_and_fresh_tasks() {
    let mut st = fresh_state();
    let owner = String::from("alice");
    let done = st.run_task(owner.clone());
    let running = st.run_task(owner.clone());
    st.task_started(done);
    st.task_started(running);
    st.commit_signal(done, EngineSignal::WorkFinished(UnitOutcome::Success), 0);
    st.evict_expired(RETENTION_SECS + 1);
    assert_eq!(st.task_status(done, &owner), None);
    assert_eq!(st.task_status(running, &owner), Some(Status::Running));
}

#[test]
fn eviction_moment_is_first_terminal_commit() {
    let mut st = fresh_state();
    let owner = String::from("alice");
    let id = st.run_task(owner.clone());
    st.commit_signal(id, EngineSignal::CancelRequested, 50);
    // A later absorbed signal does not restart the retention clock.
    st.commit_signal(id, EngineSignal::DeadlineExpired, 5000);
    st.evict_expired(50 + RETENTION_SECS + 1);
    assert_eq!(st.task_status(id, &owner), None);
}

#[test]
fn download_task_io_fault_registers_nothing() {
    let mut st = fresh_state();
    let owner = String::from("alice");
    let fault = std::io::Error::new(std::io::ErrorKind::PermissionDenied, "denied");
    let r = st.run_download_task(owner.clone(), String::from("p"), Err(fault));
    assert!(r.is_err());
    // No identity was consumed and no record inserted.
    let id = st.run_task(owner.clone());
    assert_eq!(id, 0);
}

#[test]
fn api_token_validation() {
    let st = ApiState::new(String::from("secret"), String::from("projects"));
    assert!(st.api_token_valid(&String::from("secret")));
    assert!(!st.api_token_valid(&String::from("guess")));
    assert!(!st.api_token_valid(&String::from("")));
}

#[test]
fn chat_ids_have_uuid_shape() {
    let st = fresh_state();
    let a = st.generate_random_chat_id();
    let b = st.generate_random_chat_id();
    assert_eq!(a.len(), 36);
    assert_eq!(b.len(), 36);
    for (i, c) in a.chars().enumerate() {
        if i == 8 || i == 13 || i == 18 || i == 23 {
            assert_eq!(c, '-');
        } else {
            assert!(c.is_ascii_hexdigit());
        }
    }
    assert_ne!(a, b);
}

use kanban_orchestrator::card::{
    advance_update, approve_update, cards_to_recover, awaiting_review_update, cancel_update, error_update,
    inject_update, needs_recovery, recovery_update, request_changes_update, retry_error_update,
    start_phase_update, transition_failed_update,
};
use kanban_orchestrator::models::task::{PhaseState, TaskStatus};

#[test]
fn reset_running_resets_only_running_tasks() {
    let cards = vec![
        (1, PhaseState::Running),
        (2, PhaseState::Running),
        (3, PhaseState::AwaitingReview),
        (4, PhaseState::Error),
        (5, PhaseState::Idle),
    ];
    let reset = cards_to_recover(&cards);
    assert_eq!(reset.len(), 2, "two running tasks should be reset");
    assert_eq!(reset, vec![1, 2]);
    let u = recovery_update();
    assert_eq!(u.phase_state, Some(PhaseState::Idle));
    assert_eq!(u.current_turn, Some(0));
    assert!(u.kanban_phase.is_none() && u.error_info.is_none() && u.pending_inject.is_none());
    let after: Vec<(u128, PhaseState)> = cards
        .iter()
        .map(|(id, s)| (*id, if reset.contains(id) { u.phase_state.unwrap() } else { *s }))
        .collect();
    assert!(cards_to_recover(&after).is_empty(), "a second recovery resets nothing");
}

#[test]
fn reset_running_returns_zero_when_no_running_tasks() {
    let cards = vec![(1, PhaseState::Idle), (2, PhaseState::Archived)];
    assert_eq!(cards_to_recover(&cards).len(), 0);
    assert!(!needs_recovery(PhaseState::Idle));
}

#[test]
fn review_answers() {
    let a = approve_update();
    assert_eq!(a.phase_state, Some(PhaseState::Idle));
    assert_eq!(a.current_turn, Some(0));
    let c = request_changes_update("{\"feedback\":\"more tests\"}".into());
    assert_eq!(c.phase_state, Some(PhaseState::Running));
    assert_eq!(c.current_turn, Some(0));
    assert_eq!(c.pending_inject, Some(Some("{\"feedback\":\"more tests\"}".to_string())));
}

#[test]
fn control_updates() {
    assert_eq!(cancel_update().phase_state, Some(PhaseState::Archived));
    let r = retry_error_update();
    assert_eq!(r.phase_state, Some(PhaseState::Idle));
    assert_eq!(r.error_info, Some(None));
    assert_eq!(r.current_turn, Some(0));
    assert_eq!(inject_update("x".into()).pending_inject, Some(Some("x".to_string())));
    let s = start_phase_update();
    assert_eq!(s.phase_state, Some(PhaseState::Running));
    assert_eq!(s.pending_inject, Some(None));
}

#[test]
fn phase_end_updates() {
    let e = error_update("{\"reason\":\"r\",\"turns\":2}".into(), Some(2));
    assert_eq!(e.phase_state, Some(PhaseState::Error));
    assert_eq!(e.current_turn, Some(2));
    assert_eq!(error_update("h".into(), None).current_turn, None);
    let w = awaiting_review_update(3, 42);
    assert_eq!(w.phase_state, Some(PhaseState::AwaitingReview));
    assert_eq!(w.current_turn, Some(3));
    assert_eq!(w.last_session, Some(42));
    assert!(w.review_pending_now);
    let a = advance_update("Coding".into(), 9);
    assert_eq!(a.kanban_phase.as_deref(), Some("Coding"));
    assert_eq!(a.phase_state, Some(PhaseState::Idle));
    assert_eq!(a.current_turn, Some(0));
    assert_eq!(a.last_session, Some(9));
    let t = transition_failed_update("t".into());
    assert_eq!(t.error_info, Some(Some("t".to_string())));
    assert!(t.phase_state.is_none());
}

#[test]
fn state_names_round_trip() {
    for s in [
        PhaseState::Idle,
        PhaseState::Running,
        PhaseState::AwaitingReview,
        PhaseState::Error,
        PhaseState::Archived,
    ] {
        assert_eq!(PhaseState::from_name(s.as_str()), Some(s));
    }
    assert_eq!(PhaseState::AwaitingReview.as_str(), "awaiting_review");
    assert_eq!(PhaseState::from_name("sleeping"), None);
    assert_eq!(TaskStatus::InProgress.as_str(), "inprogress");
    assert_eq!(TaskStatus::from_name("done"), Some(TaskStatus::Done));
    assert_eq!(TaskStatus::from_name("Done"), None);
    assert_eq!(PhaseState::default(), PhaseState::Idle);
}

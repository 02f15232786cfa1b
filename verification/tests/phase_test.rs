use kanban_orchestrator::config::OnComplete;
use kanban_orchestrator::dispatcher::phase::{PhaseOutcome, PhaseRun, PhaseStep};

/// Drives a phase the way the runtime does, with an executor that completes
/// on turn `complete_on` and reports session `100 + turn` each turn.
fn run_test_phase(complete_on: u32, max_turns: u32, on_complete: OnComplete) -> PhaseOutcome {
    let mut run = PhaseRun::start(max_turns, on_complete);
    loop {
        match run.next(false) {
            PhaseStep::Finish(o) => return o,
            PhaseStep::RunTurn(n) => {
                let stdout =
                    if n >= complete_on { "<<KANBAN_PHASE_COMPLETE>>" } else { "still working" };
                if let Some(o) = run.after_turn(stdout, 100 + n as u128) {
                    return o;
                }
            }
        }
    }
}

#[test]
fn phase_completes_on_marker() {
    match run_test_phase(2, 5, OnComplete::Auto) {
        PhaseOutcome::Complete { turns_used, .. } => assert_eq!(turns_used, 2),
        other => panic!("expected Complete, got {:?}", other),
    }
}

#[test]
fn phase_review_when_max_turns_and_review_required() {
    match run_test_phase(99, 3, OnComplete::Review) {
        PhaseOutcome::AwaitingReview { turns_used, .. } => assert_eq!(turns_used, 3),
        other => panic!("expected AwaitingReview, got {:?}", other),
    }
}

#[test]
fn out_of_turns_without_review_completes_with_last_session() {
    match run_test_phase(99, 2, OnComplete::Auto) {
        PhaseOutcome::Complete { turns_used, last_session } => {
            assert_eq!(turns_used, 2);
            assert_eq!(last_session, 102);
        }
        other => panic!("expected Complete, got {:?}", other),
    }
}

#[test]
fn failure_marker_ends_the_phase() {
    let mut run = PhaseRun::start(5, OnComplete::Auto);
    assert!(matches!(run.next(false), PhaseStep::RunTurn(1)));
    assert!(run.after_turn("working", 7).is_none());
    assert!(matches!(run.next(false), PhaseStep::RunTurn(2)));
    match run.after_turn("<<KANBAN_PHASE_FAILED reason=\"tests red\">>", 8) {
        Some(PhaseOutcome::Failed { reason, turns_used }) => {
            assert_eq!(reason, "tests red");
            assert_eq!(turns_used, 2);
        }
        other => panic!("expected Failed, got {:?}", other),
    }
    assert_eq!(run.turns_done(), 2);
}

#[test]
fn cancellation_is_checked_before_each_turn() {
    let run = PhaseRun::start(3, OnComplete::Auto);
    assert!(matches!(run.next(true), PhaseStep::Finish(PhaseOutcome::Cancelled)));
}

#[test]
fn zero_turns_finishes_at_once() {
    let run = PhaseRun::start(0, OnComplete::Review);
    assert_eq!(run.max_turns(), 0);
    match run.next(true) {
        PhaseStep::Finish(PhaseOutcome::AwaitingReview { turns_used, last_session }) => {
            assert_eq!(turns_used, 0);
            assert_eq!(last_session, 0);
        }
        other => panic!("expected AwaitingReview, got {:?}", other),
    }
}

use kanban_orchestrator::dispatcher::markers::{parse_markers, MarkerOutcome};

#[test]
fn detects_complete_marker() {
    let s = "doing work\n<<KANBAN_PHASE_COMPLETE>>\nbye";
    assert_eq!(parse_markers(s), MarkerOutcome::Complete);
}

#[test]
fn detects_failure_with_reason() {
    let s = r#"<<KANBAN_PHASE_FAILED reason="build broke">>"#;
    match parse_markers(s) {
        MarkerOutcome::Failed(r) => assert_eq!(r, "build broke"),
        other => panic!("expected Failed, got {:?}", other),
    }
}

#[test]
fn detects_failure_without_reason() {
    let s = "<<KANBAN_PHASE_FAILED>>";
    assert!(matches!(parse_markers(s), MarkerOutcome::Failed(_)));
}

#[test]
fn no_marker_means_continue() {
    assert_eq!(parse_markers("nothing special"), MarkerOutcome::Continue);
}

#[test]
fn failure_wins_over_completion() {
    let s = "<<KANBAN_PHASE_COMPLETE>>\n<<KANBAN_PHASE_FAILED reason=\"tests\">>";
    assert_eq!(parse_markers(s), MarkerOutcome::Failed("tests".to_string()));
}

#[test]
fn failure_reason_is_read_after_the_marker() {
    let s = "reason=\"early\" <<KANBAN_PHASE_FAILED>> then reason=\"late\"";
    assert_eq!(parse_markers(s), MarkerOutcome::Failed("late".to_string()));
}

#[test]
fn unterminated_reason_is_empty() {
    let s = "<<KANBAN_PHASE_FAILED reason=\"never closed";
    assert_eq!(parse_markers(s), MarkerOutcome::Failed(String::new()));
}

#[test]
fn markers_with_multibyte_text() {
    let s = "é ü <<KANBAN_PHASE_FAILED reason=\"naïve ✓\">>";
    assert_eq!(parse_markers(s), MarkerOutcome::Failed("naïve ✓".to_string()));
}

use kanban_orchestrator::context::phase_markdown;

#[test]
fn phase_md_names_column_and_turn() {
    assert_eq!(phase_markdown(Some("Coding"), 3), "# Current phase\n\nColumn: Coding\nTurn: 3\n");
}

#[test]
fn phase_md_without_column() {
    assert_eq!(phase_markdown(None, 0), "# Current phase\n\nColumn: (none)\nTurn: 0\n");
    assert_eq!(
        phase_markdown(None, -12),
        "# Current phase\n\nColumn: (none)\nTurn: -12\n"
    );
    assert_eq!(
        phase_markdown(Some("X"), i64::MIN),
        format!("# Current phase\n\nColumn: X\nTurn: {}\n", i64::MIN)
    );
}

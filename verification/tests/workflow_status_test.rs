use kanban_orchestrator::workflow_status::{
    aggregate_project_state, classify_error, entry_for, repo_status, sort_entries,
    ProjectWorkflowState, RepoScan, RepoWorkflowState, RepoWorkflowStatus, WorkflowEntry,
    WorkflowEntryState,
};

fn dummy_repo_status(state: RepoWorkflowState) -> RepoWorkflowStatus {
    RepoWorkflowStatus {
        repo_id: 0,
        repo_name: "r".into(),
        workflows_dir: "/tmp".into(),
        state,
        workflows: Vec::new(),
        error: None,
    }
}

#[test]
fn aggregate_invalid_wins() {
    let repos = vec![
        dummy_repo_status(RepoWorkflowState::Ready),
        dummy_repo_status(RepoWorkflowState::Invalid),
    ];
    assert!(matches!(aggregate_project_state(&repos), ProjectWorkflowState::Invalid));
}

#[test]
fn aggregate_ready_when_any_ready_and_no_invalid() {
    let repos = vec![
        dummy_repo_status(RepoWorkflowState::Ready),
        dummy_repo_status(RepoWorkflowState::NotConfigured),
    ];
    assert!(matches!(aggregate_project_state(&repos), ProjectWorkflowState::Ready));
}

#[test]
fn aggregate_all_not_configured() {
    let repos = vec![
        dummy_repo_status(RepoWorkflowState::NotConfigured),
        dummy_repo_status(RepoWorkflowState::NotConfigured),
    ];
    assert!(matches!(aggregate_project_state(&repos), ProjectWorkflowState::NotConfigured));
}

#[test]
fn aggregate_of_no_repos_is_not_configured() {
    assert_eq!(aggregate_project_state(&[]), ProjectWorkflowState::NotConfigured);
}

#[test]
fn load_errors_are_classified_by_message() {
    assert_eq!(
        classify_error("column 'Coding' references agent 'x' but agent file is missing"),
        WorkflowEntryState::MissingAgentFile
    );
    assert_eq!(classify_error("column 'A' next 'B' not found"), WorkflowEntryState::InvalidYaml);
}

#[test]
fn entry_for_keeps_name_and_error() {
    let ok = entry_for("a".into(), Ok(()));
    assert_eq!(ok.name, "a");
    assert_eq!(ok.state, WorkflowEntryState::Valid);
    assert!(ok.error.is_none());
    let bad = entry_for("b".into(), Err("no initial column".into()));
    assert_eq!(bad.state, WorkflowEntryState::InvalidYaml);
    assert_eq!(bad.error.as_deref(), Some("no initial column"));
}

fn entry(name: &str, state: WorkflowEntryState) -> WorkflowEntry {
    WorkflowEntry { name: name.into(), state, error: None }
}

#[test]
fn repo_status_from_each_scan() {
    let inaccessible = repo_status(7, "r".into(), "d".into(), "/nope", RepoScan::Inaccessible);
    assert_eq!(inaccessible.repo_id, 7);
    assert_eq!(inaccessible.state, RepoWorkflowState::Invalid);
    assert_eq!(inaccessible.error.as_deref(), Some("repo path inaccessible: /nope"));

    let none = repo_status(1, "r".into(), "d".into(), "/p", RepoScan::NoWorkflowsDir);
    assert_eq!(none.state, RepoWorkflowState::NotConfigured);
    assert!(none.workflows.is_empty());

    let failed = repo_status(1, "r".into(), "d".into(), "/p", RepoScan::ScanFailed("io".into()));
    assert_eq!(failed.state, RepoWorkflowState::Invalid);
    assert_eq!(failed.error.as_deref(), Some("io"));

    let empty = repo_status(1, "r".into(), "d".into(), "/p", RepoScan::Scanned(vec![]));
    assert_eq!(empty.state, RepoWorkflowState::NotConfigured);

    let ready = repo_status(
        1,
        "r".into(),
        "d".into(),
        "/p",
        RepoScan::Scanned(vec![entry("a", WorkflowEntryState::Valid)]),
    );
    assert_eq!(ready.state, RepoWorkflowState::Ready);

    let mixed = repo_status(
        1,
        "r".into(),
        "d".into(),
        "/p",
        RepoScan::Scanned(vec![
            entry("a", WorkflowEntryState::Valid),
            entry("b", WorkflowEntryState::MissingAgentFile),
        ]),
    );
    assert_eq!(mixed.state, RepoWorkflowState::Invalid);
    assert_eq!(mixed.workflows.len(), 2);
}

#[test]
fn entries_sort_by_name() {
    let sorted = sort_entries(vec![
        entry("zeta", WorkflowEntryState::Valid),
        entry("alpha", WorkflowEntryState::InvalidYaml),
        entry("alp", WorkflowEntryState::Valid),
        entry("beta", WorkflowEntryState::Valid),
    ]);
    let names: Vec<&str> = sorted.iter().map(|e| e.name.as_str()).collect();
    assert_eq!(names, vec!["alp", "alpha", "beta", "zeta"]);
    assert_eq!(sorted[1].state, WorkflowEntryState::InvalidYaml);
}

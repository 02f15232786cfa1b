use kanban_orchestrator::config::{
    agent_names, default_poll, validate_with_agent_files, workflow_key, AuthEnv, Column, Defaults,
    Hooks, JiraConfig, OnComplete, Reconciliation, Sync, Workflow,
};
use std::time::Duration;

fn column(name: &str) -> Column {
    Column {
        name: name.into(),
        jira_status: vec![],
        initial: None,
        terminal: None,
        agent: None,
        on_complete: OnComplete::Auto,
        next: None,
        jira_transition: None,
        max_turns_per_phase: None,
    }
}

/// A five-column workflow: Todo, three agent columns, Done.
fn valid_workflow() -> Workflow {
    let mut todo = column("Todo");
    todo.jira_status = vec!["To Do".into(), "Open".into(), "Backlog".into()];
    todo.initial = Some(true);
    todo.next = Some("Analyzing".into());
    let mut analyzing = column("Analyzing");
    analyzing.agent = Some("analyzer".into());
    analyzing.on_complete = OnComplete::Review;
    analyzing.next = Some("Coding".into());
    analyzing.jira_transition = Some("Start Progress".into());
    let mut coding = column("Coding");
    coding.agent = Some("coder".into());
    coding.on_complete = OnComplete::Review;
    coding.next = Some("Reviewing".into());
    let mut reviewing = column("Reviewing");
    reviewing.agent = Some("critic".into());
    reviewing.next = Some("Done".into());
    reviewing.jira_transition = Some("Done".into());
    let mut done = column("Done");
    done.terminal = Some(true);
    Workflow {
        version: 1,
        project: "AP".into(),
        sync: Sync {
            source: "jira".into(),
            jira: JiraConfig {
                site: "syfe.atlassian.net".into(),
                project_key: "AP".into(),
                jql: "sprint in openSprints() AND assignee in (currentUser())".into(),
                poll_interval: Duration::from_secs(15 * 60),
                auth_env: AuthEnv { email: "JIRA_EMAIL".into(), token: "JIRA_API_TOKEN".into() },
            },
        },
        columns: vec![todo, analyzing, coding, reviewing, done],
        defaults: Defaults::default(),
        reconciliation: Reconciliation::default(),
        hooks: Hooks::default(),
    }
}

#[test]
fn valid_workflow_passes() {
    let w = valid_workflow();
    assert_eq!(w.validate(&["analyzer", "coder", "critic"], &|_: &str| true), Ok(()));
    assert_eq!(w.initial_column().unwrap().name, "Todo");
    assert_eq!(w.column("Coding").unwrap().agent.as_deref(), Some("coder"));
    assert!(w.column("Nope").is_none());
}

#[test]
fn rejects_missing_initial() {
    let mut w = valid_workflow();
    w.columns[0].initial = None;
    let err = w.validate(&["analyzer", "coder", "critic"], &|_: &str| true).unwrap_err();
    assert!(err.contains("initial"), "expected error about 'initial', got: {}", err);
    assert_eq!(err, "exactly one column must have initial: true");
}

#[test]
fn rejects_dangling_next() {
    let mut w = valid_workflow();
    w.columns[1].next = Some("NotAColumn".into());
    let err = w.validate(&["analyzer", "coder", "critic"], &|_: &str| true).unwrap_err();
    assert!(err.contains("next"), "expected error about 'next', got: {}", err);
    assert_eq!(err, "column 'Analyzing' next='NotAColumn' not found in columns");
}

#[test]
fn rejects_missing_agent_file() {
    let w = valid_workflow();
    let err = w.validate(&["analyzer"], &|_: &str| true).unwrap_err();
    assert!(err.contains("agent"), "expected error about 'agent', got: {}", err);
    assert_eq!(err, "column 'Coding' agent file .agents/agent/coder.md missing");
}

#[test]
fn rejects_wrong_version() {
    let mut w = valid_workflow();
    w.version = 12;
    assert_eq!(
        w.validate(&["analyzer", "coder", "critic"], &|_: &str| true).unwrap_err(),
        "unsupported version 12"
    );
}

#[test]
fn rejects_two_initials() {
    let mut w = valid_workflow();
    w.columns[1].initial = Some(true);
    assert_eq!(
        w.validate(&["analyzer", "coder", "critic"], &|_: &str| true).unwrap_err(),
        "exactly one column must have initial: true"
    );
}

#[test]
fn rejects_no_terminal() {
    let mut w = valid_workflow();
    w.columns[4].terminal = Some(false);
    assert_eq!(
        w.validate(&["analyzer", "coder", "critic"], &|_: &str| true).unwrap_err(),
        "at least one terminal column required"
    );
}

#[test]
fn rejects_missing_next() {
    let mut w = valid_workflow();
    w.columns[2].next = None;
    assert_eq!(
        w.validate(&["analyzer", "coder", "critic"], &|_: &str| true).unwrap_err(),
        "column 'Coding' missing next"
    );
}

#[test]
fn rejects_unset_env() {
    let w = valid_workflow();
    let err = w
        .validate(&["analyzer", "coder", "critic"], &|n: &str| n != "JIRA_API_TOKEN")
        .unwrap_err();
    assert_eq!(err, "env var JIRA_API_TOKEN not set");
    let err = w.validate(&["analyzer", "coder", "critic"], &|_: &str| false).unwrap_err();
    assert_eq!(err, "env var JIRA_EMAIL not set");
}

#[test]
fn agent_names_strip_md() {
    let files = vec!["coder.md".to_string(), "notes.txt".into(), "critic.md".into(), ".md".into()];
    assert_eq!(agent_names(&files), vec!["coder".to_string(), "critic".into(), "".into()]);
}

#[test]
fn validates_against_agent_files() {
    let w = valid_workflow();
    let files = vec!["analyzer.md".to_string(), "coder.md".into(), "critic.md".into()];
    assert_eq!(validate_with_agent_files(&w, &files, &|_: &str| true), Ok(()));
    let files = vec!["analyzer.md".to_string(), "coder.md".into()];
    assert_eq!(
        validate_with_agent_files(&w, &files, &|_: &str| true).unwrap_err(),
        "column 'Reviewing' agent file .agents/agent/critic.md missing"
    );
}

#[test]
fn workflow_keys_of_file_names() {
    assert_eq!(workflow_key("AP.yml").as_deref(), Some("AP"));
    assert_eq!(workflow_key("a.b.yml").as_deref(), Some("a.b"));
    assert_eq!(workflow_key(".yml"), None);
    assert_eq!(workflow_key("AP.yaml"), None);
    assert_eq!(workflow_key("AP"), None);
    assert_eq!(workflow_key("..yml").as_deref(), Some("."));
}

#[test]
fn default_poll_is_fifteen_minutes() {
    assert_eq!(default_poll(), Duration::from_secs(900));
}

use kanban_orchestrator::jira::{JiraComments, JiraFields, JiraIssue, JiraNamed};
use kanban_orchestrator::{
    config::Reconciliation,
    jira::{JiraComment, JiraDiff},
    json::JsonValue,
    reconciler::{decide_action, ReconcileAction},
};

#[test]
fn terminal_status_stops_immediately() {
    let mut d = JiraDiff::default();
    d.status_changed = true;
    d.status_terminal = true;
    let cfg = Reconciliation {
        on_jira_status_terminal: Some("stop_immediately".into()),
        ..Default::default()
    };
    let actions = decide_action(&d, &cfg, "[]");
    assert!(actions.contains(&ReconcileAction::Stop));
    assert!(actions.contains(&ReconcileAction::Notify("status_changed".into())));
}

#[test]
fn new_comment_queues_inject() {
    let mut d = JiraDiff::default();
    d.new_comments.push(JiraComment {
        id: "c1".into(),
        body: JsonValue::Null,
        updated: "2026-05-07T00:00:00Z".into(),
    });
    let cfg = Reconciliation {
        on_jira_comment: Some("inject_next_turn".into()),
        ..Default::default()
    };
    let json = "[\n  {\n    \"id\": \"c1\",\n    \"body\": null,\n    \"updated\": \"2026-05-07T00:00:00Z\"\n  }\n]";
    let actions = decide_action(&d, &cfg, json);
    assert!(matches!(actions.first(), Some(ReconcileAction::UpdateSnapshot)));
    assert!(actions.iter().any(|a| matches!(a, ReconcileAction::QueueInject(_))));
    assert_eq!(
        actions[1],
        ReconcileAction::QueueInject(format!("New comments since last turn:\n{}", json))
    );
}

#[test]
fn all_actions_in_order() {
    let mut d = JiraDiff::default();
    d.status_changed = true;
    d.status_terminal = true;
    d.assignee_changed = true;
    d.summary_changed = true;
    d.new_comments.push(JiraComment { id: "c".into(), body: JsonValue::Null, updated: "t".into() });
    let cfg = Reconciliation {
        on_jira_comment: Some("inject_next_turn".into()),
        on_jira_status_terminal: Some("stop_immediately".into()),
        on_jira_assignee_change: Some("stop_immediately".into()),
        on_jira_summary_change: Some("inject_next_turn".into()),
    };
    assert_eq!(
        decide_action(&d, &cfg, "X"),
        vec![
            ReconcileAction::UpdateSnapshot,
            ReconcileAction::Stop,
            ReconcileAction::Stop,
            ReconcileAction::QueueInject("New comments since last turn:\nX".into()),
            ReconcileAction::QueueInject("Summary/description changed; re-read task.json.".into()),
            ReconcileAction::Notify("status_changed".into()),
        ]
    );
}

#[test]
fn display_only_comments_are_not_injected() {
    let mut d = JiraDiff::default();
    d.new_comments.push(JiraComment { id: "c".into(), body: JsonValue::Null, updated: "t".into() });
    let cfg = Reconciliation { on_jira_comment: Some("display_only".into()), ..Default::default() };
    assert_eq!(decide_action(&d, &cfg, "X"), vec![ReconcileAction::UpdateSnapshot]);
}

fn done_issue() -> JiraIssue {
    JiraIssue {
        key: "AP-9".into(),
        fields: JiraFields {
            summary: "Ship".into(),
            status: JiraNamed { name: "Done".into() },
            assignee: None,
            description: Some(JsonValue::String("d".into())),
            labels: vec![],
            priority: None,
            comment: JiraComments {
                comments: vec![JiraComment { id: "c".into(), body: JsonValue::Null, updated: "t".into() }],
            },
            attachment: vec![],
        },
    }
}

#[test]
fn unchanged_issue_only_updates_snapshot_or_stops() {
    let issue = done_issue();
    let d = kanban_orchestrator::jira::diff_issue(&issue, &issue);
    let quiet = Reconciliation { on_jira_comment: Some("inject_next_turn".into()), ..Default::default() };
    assert_eq!(decide_action(&d, &quiet, "[]"), vec![ReconcileAction::UpdateSnapshot]);
    let stopping = Reconciliation {
        on_jira_status_terminal: Some("stop_immediately".into()),
        ..Default::default()
    };
    assert_eq!(
        decide_action(&d, &stopping, "[]"),
        vec![ReconcileAction::UpdateSnapshot, ReconcileAction::Stop]
    );
}

use kanban_orchestrator::jira::{
    diff_issue, next_page, search_body, search_url, site_url, terminal_status, transition_body,
    transition_id, transitions_url, JiraComment, JiraComments, JiraFields,
    JiraIssue, JiraNamed, JiraTransition, JiraUser,
};
use kanban_orchestrator::json::JsonValue;

fn sample_issue() -> JiraIssue {
    JiraIssue {
        key: "AP-1".into(),
        fields: JiraFields {
            summary: "Test".into(),
            status: JiraNamed { name: "To Do".into() },
            assignee: None,
            description: None,
            labels: vec![],
            priority: None,
            comment: JiraComments { comments: vec![] },
            attachment: vec![],
        },
    }
}

fn sample_comment(id: &str) -> JiraComment {
    JiraComment { id: id.into(), body: JsonValue::Null, updated: "2026-05-07T00:00:00Z".into() }
}

#[test]
fn diff_detects_new_comment_and_status() {
    let a = sample_issue();
    let mut b = a.clone();
    b.fields.status.name = "Done".into();
    b.fields.comment.comments.push(sample_comment("c2"));
    let d = diff_issue(&a, &b);
    assert!(d.status_changed);
    assert_eq!(d.new_comments.len(), 1);
    assert_eq!(d.new_comments[0].id, "c2");
    assert!(!d.summary_changed);
    assert!(!d.assignee_changed);
}

#[test]
fn diff_of_identical_issues_is_empty() {
    let a = sample_issue();
    let d = diff_issue(&a, &a.clone());
    assert!(!d.status_changed && !d.status_terminal && !d.assignee_changed);
    assert!(!d.summary_changed && !d.description_changed && d.new_comments.is_empty());
}

#[test]
fn diff_sees_assignee_summary_description() {
    let mut a = sample_issue();
    a.fields.comment.comments.push(sample_comment("c1"));
    let mut b = a.clone();
    b.fields.assignee =
        Some(JiraUser { account_id: "u1".into(), display_name: "User One".into() });
    b.fields.summary = "Other".into();
    b.fields.description = Some(JsonValue::String("text".into()));
    b.fields.comment.comments.push(sample_comment("c1"));
    b.fields.status.name = "Resolved".into();
    let d = diff_issue(&a, &b);
    assert!(d.assignee_changed && d.summary_changed && d.description_changed);
    assert!(d.status_terminal);
    assert!(d.new_comments.is_empty());
}

#[test]
fn same_account_is_no_assignee_change() {
    let mut a = sample_issue();
    a.fields.assignee = Some(JiraUser { account_id: "u1".into(), display_name: "A".into() });
    let mut b = a.clone();
    b.fields.assignee = Some(JiraUser { account_id: "u1".into(), display_name: "B".into() });
    assert!(!diff_issue(&a, &b).assignee_changed);
}

#[test]
fn terminal_statuses() {
    for s in ["Done", "Closed", "Cancelled", "Resolved"] {
        assert!(terminal_status(s));
    }
    assert!(!terminal_status("To Do"));
    assert!(!terminal_status("done"));
}

#[test]
fn transition_id_by_name() {
    let ts = vec![
        JiraTransition { id: "11".into(), name: "Start Progress".into() },
        JiraTransition { id: "31".into(), name: "Done".into() },
    ];
    assert_eq!(transition_id(&ts, "Done"), Ok("31".to_string()));
    assert_eq!(transition_id(&ts, "Nope"), Err("transition 'Nope' not found".to_string()));
}

#[test]
fn paging_cursor() {
    assert_eq!(next_page(Some("abc".into())), Some("abc".to_string()));
    assert_eq!(next_page(Some(String::new())), None);
    assert_eq!(next_page(None), None);
}

#[test]
fn request_urls() {
    assert_eq!(search_url("https://x.test"), "https://x.test/rest/api/3/search/jql");
    assert_eq!(
        transitions_url("https://x.test", "AP-1"),
        "https://x.test/rest/api/3/issue/AP-1/transitions"
    );
}

fn search_body_by_serde(jql: &str, cursor: Option<&str>) -> String {
    let fields = "summary,status,assignee,description,labels,priority,comment,attachment";
    let mut m = serde_json::Map::new();
    m.insert("jql".into(), serde_json::Value::String(jql.into()));
    m.insert(
        "fields".into(),
        serde_json::Value::Array(
            fields.split(',').map(|f| serde_json::Value::String(f.into())).collect(),
        ),
    );
    m.insert("maxResults".into(), serde_json::Value::from(100));
    if let Some(t) = cursor {
        m.insert("nextPageToken".into(), serde_json::Value::String(t.into()));
    }
    serde_json::Value::Object(m).to_string()
}

#[test]
fn request_bodies_match_serde_json() {
    let jql = "project=AP AND summary ~ \"x\"";
    assert_eq!(search_body(jql, None), search_body_by_serde(jql, None));
    assert_eq!(search_body(jql, Some("tok")), search_body_by_serde(jql, Some("tok")));
    let mut inner = serde_json::Map::new();
    inner.insert("id".into(), serde_json::Value::String("31".into()));
    let mut outer = serde_json::Map::new();
    outer.insert("transition".into(), serde_json::Value::Object(inner));
    assert_eq!(transition_body("31"), serde_json::Value::Object(outer).to_string());
}

#[test]
fn site_url_adds_https() {
    assert_eq!(site_url("syfe.atlassian.net"), "https://syfe.atlassian.net");
}

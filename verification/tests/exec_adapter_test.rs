use kanban_orchestrator::dispatcher::exec_adapter::{
    extract_session_id, prompt_from_agent_md, session_token,
};

#[test]
fn prompt_from_agent_md_strips_front_matter() {
    let md = "---\nname: coder\n---\nDo the work!";
    assert_eq!(prompt_from_agent_md(md), "Do the work!");
}

#[test]
fn prompt_from_agent_md_no_front_matter() {
    let md = "Do the work directly";
    assert_eq!(prompt_from_agent_md(md), "Do the work directly");
}

#[test]
fn prompt_from_agent_md_unclosed_front_matter() {
    let md = "---\nname: coder\nno closing";
    assert_eq!(prompt_from_agent_md(md), md);
}

#[test]
fn prompt_from_agent_md_keeps_second_newline() {
    let md = "---\nname: coder\n---\n\nBody";
    assert_eq!(prompt_from_agent_md(md), "\nBody");
}

#[test]
fn prompt_from_agent_md_closing_at_end() {
    let md = "---\nname: coder\n---";
    assert_eq!(prompt_from_agent_md(md), "");
}

#[test]
fn extract_session_id_finds_uuid() {
    let line = r#"{"session_id":"550e8400-e29b-41d4-a716-446655440000","type":"system"}"#;
    let id = extract_session_id(line).unwrap();
    assert_eq!(
        uuid::Uuid::from_u128(id).to_string(),
        "550e8400-e29b-41d4-a716-446655440000"
    );
}

#[test]
fn extract_session_id_missing_returns_none() {
    assert!(extract_session_id("no session here").is_none());
}

#[test]
fn extract_session_id_rejects_bad_uuid() {
    assert_eq!(session_token(r#"{"session_id":"nope"}"#), Some("nope"));
    assert!(extract_session_id(r#"{"session_id":"nope"}"#).is_none());
}

#[test]
fn session_token_needs_closing_quote() {
    assert_eq!(session_token(r#"{"session_id":"abc"#), None);
}

use kanban_orchestrator::payload::{
    failure_info, feedback_of, feedback_payload, history_line, queued_texts, hook_failure_info, transition_failure_info,
};
use serde_json::Value;

fn object(entries: Vec<(&str, Value)>) -> String {
    let mut m = serde_json::Map::new();
    for (k, v) in entries {
        m.insert(k.to_string(), v);
    }
    Value::Object(m).to_string()
}

#[test]
fn feedback_matches_serde_json() {
    let fb = "more \"tests\"\nplease \\ thanks";
    assert_eq!(feedback_payload(fb), object(vec![("feedback", Value::String(fb.into()))]));
    assert_eq!(feedback_payload("ok"), "{\"feedback\":\"ok\"}");
}

#[test]
fn failure_info_matches_serde_json() {
    assert_eq!(
        failure_info("build broke", 3),
        object(vec![("reason", Value::String("build broke".into())), ("turns", Value::from(3u32))])
    );
    assert_eq!(failure_info("", 0), "{\"reason\":\"\",\"turns\":0}");
}

#[test]
fn hook_and_transition_info_match_serde_json() {
    assert_eq!(
        hook_failure_info("pre_dispatch", "other: hook failed: exit 1"),
        object(vec![
            ("hook_error", Value::String("other: hook failed: exit 1".into())),
            ("hook", Value::String("pre_dispatch".into())),
        ])
    );
    assert_eq!(
        transition_failure_info("jira: 404", "Done"),
        object(vec![
            ("jira_transition_failed", Value::String("jira: 404".into())),
            ("transition", Value::String("Done".into())),
        ])
    );
}

#[test]
fn escapes_control_characters_as_serde_json_does() {
    let fb = "a\u{1}\u{8}\u{c}\r\t\u{1f}\u{7f}é\"\\";
    assert_eq!(feedback_payload(fb), object(vec![("feedback", Value::String(fb.into()))]));
    assert_eq!(
        feedback_payload("\u{1}\u{1f}"),
        "{\"feedback\":\"\\u0001\\u001f\"}"
    );
}

#[test]
fn feedback_reads_back_what_was_queued() {
    for fb in ["more tests", "", "a \"quoted\"\\ line\nnext\u{1}\u{1f}\t\u{8}\u{c}\r é ✓"] {
        let payload = feedback_payload(fb);
        assert_eq!(feedback_of(&payload).as_deref(), Some(fb));
        assert_eq!(queued_texts(Some(&payload)), (None, Some(fb.to_string())));
    }
    assert_eq!(feedback_of("New comments since last turn:\n[]"), None);
    assert_eq!(feedback_of("{\"feedback\":\"bad \\x\"}"), None);
    assert_eq!(feedback_of("{\"feedback\":\"unescaped \" quote\"}"), None);
    assert_eq!(
        queued_texts(Some("Summary/description changed; re-read task.json.")),
        (Some("Summary/description changed; re-read task.json.".to_string()), None)
    );
    assert_eq!(queued_texts(None), (None, None));
}

#[test]
fn history_line_matches_serde_json() {
    let session = "550e8400-e29b-41d4-a716-446655440000";
    assert_eq!(
        history_line("Coding", 2, session),
        object(vec![
            ("phase", Value::String("Coding".into())),
            ("turns", Value::from(2u32)),
            ("session", Value::String(session.into())),
        ])
    );
}

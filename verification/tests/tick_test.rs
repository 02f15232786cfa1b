use kanban_orchestrator::config::{
    AuthEnv, Column, Defaults, Hooks, JiraConfig, OnComplete, Reconciliation, Sync, Workflow,
};
use kanban_orchestrator::dispatcher::gate::{Gate, Permit};
use kanban_orchestrator::dispatcher::phase::PhaseOutcome;
use kanban_orchestrator::models::task::PhaseState;
use kanban_orchestrator::scheduler::tick::{
    advance_target, awaits_dispatch, card_message, dispatch_round, followup, gate_for, hook_command, hook_runs,
    max_turns_for, outcome_update, phase_event, plan_phase, workflow_file, HookKind,
};
use std::time::Duration;

fn column(name: &str, agent: Option<&str>) -> Column {
    Column {
        name: name.into(),
        jira_status: vec![],
        initial: None,
        terminal: None,
        agent: agent.map(String::from),
        on_complete: OnComplete::Auto,
        next: None,
        jira_transition: None,
        max_turns_per_phase: None,
    }
}

fn workflow(columns: Vec<Column>) -> Workflow {
    Workflow {
        version: 1,
        project: "AP".into(),
        sync: Sync {
            source: "jira".into(),
            jira: JiraConfig {
                site: "x".into(),
                project_key: "AP".into(),
                jql: "project=AP".into(),
                poll_interval: Duration::from_secs(900),
                auth_env: AuthEnv { email: "E".into(), token: "T".into() },
            },
        },
        columns,
        defaults: Defaults::default(),
        reconciliation: Reconciliation::default(),
        hooks: Hooks::default(),
    }
}

#[test]
fn idle_card_with_agent_gets_dispatched() {
    let mut todo = column("Todo", None);
    todo.initial = Some(true);
    todo.next = Some("Analyzing".into());
    let mut analyzing = column("Analyzing", Some("analyzer"));
    analyzing.next = Some("Done".into());
    let mut done = column("Done", None);
    done.terminal = Some(true);
    let w = workflow(vec![todo, analyzing, done]);
    let mut gate = gate_for(&w);
    let started = dispatch_round(&w, &mut gate, &vec![(100, "Analyzing".to_string())]);
    assert_eq!(ids(&started), vec![100]);
    assert_eq!(started[0].1.column_name(), "Analyzing");
    let plan = plan_phase(&w, Some("Analyzing")).unwrap();
    assert_eq!(plan.agent, "analyzer");
    assert_eq!(plan.agent_md, ".agents/agent/analyzer.md");
    assert_eq!(plan.column, 1);
    assert_eq!(plan.max_turns, 5);
}

#[test]
fn idle_card_without_agent_skipped() {
    let mut todo = column("Todo", None);
    todo.initial = Some(true);
    let w = workflow(vec![todo, column("Done", None)]);
    let mut gate = gate_for(&w);
    let started = dispatch_round(
        &w,
        &mut gate,
        &vec![(1, "Todo".to_string()), (2, "Nowhere".to_string())],
    );
    assert!(started.is_empty(), "agentless column should remain idle");
    assert_eq!(plan_phase(&w, Some("Todo")).unwrap_err(), "column has no agent");
    assert_eq!(plan_phase(&w, Some("Nowhere")).unwrap_err(), "unknown column: Nowhere");
    assert_eq!(plan_phase(&w, None).unwrap_err(), "task has no kanban_phase");
}

fn ids(started: &[(u128, Permit)]) -> Vec<u128> {
    started.iter().map(|(id, _)| *id).collect()
}

#[test]
fn dispatch_round_keeps_slots_while_phases_run() {
    let w = workflow(vec![column("A", Some("a")), column("B", None), column("C", Some("c"))]);
    let mut gate = Gate::new(2, 1);
    let idle = vec![
        (3, "A".to_string()),
        (1, "B".to_string()),
        (2, "A".to_string()),
        (4, "C".to_string()),
        (5, "C".to_string()),
    ];
    let started = dispatch_round(&w, &mut gate, &idle);
    assert_eq!(ids(&started), vec![3, 4], "cards beyond the caps stay idle");
    assert!(gate.try_acquire("A").is_none(), "slots are held while phases run");
    for (_, p) in started {
        gate.release(p);
    }
    assert_eq!(ids(&dispatch_round(&w, &mut gate, &vec![(2, "A".to_string())])), vec![2]);
}

#[test]
fn one_slot_starts_one_card_per_column() {
    let w = workflow(vec![column("A", Some("a"))]);
    let mut gate = Gate::new(1, 1);
    let idle = vec![(1, "A".to_string()), (2, "A".to_string())];
    assert_eq!(ids(&dispatch_round(&w, &mut gate, &idle)), vec![1]);
}

#[test]
fn full_gate_starts_nothing() {
    let w = workflow(vec![column("A", Some("a"))]);
    let mut gate = Gate::new(1, 1);
    let held = gate.try_acquire("A").unwrap();
    assert!(dispatch_round(&w, &mut gate, &vec![(1, "A".to_string())]).is_empty());
    gate.release(held);
}

#[test]
fn turn_cap_falls_back_to_defaults_then_five() {
    let mut c = column("A", Some("a"));
    let mut d = Defaults::default();
    assert_eq!(max_turns_for(&c, &d), 5);
    d.max_turns_per_phase = Some(8);
    assert_eq!(max_turns_for(&c, &d), 8);
    c.max_turns_per_phase = Some(2);
    assert_eq!(max_turns_for(&c, &d), 2);
}

#[test]
fn gate_follows_workflow_defaults() {
    let mut w = workflow(vec![column("A", Some("a"))]);
    let mut g = gate_for(&w);
    let a = g.try_acquire("A").unwrap();
    assert!(g.try_acquire("A").is_none(), "one per column by default");
    let b = g.try_acquire("B").unwrap();
    let c = g.try_acquire("C").unwrap();
    assert!(g.try_acquire("D").is_none(), "three overall by default");
    for p in [a, b, c] {
        g.release(p);
    }
    w.defaults.max_concurrent_dispatches = Some(5);
    w.defaults.max_per_column = Some(2);
    let mut g = gate_for(&w);
    let held: Vec<_> = ["A", "A", "B", "B", "C"].iter().map(|c| g.try_acquire(c).unwrap()).collect();
    assert!(g.try_acquire("A").is_none());
    assert!(g.try_acquire("D").is_none());
    for p in held {
        g.release(p);
    }
}

#[test]
fn advance_needs_a_next_column() {
    let mut c = column("A", Some("a"));
    assert_eq!(advance_target(&c).unwrap_err(), "non-terminal column missing next");
    c.next = Some("B".into());
    assert_eq!(advance_target(&c).unwrap(), "B");
}

#[test]
fn hooks_and_messages() {
    let hooks = Hooks {
        pre_dispatch: Some("exit 1".into()),
        post_complete: None,
        on_error: Some(String::new()),
    };
    assert_eq!(hook_command(&hooks, HookKind::PreDispatch), Some("exit 1"));
    assert_eq!(hook_command(&hooks, HookKind::PostComplete), None);
    assert_eq!(hook_command(&hooks, HookKind::OnError), Some(""));
    assert!(hook_runs("exit 1"));
    assert!(!hook_runs(""));
    assert_eq!(card_message(Some("AP-1"), "Fix it"), "AP-1: Fix it");
    assert_eq!(card_message(None, "Fix it"), ": Fix it");
    assert_eq!(workflow_file("AP"), ".agents/kanban-workflows/AP.yml");
}

#[test]
fn followup_of_each_outcome() {
    let done = followup(&PhaseOutcome::Complete { turns_used: 1, last_session: 0 });
    assert!(done.advance);
    assert_eq!(done.hook, Some(HookKind::PostComplete));
    assert!(done.record_history && done.clear_review_feedback);
    let review = followup(&PhaseOutcome::AwaitingReview { turns_used: 3, last_session: 0 });
    assert!(!review.advance);
    assert_eq!(review.notify, Some("awaiting_review"));
    assert_eq!(review.event, Some("awaiting_review"));
    assert!(!review.record_history);
    let failed = followup(&PhaseOutcome::Failed { reason: "x".into(), turns_used: 1 });
    assert_eq!(failed.notify, Some("error"));
    assert_eq!(failed.hook, Some(HookKind::OnError));
    let cancelled = followup(&PhaseOutcome::Cancelled);
    assert!(!cancelled.advance && cancelled.notify.is_none() && cancelled.hook.is_none());
}

#[test]
fn which_cards_wait_for_dispatch() {
    let cases = [
        (PhaseState::Idle, false, true),
        (PhaseState::Running, false, true),
        (PhaseState::Running, true, false),
        (PhaseState::AwaitingReview, false, false),
        (PhaseState::Error, false, false),
        (PhaseState::Archived, false, false),
    ];
    for (s, in_flight, expected) in cases {
        assert_eq!(awaits_dispatch(s, in_flight), expected, "{:?} in flight {}", s, in_flight);
    }
}

#[test]
fn outcome_updates_and_events() {
    let mut c = column("Coding", Some("coder"));
    c.next = Some("Reviewing".into());
    let done = PhaseOutcome::Complete { turns_used: 2, last_session: 7 };
    let u = outcome_update(&done, &c).unwrap();
    assert_eq!(u.kanban_phase.as_deref(), Some("Reviewing"));
    assert_eq!(u.phase_state, Some(PhaseState::Idle));
    assert_eq!(u.last_session, Some(7));
    let e = phase_event(&done, Some("Coding"), "Reviewing").unwrap();
    assert_eq!((e.event_type, e.actor), ("phase_advanced", "dispatcher"));
    assert_eq!(e.from_phase.as_deref(), Some("Coding"));
    assert_eq!(e.to_phase.as_deref(), Some("Reviewing"));

    let failed = PhaseOutcome::Failed { reason: "boom".into(), turns_used: 3 };
    let u = outcome_update(&failed, &c).unwrap();
    assert_eq!(u.phase_state, Some(PhaseState::Error));
    assert_eq!(u.error_info, Some(Some("{\"reason\":\"boom\",\"turns\":3}".to_string())));
    assert_eq!(u.current_turn, Some(3));
    let e = phase_event(&failed, Some("Coding"), "Reviewing").unwrap();
    assert_eq!((e.event_type, e.actor), ("error", "agent"));
    assert_eq!(e.from_phase, None);
    assert_eq!(e.payload.as_deref(), Some("{\"reason\":\"boom\",\"turns\":3}"));

    let waiting = PhaseOutcome::AwaitingReview { turns_used: 5, last_session: 9 };
    let u = outcome_update(&waiting, &c).unwrap();
    assert_eq!(u.phase_state, Some(PhaseState::AwaitingReview));
    assert!(u.review_pending_now);
    assert_eq!(phase_event(&waiting, None, "x").unwrap().event_type, "awaiting_review");

    assert_eq!(outcome_update(&PhaseOutcome::Cancelled, &c).unwrap().phase_state, Some(PhaseState::Archived));
    assert!(phase_event(&PhaseOutcome::Cancelled, None, "x").is_none());

    let last = column("Done", Some("x"));
    assert_eq!(outcome_update(&done, &last).unwrap_err(), "non-terminal column missing next");
}

//! The decisions of a scheduler tick: which cards to dispatch, how a phase
//! is set up, and what follows its outcome.
use vstd::prelude::*;
use crate::config::{Column, Defaults, Hooks, Workflow, OnComplete};
use crate::dispatcher::gate::{Gate, Permit};
use crate::dispatcher::phase::{PhaseOutcome, OutcomeData};
use crate::text::{first_index, first_index_from, str_eq};
use crate::models::task::PhaseState;
use crate::card::{CardUpdate, advance_update, awaiting_review_update, cancel_update, error_update,
    waits_for_review};
use crate::payload::{failure_info, failure_text};

verus! {

/// The turn cap of a phase: the column's own, else the workflow default,
/// else five.
pub open spec fn max_turns_of(column: Column, defaults: Defaults) -> u32 {
    match column.max_turns_per_phase {
        Some(n) => n,
        None => match defaults.max_turns_per_phase {
            Some(n) => n,
            None => 5,
        },
    }
}

/// The turn cap of a phase in `column`.
pub fn max_turns_for(column: &Column, defaults: &Defaults) -> (r: u32)
    ensures
        r == max_turns_of(*column, *defaults),
{
    match column.max_turns_per_phase {
        Some(n) => n,
        None => match defaults.max_turns_per_phase {
            Some(n) => n,
            None => 5,
        },
    }
}

/// A column called `name`.
pub open spec fn named(name: Seq<char>) -> spec_fn(Column) -> bool {
    |c: Column| c.name@ == name
}

/// How a phase runs: in which column (by index), with which agent, whose
/// prompt file is where (relative to the repository), for how many turns.
#[derive(Debug)]
pub struct PhasePlan {
    pub column: usize,
    pub agent: String,
    pub agent_md: String,
    pub max_turns: u32,
}

/// Where an agent's prompt file lies in a repository.
pub open spec fn agent_file_of(agent: Seq<char>) -> Seq<char> {
    ".agents/agent/"@ + agent + ".md"@
}

/// Where a project's workflow file lies in a repository.
pub open spec fn workflow_file_of(project: Seq<char>) -> Seq<char> {
    ".agents/kanban-workflows/"@ + project + ".yml"@
}

/// Where a project's workflow file lies in a repository.
pub fn workflow_file(project: &str) -> (r: String)
    ensures
        r@ == workflow_file_of(project@),
{
    String::from_str(".agents/kanban-workflows/").concat(project).concat(".yml")
}

/// The plan for the phase of a card in column `kanban_phase`, or why there
/// is none: the card has no column, the column is unknown, or it has no
/// agent.
pub fn plan_phase(workflow: &Workflow, kanban_phase: Option<&str>) -> (r: Result<PhasePlan, String>)
    ensures
        match kanban_phase {
            None => r matches Err(m) && m@ == "task has no kanban_phase"@,
            Some(name) => match first_index(workflow.columns@, named(name@)) {
                None => r matches Err(m) && m@ == "unknown column: "@ + name@,
                Some(i) => match workflow.columns@[i].agent {
                    None => r matches Err(m) && m@ == "column has no agent"@,
                    Some(a) => r matches Ok(p) && p.column == i && p.agent@ == a@ && p.agent_md@
                        == agent_file_of(a@) && p.max_turns == max_turns_of(
                        workflow.columns@[i],
                        workflow.defaults,
                    ),
                },
            },
        },
{
    let name = match kanban_phase {
        Some(n) => n,
        None => {
            return Err(String::from_str("task has no kanban_phase"));
        },
    };
    let mut i: usize = 0;
    while i < workflow.columns.len()
        invariant
            i <= workflow.columns@.len(),
            kanban_phase == Some(name),
            first_index(workflow.columns@, named(name@)) == first_index_from(
                workflow.columns@,
                named(name@),
                i as int,
            ),
        decreases workflow.columns@.len() - i,
    {
        let c = &workflow.columns[i];
        if str_eq(c.name.as_str(), name) {
            return match &c.agent {
                None => Err(String::from_str("column has no agent")),
                Some(a) => Ok(
                    PhasePlan {
                        column: i,
                        agent: a.clone(),
                        agent_md: String::from_str(".agents/agent/").concat(a.as_str()).concat(".md"),
                        max_turns: max_turns_for(c, &workflow.defaults),
                    },
                ),
            };
        }
        i += 1;
    }
    Err(String::from_str("unknown column: ").concat(name))
}

/// The column a completed phase advances to, or the message that the column
/// has none.
pub fn advance_target(column: &Column) -> (r: Result<String, String>)
    ensures
        match column.next {
            Some(n) => r matches Ok(t) && t@ == n@,
            None => r matches Err(m) && m@ == "non-terminal column missing next"@,
        },
{
    match &column.next {
        Some(n) => Ok(n.clone()),
        None => Err(String::from_str("non-terminal column missing next")),
    }
}

/// The hooks that run around a phase.
#[derive(Debug, Clone, Copy, PartialEq, Eq, Structural)]
pub enum HookKind {
    PreDispatch,
    PostComplete,
    OnError,
}

/// The command configured for a hook, if any.
pub open spec fn hook_of(hooks: Hooks, kind: HookKind) -> Option<String> {
    match kind {
        HookKind::PreDispatch => hooks.pre_dispatch,
        HookKind::PostComplete => hooks.post_complete,
        HookKind::OnError => hooks.on_error,
    }
}

/// The command configured for a hook, if any.
pub fn hook_command(hooks: &Hooks, kind: HookKind) -> (r: Option<&str>)
    ensures
        match hook_of(*hooks, kind) {
            Some(c) => r matches Some(x) && x@ == c@,
            None => r is None,
        },
{
    let h = match kind {
        HookKind::PreDispatch => &hooks.pre_dispatch,
        HookKind::PostComplete => &hooks.post_complete,
        HookKind::OnError => &hooks.on_error,
    };
    match h {
        Some(c) => Some(c.as_str()),
        None => None,
    }
}

/// Whether a hook command does anything: an empty one succeeds without
/// running.
pub fn hook_runs(cmd: &str) -> (r: bool)
    ensures
        r == (cmd@.len() > 0),
{
    !cmd.is_empty()
}

/// What follows the end of a phase, besides updating the card.
#[derive(Debug)]
pub struct Followup {
    /// The card advances to its column's next column.
    pub advance: bool,
    /// The operator is notified of this event.
    pub notify: Option<&'static str>,
    /// An event of this type is stored for the card.
    pub event: Option<&'static str>,
    /// This hook runs (its failure is only logged).
    pub hook: Option<HookKind>,
    /// A line for the completed phase is appended to the worktree's history.
    pub record_history: bool,
    /// The review feedback shown to the phase's agent is removed.
    pub clear_review_feedback: bool,
}

/// The followup of each outcome: a completion advances the card, appends a
/// history line, removes the review feedback and runs the post-complete hook; a wait for review notifies and records
/// `awaiting_review`; a failure notifies and records `error` and runs the
/// on-error hook; a cancellation does none of these.
pub open spec fn followup_of(o: OutcomeData) -> (
    bool,
    Option<Seq<char>>,
    Option<Seq<char>>,
    Option<HookKind>,
    bool,
    bool,
) {
    match o {
        OutcomeData::Complete { .. } => (true, None, None, Some(HookKind::PostComplete), true, true),
        OutcomeData::AwaitingReview { .. } => (
            false,
            Some("awaiting_review"@),
            Some("awaiting_review"@),
            None,
            false,
            false,
        ),
        OutcomeData::Failed { .. } => (
            false,
            Some("error"@),
            Some("error"@),
            Some(HookKind::OnError),
            false,
            false,
        ),
        OutcomeData::Cancelled => (false, None, None, None, false, false),
    }
}

/// The views of an optional name.
pub open spec fn name_view(o: Option<&'static str>) -> Option<Seq<char>> {
    match o {
        Some(s) => Some(s@),
        None => None,
    }
}

/// What follows the end of a phase with outcome `o`.
pub fn followup(o: &PhaseOutcome) -> (f: Followup)
    ensures
        (
            f.advance,
            name_view(f.notify),
            name_view(f.event),
            f.hook,
            f.record_history,
            f.clear_review_feedback,
        )
            == followup_of(o@),
{
    match o {
        PhaseOutcome::Complete { .. } => Followup {
            advance: true,
            notify: None,
            event: None,
            hook: Some(HookKind::PostComplete),
            record_history: true,
            clear_review_feedback: true,
        },
        PhaseOutcome::AwaitingReview { .. } => Followup {
            advance: false,
            notify: Some("awaiting_review"),
            event: Some("awaiting_review"),
            hook: None,
            record_history: false,
            clear_review_feedback: false,
        },
        PhaseOutcome::Failed { .. } => Followup {
            advance: false,
            notify: Some("error"),
            event: Some("error"),
            hook: Some(HookKind::OnError),
            record_history: false,
            clear_review_feedback: false,
        },
        PhaseOutcome::Cancelled => Followup {
            advance: false,
            notify: None,
            event: None,
            hook: None,
            record_history: false,
            clear_review_feedback: false,
        },
    }
}

/// The card update that ends a phase with outcome `o` in `column`, or the
/// message that a completed phase's column has no next column: a completion
/// moves the card into the next column, idle at turn zero, with the last
/// session; a wait for review records the turns and session; a failure puts
/// the card in error with the reason and turns; a cancellation archives it.
pub fn outcome_update(o: &PhaseOutcome, column: &Column) -> (r: Result<CardUpdate, String>)
    ensures
        match o@ {
            OutcomeData::Complete { last_session, .. } => match column.next {
                Some(n) => r matches Ok(u) && (u.kanban_phase matches Some(k) && k@ == n@)
                    && u.phase_state == Some(PhaseState::Idle) && u.current_turn == Some(0i64)
                    && u.last_session == Some(last_session) && !u.review_pending_now
                    && u.error_info is None && u.pending_inject is None,
                None => r matches Err(m) && m@ == "non-terminal column missing next"@,
            },
            OutcomeData::AwaitingReview { turns_used, last_session } => r matches Ok(u)
                && waits_for_review(u, turns_used, last_session),
            OutcomeData::Failed { reason, turns_used } => r matches Ok(u) && u.phase_state == Some(
                PhaseState::Error,
            ) && (u.error_info matches Some(Some(i)) && i@ == failure_text(reason, turns_used))
                && u.current_turn == Some(turns_used as i64) && u.kanban_phase is None
                && u.last_session is None && !u.review_pending_now && u.pending_inject is None,
            OutcomeData::Cancelled => r matches Ok(u) && u.phase_state == Some(PhaseState::Archived)
                && u.kanban_phase is None && u.current_turn is None && u.last_session is None
                && !u.review_pending_now && u.error_info is None && u.pending_inject is None,
        },
{
    match o {
        PhaseOutcome::Complete { last_session, .. } => match advance_target(column) {
            Ok(next) => Ok(advance_update(next, *last_session)),
            Err(m) => Err(m),
        },
        PhaseOutcome::AwaitingReview { turns_used, last_session } => Ok(
            awaiting_review_update(*turns_used, *last_session),
        ),
        PhaseOutcome::Failed { reason, turns_used } => Ok(
            error_update(failure_info(reason.as_str(), *turns_used), Some(*turns_used)),
        ),
        PhaseOutcome::Cancelled => Ok(cancel_update()),
    }
}

/// An event stored for a card at the end of a phase.
#[derive(Debug)]
pub struct PhaseEvent {
    pub event_type: &'static str,
    pub actor: &'static str,
    pub from_phase: Option<String>,
    pub to_phase: Option<String>,
    pub payload: Option<String>,
}

/// The optional text's view.
pub open spec fn text_view(o: Option<String>) -> Option<Seq<char>> {
    match o {
        Some(s) => Some(s@),
        None => None,
    }
}

/// The event stored when a phase of a card in column `kanban_phase` ends
/// with outcome `o` (the card advancing to `next` on completion): the
/// dispatcher records the advance and a wait for review, from that column;
/// the agent records a failure, with its error info; a cancellation records
/// nothing.
pub open spec fn phase_event_of(
    o: OutcomeData,
    kanban_phase: Option<Seq<char>>,
    next: Seq<char>,
) -> Option<(Seq<char>, Seq<char>, Option<Seq<char>>, Option<Seq<char>>, Option<Seq<char>>)> {
    match o {
        OutcomeData::Complete { .. } => Some(
            ("phase_advanced"@, "dispatcher"@, kanban_phase, Some(next), None),
        ),
        OutcomeData::AwaitingReview { .. } => Some(
            ("awaiting_review"@, "dispatcher"@, kanban_phase, None, None),
        ),
        OutcomeData::Failed { reason, turns_used } => Some(
            ("error"@, "agent"@, None, None, Some(failure_text(reason, turns_used))),
        ),
        OutcomeData::Cancelled => None,
    }
}

/// The event stored when a phase of a card in column `kanban_phase` ends
/// with outcome `o`, the card advancing to `next` on completion.
pub fn phase_event(o: &PhaseOutcome, kanban_phase: Option<&str>, next: &str) -> (r: Option<
    PhaseEvent,
>)
    ensures
        match phase_event_of(
            o@,
            match kanban_phase {
                Some(k) => Some(k@),
                None => None,
            },
            next@,
        ) {
            Some((t, a, f, to, p)) => r matches Some(e) && e.event_type@ == t && e.actor@ == a
                && text_view(e.from_phase) == f && text_view(e.to_phase) == to && text_view(
                e.payload,
            ) == p,
            None => r is None,
        },
{
    let from = match kanban_phase {
        Some(k) => Some(String::from_str(k)),
        None => None,
    };
    match o {
        PhaseOutcome::Complete { .. } => Some(
            PhaseEvent {
                event_type: "phase_advanced",
                actor: "dispatcher",
                from_phase: from,
                to_phase: Some(String::from_str(next)),
                payload: None,
            },
        ),
        PhaseOutcome::AwaitingReview { .. } => Some(
            PhaseEvent {
                event_type: "awaiting_review",
                actor: "dispatcher",
                from_phase: from,
                to_phase: None,
                payload: None,
            },
        ),
        PhaseOutcome::Failed { reason, turns_used } => Some(
            PhaseEvent {
                event_type: "error",
                actor: "agent",
                from_phase: None,
                to_phase: None,
                payload: Some(failure_info(reason.as_str(), *turns_used)),
            },
        ),
        PhaseOutcome::Cancelled => None,
    }
}

/// The text of a notification about a card: its Jira key (or nothing), a
/// colon, and its title.
pub fn card_message(jira_key: Option<&str>, title: &str) -> (r: String)
    ensures
        r@ == match jira_key {
            Some(k) => k@,
            None => ""@,
        } + ": "@ + title@,
{
    let key = match jira_key {
        Some(k) => k,
        None => "",
    };
    String::from_str(key).concat(": ").concat(title)
}

/// A workflow's overall cap on running phases: its
/// `max_concurrent_dispatches`, else three.
pub open spec fn global_cap_of(defaults: Defaults) -> nat {
    match defaults.max_concurrent_dispatches {
        Some(n) => n as nat,
        None => 3,
    }
}

/// A workflow's cap on running phases per column: its `max_per_column`,
/// else one.
pub open spec fn column_cap_of(defaults: Defaults) -> nat {
    match defaults.max_per_column {
        Some(n) => n as nat,
        None => 1,
    }
}

/// A project's `Gate`, with nothing running: capped overall by the
/// workflow's `max_concurrent_dispatches` (three when unset) and per column
/// by its `max_per_column` (one when unset).
pub fn gate_for(workflow: &Workflow) -> (g: Gate)
    ensures
        g.max_global() == global_cap_of(workflow.defaults),
        g.max_per_column() == column_cap_of(workflow.defaults),
        g.active() == 0,
        forall|c: Seq<char>| g.active_in(c) == 0,
{
    let global: usize = match workflow.defaults.max_concurrent_dispatches {
        Some(n) => n as usize,
        None => 3,
    };
    let per_column: usize = match workflow.defaults.max_per_column {
        Some(n) => n as usize,
        None => 1,
    };
    Gate::new(global, per_column)
}

/// Whether an idle card in column `name` is dispatched: the column exists
/// and has an agent.
pub open spec fn dispatchable(workflow: Workflow, name: Seq<char>) -> bool {
    match first_index(workflow.columns@, named(name)) {
        Some(i) => workflow.columns@[i].agent is Some,
        None => false,
    }
}

/// Whether a card waits for a dispatch: it is idle, or it is running with
/// no phase in flight for it (a card whose changes were asked for is set
/// running and is started again).
pub open spec fn waits_for_dispatch(state: PhaseState, in_flight: bool) -> bool {
    state == PhaseState::Idle || (state == PhaseState::Running && !in_flight)
}

/// Whether a card in `state` waits for a dispatch, given whether a phase is
/// in flight for it.
pub fn awaits_dispatch(state: PhaseState, in_flight: bool) -> (r: bool)
    ensures
        r == waits_for_dispatch(state, in_flight),
{
    state == PhaseState::Idle || (state == PhaseState::Running && !in_flight)
}

/// How many of the started cards are in column `col`.
pub open spec fn count_in_column(started: Seq<(u128, Seq<char>)>, col: Seq<char>) -> nat
    decreases started.len(),
{
    if started.len() == 0 {
        0
    } else {
        count_in_column(started.drop_last(), col) + if started.last().1 == col {
            1nat
        } else {
            0nat
        }
    }
}

/// Gate `g`, once the cards of `started` hold a slot each, has room for
/// one more phase in column `col`.
pub open spec fn admits_after(g: Gate, started: Seq<(u128, Seq<char>)>, col: Seq<char>) -> bool {
    &&& g.active() + started.len() < g.max_global()
    &&& g.active_in(col) + count_in_column(started, col) < g.max_per_column()
}

/// The idle cards (id and column), in order, that a dispatch round starts
/// from gate `g`: each card whose column is dispatchable, while a slot is
/// free for it overall and in its column once the cards started before it
/// hold theirs.
pub open spec fn round_started(idle: Seq<(u128, String)>, workflow: Workflow, g: Gate) -> Seq<
    (u128, Seq<char>),
>
    decreases idle.len(),
{
    if idle.len() == 0 {
        Seq::empty()
    } else {
        let prev = round_started(idle.drop_last(), workflow, g);
        let last = idle.last();
        if dispatchable(workflow, last.1@) && admits_after(g, prev, last.1@) {
            prev.push((last.0, last.1@))
        } else {
            prev
        }
    }
}

/// A dispatch round never starts more phases than gate `g` has free slots,
/// overall and in any column; and every card it starts is one of the idle
/// cards, in that card's column, and that column has an agent.
pub proof fn law_round_respects_caps(idle: Seq<(u128, String)>, workflow: Workflow, g: Gate, col: Seq<char>)
    requires
        g.active() <= g.max_global(),
        g.active_in(col) <= g.max_per_column(),
    ensures
        g.active() + round_started(idle, workflow, g).len() <= g.max_global(),
        g.active_in(col) + count_in_column(round_started(idle, workflow, g), col) <= g.max_per_column(),
        forall|k: int|
            #![trigger round_started(idle, workflow, g)[k]]
            0 <= k < round_started(idle, workflow, g).len() ==> exists|j: int|
                0 <= j < idle.len() && (#[trigger] idle[j]).0 == round_started(idle, workflow, g)[k].0
                    && idle[j].1@ == round_started(idle, workflow, g)[k].1 && dispatchable(
                    workflow,
                    idle[j].1@,
                ),
    decreases idle.len(),
{
    if idle.len() > 0 {
        let init = idle.drop_last();
        law_round_respects_caps(init, workflow, g, col);
        let prev = round_started(init, workflow, g);
        let r = round_started(idle, workflow, g);
        assert forall|k: int| #![trigger r[k]] 0 <= k < r.len() implies exists|j: int|
            0 <= j < idle.len() && (#[trigger] idle[j]).0 == r[k].0 && idle[j].1@ == r[k].1
                && dispatchable(workflow, idle[j].1@) by {
            if k < prev.len() {
                assert(r[k] == prev[k]);
                let j = choose|j: int|
                    0 <= j < init.len() && (#[trigger] init[j]).0 == prev[k].0 && init[j].1@
                        == prev[k].1 && dispatchable(workflow, init[j].1@);
                assert(idle[j] == init[j]);
            } else {
                assert(idle[idle.len() - 1] == idle.last());
            }
        }
        if r.len() > prev.len() {
            assert(r.drop_last() =~= prev);
        }
    }
}

/// The started cards as their ids and the columns of their permits.
pub open spec fn started_view(r: Seq<(u128, Permit)>) -> Seq<(u128, Seq<char>)> {
    r.map_values(|e: (u128, Permit)| (e.0, e.1.column()))
}

/// Starts the idle cards (id and column) that `gate` admits, in order:
/// those whose column has an agent, each taking a slot that it holds while
/// its phase runs; the permits come back with the ids. Cards beyond the caps
/// are not started and stay idle. Each count of `gate` grows by the cards
/// started, overall and in their columns.
pub fn dispatch_round(workflow: &Workflow, gate: &mut Gate, idle: &Vec<(u128, String)>) -> (r: Vec<
    (u128, Permit),
>)
    ensures
        started_view(r@) == round_started(idle@, *workflow, *old(gate)),
        final(gate).active() == old(gate).active() + r@.len(),
        forall|c: Seq<char>|
            #[trigger] final(gate).active_in(c) == old(gate).active_in(c) + count_in_column(
                started_view(r@),
                c,
            ),
        final(gate).max_global() == old(gate).max_global(),
        final(gate).max_per_column() == old(gate).max_per_column(),
{
    let mut r: Vec<(u128, Permit)> = Vec::new();
    let mut i: usize = 0;
    while i < idle.len()
        invariant
            i <= idle@.len(),
            started_view(r@) == round_started(idle@.take(i as int), *workflow, *old(gate)),
            gate.active() == old(gate).active() + r@.len(),
            forall|c: Seq<char>|
                #[trigger] gate.active_in(c) == old(gate).active_in(c) + count_in_column(
                    started_view(r@),
                    c,
                ),
            gate.max_global() == old(gate).max_global(),
            gate.max_per_column() == old(gate).max_per_column(),
        decreases idle@.len() - i,
    {
        let (id, name) = (idle[i].0, &idle[i].1);
        proof {
            assert(idle@.take(i as int + 1).drop_last() =~= idle@.take(i as int));
            assert(idle@.take(i as int + 1).last() == idle@[i as int]);
        }
        let has_agent = match workflow.column(name.as_str()) {
            Some(c) => c.agent.is_some(),
            None => false,
        };
        if has_agent {
            let ghost g0 = *gate;
            let ghost before = started_view(r@);
            if let Some(permit) = gate.try_acquire(name.as_str()) {
                r.push((id, permit));
                proof {
                    assert(started_view(r@) =~= before.push((id, name@)));
                    assert forall|c: Seq<char>|
                        #[trigger] gate.active_in(c) == old(gate).active_in(c) + count_in_column(
                            started_view(r@),
                            c,
                        ) by {
                        assert(started_view(r@).drop_last() =~= before);
                    }
                }
            }
        }
        i += 1;
    }
    proof {
        assert(idle@.take(idle@.len() as int) =~= idle@);
    }
    r
}

} // verus!

//! How the orchestrator answers changes that it sees in Jira.
use vstd::prelude::*;
use crate::config::{Reconciliation, Workflow, is_initial};
use crate::jira::{JiraDiff, JiraIssue, is_diff, law_unchanged_issue_has_empty_diff};
use crate::text::str_eq;

verus! {

/// What to do about a card after its issue changed.
#[derive(Debug, Clone, PartialEq, Eq)]
pub enum ReconcileAction {
    /// Stop the card's work (cooperatively, at the next turn boundary).
    Stop,
    /// Give the agent this text on its next turn.
    QueueInject(String),
    /// Notify the operator of this event.
    Notify(String),
    /// Store the new snapshot (always done).
    UpdateSnapshot,
}

/// An action as plain data.
pub enum ActionData {
    Stop,
    QueueInject(Seq<char>),
    Notify(Seq<char>),
    UpdateSnapshot,
}

impl View for ReconcileAction {
    type V = ActionData;

    open spec fn view(&self) -> ActionData {
        match self {
            ReconcileAction::Stop => ActionData::Stop,
            ReconcileAction::QueueInject(s) => ActionData::QueueInject(s@),
            ReconcileAction::Notify(s) => ActionData::Notify(s@),
            ReconcileAction::UpdateSnapshot => ActionData::UpdateSnapshot,
        }
    }
}

/// The setting is present and reads `value`.
pub open spec fn setting_is(setting: Option<String>, value: Seq<char>) -> bool {
    setting matches Some(s) && s@ == value
}

/// The text queued for the agent when new comments arrived, given the
/// comments as pretty-printed JSON.
pub open spec fn new_comments_blob(comments_json: Seq<char>) -> Seq<char> {
    "New comments since last turn:\n"@ + comments_json
}

/// `a` if `cond`, nothing otherwise.
pub open spec fn when(cond: bool, a: ActionData) -> Seq<ActionData> {
    if cond {
        seq![a]
    } else {
        Seq::empty()
    }
}

/// The actions for a change, in order: update the snapshot; stop if the
/// status became terminal or the assignee changed and the configuration says
/// `stop_immediately` for it; queue the new comments, and a note that the
/// summary or description changed, where the configuration says
/// `inject_next_turn`; notify when the status changed.
pub open spec fn actions_for(diff: JiraDiff, cfg: Reconciliation, comments_json: Seq<char>) -> Seq<
    ActionData,
> {
    seq![ActionData::UpdateSnapshot] + when(
        diff.status_terminal && setting_is(cfg.on_jira_status_terminal, "stop_immediately"@),
        ActionData::Stop,
    ) + when(
        diff.assignee_changed && setting_is(cfg.on_jira_assignee_change, "stop_immediately"@),
        ActionData::Stop,
    ) + when(
        diff.new_comments@.len() > 0 && setting_is(cfg.on_jira_comment, "inject_next_turn"@),
        ActionData::QueueInject(new_comments_blob(comments_json)),
    ) + when(
        (diff.summary_changed || diff.description_changed) && setting_is(
            cfg.on_jira_summary_change,
            "inject_next_turn"@,
        ),
        ActionData::QueueInject("Summary/description changed; re-read task.json."@),
    ) + when(diff.status_changed, ActionData::Notify("status_changed"@))
}

/// Polling an issue that has not changed asks for nothing but storing the
/// snapshot, and a stop when its status is terminal and the configuration
/// stops on that.
pub proof fn law_unchanged_issue_actions(
    issue: JiraIssue,
    diff: JiraDiff,
    cfg: Reconciliation,
    comments_json: Seq<char>,
)
    requires
        is_diff(issue, issue, diff),
    ensures
        actions_for(diff, cfg, comments_json) == seq![ActionData::UpdateSnapshot] + when(
            diff.status_terminal && setting_is(cfg.on_jira_status_terminal, "stop_immediately"@),
            ActionData::Stop,
        ),
{
    law_unchanged_issue_has_empty_diff(issue, diff);
    assert(actions_for(diff, cfg, comments_json) =~= seq![ActionData::UpdateSnapshot] + when(
        diff.status_terminal && setting_is(cfg.on_jira_status_terminal, "stop_immediately"@),
        ActionData::Stop,
    ));
}

/// What a change in Jira asks for, whatever else changed with it: the
/// snapshot is always stored first; a changed summary or description queues
/// the note to re-read the task when the configuration injects on it; new
/// comments are queued when it injects on comments; a terminal status or a
/// new assignee stops the card when it stops on that, and nothing else
/// stops it; and the operator is told of exactly the status changes.
pub proof fn law_reconcile_actions(diff: JiraDiff, cfg: Reconciliation, comments_json: Seq<char>)
    ensures
        actions_for(diff, cfg, comments_json).len() >= 1,
        actions_for(diff, cfg, comments_json)[0] == ActionData::UpdateSnapshot,
        (diff.summary_changed || diff.description_changed) && setting_is(
            cfg.on_jira_summary_change,
            "inject_next_turn"@,
        ) ==> actions_for(diff, cfg, comments_json).contains(
            ActionData::QueueInject("Summary/description changed; re-read task.json."@),
        ),
        diff.new_comments@.len() > 0 && setting_is(cfg.on_jira_comment, "inject_next_turn"@)
            ==> actions_for(diff, cfg, comments_json).contains(
            ActionData::QueueInject("New comments since last turn:\n"@ + comments_json),
        ),
        (diff.status_terminal && setting_is(cfg.on_jira_status_terminal, "stop_immediately"@)) || (
        diff.assignee_changed && setting_is(cfg.on_jira_assignee_change, "stop_immediately"@))
            <==> actions_for(diff, cfg, comments_json).contains(ActionData::Stop),
        diff.status_changed <==> actions_for(diff, cfg, comments_json).contains(
            ActionData::Notify("status_changed"@),
        ),
{
    let note = ActionData::QueueInject("Summary/description changed; re-read task.json."@);
    let blob = ActionData::QueueInject("New comments since last turn:\n"@ + comments_json);
    let t = diff.status_terminal && setting_is(cfg.on_jira_status_terminal, "stop_immediately"@);
    let a = diff.assignee_changed && setting_is(cfg.on_jira_assignee_change, "stop_immediately"@);
    let c = diff.new_comments@.len() > 0 && setting_is(cfg.on_jira_comment, "inject_next_turn"@);
    let sd = (diff.summary_changed || diff.description_changed) && setting_is(
        cfg.on_jira_summary_change,
        "inject_next_turn"@,
    );
    let w1 = when(t, ActionData::Stop);
    let w2 = when(a, ActionData::Stop);
    let w3 = when(c, blob);
    let w4 = when(sd, note);
    let w5 = when(diff.status_changed, ActionData::Notify("status_changed"@));
    let acts = actions_for(diff, cfg, comments_json);
    assert(acts =~= seq![ActionData::UpdateSnapshot] + w1 + w2 + w3 + w4 + w5);
    let o1 = 1int;
    let o2 = o1 + w1.len();
    let o3 = o2 + w2.len();
    let o4 = o3 + w3.len();
    let o5 = o4 + w4.len();
    assert(acts.len() == o5 + w5.len());
    assert forall|k: int| 0 <= k < acts.len() implies #[trigger] acts[k] == (if k == 0 {
        ActionData::UpdateSnapshot
    } else if k < o2 {
        w1[k - o1]
    } else if k < o3 {
        w2[k - o2]
    } else if k < o4 {
        w3[k - o3]
    } else if k < o5 {
        w4[k - o4]
    } else {
        w5[k - o5]
    }) by {}
    if sd {
        assert(acts[o4] == note);
    }
    if c {
        assert(acts[o3] == blob);
    }
    if t {
        assert(acts[o1] == ActionData::Stop);
    }
    if a {
        assert(acts[o2] == ActionData::Stop);
    }
    if diff.status_changed {
        assert(acts[o5] == ActionData::Notify("status_changed"@));
    }
    if acts.contains(ActionData::Stop) {
        let k = choose|k: int| 0 <= k < acts.len() && acts[k] == ActionData::Stop;
        assert(acts[k] == ActionData::Stop);
    }
    if acts.contains(ActionData::Notify("status_changed"@)) {
        let k = choose|k: int| 0 <= k < acts.len() && acts[k] == ActionData::Notify("status_changed"@);
        assert(acts[k] == ActionData::Notify("status_changed"@));
    }
}

fn setting_is_exec(setting: &Option<String>, value: &str) -> (r: bool)
    ensures
        r == setting_is(*setting, value@),
{
    match setting {
        Some(s) => str_eq(s.as_str(), value),
        None => false,
    }
}

/// The actions that answer `diff` under the configuration `cfg`.
/// `new_comments_json` is the diff's new comments as pretty-printed JSON
/// (what `serde_json::to_string_pretty` gives for them); it is used only when
/// they are queued for the agent.
pub fn decide_action(diff: &JiraDiff, cfg: &Reconciliation, new_comments_json: &str) -> (r: Vec<
    ReconcileAction,
>)
    ensures
        r@.map_values(|a: ReconcileAction| a@) == actions_for(*diff, *cfg, new_comments_json@),
{
    let ghost d = *diff;
    let ghost c = *cfg;
    let mut out: Vec<ReconcileAction> = Vec::new();
    out.push(ReconcileAction::UpdateSnapshot);
    let ghost acc: Seq<ActionData> = seq![ActionData::UpdateSnapshot];
    assert(out@.map_values(|a: ReconcileAction| a@) =~= acc);

    let b1 = diff.status_terminal && setting_is_exec(&cfg.on_jira_status_terminal, "stop_immediately");
    if b1 {
        out.push(ReconcileAction::Stop);
    }
    proof {
        acc = acc + when(b1, ActionData::Stop);
    }
    assert(out@.map_values(|a: ReconcileAction| a@) =~= acc);

    let b2 = diff.assignee_changed && setting_is_exec(&cfg.on_jira_assignee_change, "stop_immediately");
    if b2 {
        out.push(ReconcileAction::Stop);
    }
    proof {
        acc = acc + when(b2, ActionData::Stop);
    }
    assert(out@.map_values(|a: ReconcileAction| a@) =~= acc);

    let b3 = diff.new_comments.len() > 0 && setting_is_exec(&cfg.on_jira_comment, "inject_next_turn");
    let blob = String::from_str("New comments since last turn:\n").concat(new_comments_json);
    if b3 {
        out.push(ReconcileAction::QueueInject(blob));
    }
    proof {
        acc = acc + when(b3, ActionData::QueueInject(new_comments_blob(new_comments_json@)));
    }
    assert(out@.map_values(|a: ReconcileAction| a@) =~= acc);

    let b4 = (diff.summary_changed || diff.description_changed) && setting_is_exec(
        &cfg.on_jira_summary_change,
        "inject_next_turn",
    );
    if b4 {
        out.push(
            ReconcileAction::QueueInject(
                String::from_str("Summary/description changed; re-read task.json."),
            ),
        );
    }
    proof {
        acc = acc + when(
            b4,
            ActionData::QueueInject("Summary/description changed; re-read task.json."@),
        );
    }
    assert(out@.map_values(|a: ReconcileAction| a@) =~= acc);

    if diff.status_changed {
        out.push(ReconcileAction::Notify(String::from_str("status_changed")));
    }
    proof {
        acc = acc + when(diff.status_changed, ActionData::Notify("status_changed"@));
    }
    assert(out@.map_values(|a: ReconcileAction| a@) =~= acc);
    out
}

/// The column a new card starts in: the workflow's initial column, or the
/// message that it has none.
pub fn new_card_column(workflow: &Workflow) -> (r: Result<String, String>)
    ensures
        match crate::text::first_index(workflow.columns@, |c: crate::config::Column| is_initial(c)) {
            Some(i) => r matches Ok(n) && n@ == workflow.columns@[i].name@,
            None => r matches Err(m) && m@ == "no initial column"@,
        },
{
    match workflow.initial_column() {
        Some(c) => Ok(c.name.clone()),
        None => Err(String::from_str("no initial column")),
    }
}

} // verus!

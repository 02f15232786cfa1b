//! The states a task (a card) can be in.
use vstd::prelude::*;
use crate::text::str_eq;

verus! {

/// The task's own status.
#[derive(Debug, Clone, Copy, PartialEq, Eq, Structural)]
pub enum TaskStatus {
    Todo,
    InProgress,
    InReview,
    Done,
    Cancelled,
}

impl Default for TaskStatus {
    fn default() -> (r: Self)
        ensures
            r == TaskStatus::Todo,
    {
        TaskStatus::Todo
    }
}

/// Where a card stands in its current phase.
#[derive(Debug, Clone, Copy, PartialEq, Eq, Structural)]
pub enum PhaseState {
    Idle,
    Running,
    AwaitingReview,
    Error,
    Archived,
}

impl Default for PhaseState {
    fn default() -> (r: Self)
        ensures
            r == PhaseState::Idle,
    {
        PhaseState::Idle
    }
}

/// The name a phase state is stored under (snake case).
pub open spec fn phase_state_text(s: PhaseState) -> Seq<char> {
    match s {
        PhaseState::Idle => "idle"@,
        PhaseState::Running => "running"@,
        PhaseState::AwaitingReview => "awaiting_review"@,
        PhaseState::Error => "error"@,
        PhaseState::Archived => "archived"@,
    }
}

/// The name a task status is stored under (lower case).
pub open spec fn task_status_text(s: TaskStatus) -> Seq<char> {
    match s {
        TaskStatus::Todo => "todo"@,
        TaskStatus::InProgress => "inprogress"@,
        TaskStatus::InReview => "inreview"@,
        TaskStatus::Done => "done"@,
        TaskStatus::Cancelled => "cancelled"@,
    }
}

/// No two phase states share a name, so reading back the name a state is
/// stored under gives that state.
pub proof fn law_phase_state_names_distinct(a: PhaseState, b: PhaseState)
    ensures
        phase_state_text(a) == phase_state_text(b) ==> a == b,
{
    reveal_strlit("idle");
    reveal_strlit("running");
    reveal_strlit("awaiting_review");
    reveal_strlit("error");
    reveal_strlit("archived");
    if phase_state_text(a) == phase_state_text(b) {
        assert(phase_state_text(a).len() == phase_state_text(b).len());
        assert(phase_state_text(a)[0] == phase_state_text(b)[0]);
    }
}

/// No two task statuses share a name, so reading back the name a status is
/// stored under gives that status.
pub proof fn law_task_status_names_distinct(a: TaskStatus, b: TaskStatus)
    ensures
        task_status_text(a) == task_status_text(b) ==> a == b,
{
    reveal_strlit("todo");
    reveal_strlit("inprogress");
    reveal_strlit("inreview");
    reveal_strlit("done");
    reveal_strlit("cancelled");
    if task_status_text(a) == task_status_text(b) {
        assert(task_status_text(a).len() == task_status_text(b).len());
        assert(task_status_text(a)[0] == task_status_text(b)[0]);
        assert(task_status_text(a)[2] == task_status_text(b)[2]);
    }
}

impl PhaseState {
    /// The name this state is stored under.
    pub fn as_str(&self) -> (r: &'static str)
        ensures
            r@ == phase_state_text(*self),
    {
        match self {
            PhaseState::Idle => "idle",
            PhaseState::Running => "running",
            PhaseState::AwaitingReview => "awaiting_review",
            PhaseState::Error => "error",
            PhaseState::Archived => "archived",
        }
    }

    /// The state stored under `name`, if any.
    pub fn from_name(name: &str) -> (r: Option<PhaseState>)
        ensures
            match r {
                Some(s) => phase_state_text(s) == name@,
                None => forall|s: PhaseState| phase_state_text(s) != name@,
            },
    {
        if str_eq(name, "idle") {
            Some(PhaseState::Idle)
        } else if str_eq(name, "running") {
            Some(PhaseState::Running)
        } else if str_eq(name, "awaiting_review") {
            Some(PhaseState::AwaitingReview)
        } else if str_eq(name, "error") {
            Some(PhaseState::Error)
        } else if str_eq(name, "archived") {
            Some(PhaseState::Archived)
        } else {
            None
        }
    }
}

impl TaskStatus {
    /// The name this status is stored under.
    pub fn as_str(&self) -> (r: &'static str)
        ensures
            r@ == task_status_text(*self),
    {
        match self {
            TaskStatus::Todo => "todo",
            TaskStatus::InProgress => "inprogress",
            TaskStatus::InReview => "inreview",
            TaskStatus::Done => "done",
            TaskStatus::Cancelled => "cancelled",
        }
    }

    /// The status stored under `name`, if any.
    pub fn from_name(name: &str) -> (r: Option<TaskStatus>)
        ensures
            match r {
                Some(s) => task_status_text(s) == name@,
                None => forall|s: TaskStatus| task_status_text(s) != name@,
            },
    {
        if str_eq(name, "todo") {
            Some(TaskStatus::Todo)
        } else if str_eq(name, "inprogress") {
            Some(TaskStatus::InProgress)
        } else if str_eq(name, "inreview") {
            Some(TaskStatus::InReview)
        } else if str_eq(name, "done") {
            Some(TaskStatus::Done)
        } else if str_eq(name, "cancelled") {
            Some(TaskStatus::Cancelled)
        } else {
            None
        }
    }
}

} // verus!

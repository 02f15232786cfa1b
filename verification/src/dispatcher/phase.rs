//! The decisions of one phase run: an agent works turn after turn until it
//! marks the phase complete or failed, the phase is cancelled, or the turns
//! run out.
//!
//! The caller performs each turn and reports its output; `PhaseRun` decides
//! whether another turn runs and how the phase ends.
use vstd::prelude::*;
use crate::config::OnComplete;
use crate::dispatcher::markers::{parse_markers, marker_of, MarkerData, MarkerOutcome};

verus! {

/// How a phase ended.
#[derive(Debug)]
pub enum PhaseOutcome {
    /// The agent marked the phase complete (or the turns ran out where the
    /// column advances without review).
    Complete { turns_used: u32, last_session: u128 },
    /// The turns ran out and the column asks for review.
    AwaitingReview { turns_used: u32, last_session: u128 },
    /// The agent marked the phase failed.
    Failed { reason: String, turns_used: u32 },
    /// The phase was cancelled between turns.
    Cancelled,
}

/// A phase outcome as plain data.
pub enum OutcomeData {
    Complete { turns_used: u32, last_session: u128 },
    AwaitingReview { turns_used: u32, last_session: u128 },
    Failed { reason: Seq<char>, turns_used: u32 },
    Cancelled,
}

impl View for PhaseOutcome {
    type V = OutcomeData;

    open spec fn view(&self) -> OutcomeData {
        match self {
            PhaseOutcome::Complete { turns_used, last_session } => OutcomeData::Complete {
                turns_used: *turns_used,
                last_session: *last_session,
            },
            PhaseOutcome::AwaitingReview { turns_used, last_session } => OutcomeData::AwaitingReview {
                turns_used: *turns_used,
                last_session: *last_session,
            },
            PhaseOutcome::Failed { reason, turns_used } => OutcomeData::Failed {
                reason: reason@,
                turns_used: *turns_used,
            },
            PhaseOutcome::Cancelled => OutcomeData::Cancelled,
        }
    }
}

/// What to do next in a phase run.
#[derive(Debug)]
pub enum PhaseStep {
    /// Run turn number `n` (counting from one).
    RunTurn(u32),
    /// The phase is over.
    Finish(PhaseOutcome),
}

/// A phase step as plain data.
pub enum StepData {
    RunTurn(u32),
    Finish(OutcomeData),
}

impl View for PhaseStep {
    type V = StepData;

    open spec fn view(&self) -> StepData {
        match self {
            PhaseStep::RunTurn(n) => StepData::RunTurn(*n),
            PhaseStep::Finish(o) => StepData::Finish(o@),
        }
    }
}

/// The state of a phase run as plain data.
pub struct RunData {
    pub turns_done: u32,
    pub max_turns: u32,
    pub on_complete: OnComplete,
    pub last_session: u128,
}

/// The state of a phase run.
pub struct PhaseRun {
    turns_done: u32,
    max_turns: u32,
    on_complete: OnComplete,
    last_session: u128,
}

impl View for PhaseRun {
    type V = RunData;

    closed spec fn view(&self) -> RunData {
        RunData {
            turns_done: self.turns_done,
            max_turns: self.max_turns,
            on_complete: self.on_complete,
            last_session: self.last_session,
        }
    }
}

/// A run that has not started: no turn done, and the nil session.
pub open spec fn start_state(max_turns: u32, on_complete: OnComplete) -> RunData {
    RunData { turns_done: 0, max_turns, on_complete, last_session: 0 }
}

/// How a run ends when its turns have run out: review where the column asks
/// for it, complete otherwise; all turns counted, with the last session.
pub open spec fn out_of_turns(s: RunData) -> OutcomeData {
    if s.on_complete == OnComplete::Review {
        OutcomeData::AwaitingReview { turns_used: s.max_turns, last_session: s.last_session }
    } else {
        OutcomeData::Complete { turns_used: s.max_turns, last_session: s.last_session }
    }
}

/// The decision before a turn: when the turns have run out the run ends
/// (cancellation is not asked then); otherwise a cancellation ends it; else
/// the next turn runs.
pub open spec fn before_turn(s: RunData, cancelled: bool) -> StepData {
    if s.turns_done >= s.max_turns {
        StepData::Finish(out_of_turns(s))
    } else if cancelled {
        StepData::Finish(OutcomeData::Cancelled)
    } else {
        StepData::RunTurn((s.turns_done + 1) as u32)
    }
}

/// The state after a turn that printed `stdout` in session `session`.
pub open spec fn after_turn_state(s: RunData, session: u128) -> RunData {
    RunData { turns_done: (s.turns_done + 1) as u32, last_session: session, ..s }
}

/// How a turn that printed `stdout` in session `session` ends the run, if it
/// does: its completion or failure marker, counted as the turn it came in.
pub open spec fn after_turn_outcome(s: RunData, stdout: Seq<char>, session: u128) -> Option<
    OutcomeData,
> {
    let n = (s.turns_done + 1) as u32;
    match marker_of(stdout) {
        MarkerData::Complete => Some(OutcomeData::Complete { turns_used: n, last_session: session }),
        MarkerData::Failed(reason) => Some(OutcomeData::Failed { reason, turns_used: n }),
        MarkerData::Continue => None,
    }
}

impl PhaseRun {
    #[verifier::type_invariant]
    spec fn inv(self) -> bool {
        self.turns_done <= self.max_turns
    }

    /// A run of at most `max_turns` turns in a column whose `on_complete` is
    /// given.
    pub fn start(max_turns: u32, on_complete: OnComplete) -> (r: PhaseRun)
        ensures
            r@ == start_state(max_turns, on_complete),
    {
        PhaseRun { turns_done: 0, max_turns, on_complete, last_session: 0 }
    }

    /// Turns done so far.
    pub fn turns_done(&self) -> (r: u32)
        ensures
            r == self@.turns_done,
    {
        self.turns_done
    }

    /// The most turns this run allows.
    pub fn max_turns(&self) -> (r: u32)
        ensures
            r == self@.max_turns,
    {
        self.max_turns
    }

    /// What to do before the next turn; `cancelled` says whether the phase
    /// has been cancelled.
    pub fn next(&self, cancelled: bool) -> (r: PhaseStep)
        ensures
            r@ == before_turn(self@, cancelled),
    {
        if self.turns_done >= self.max_turns {
            if self.on_complete == OnComplete::Review {
                PhaseStep::Finish(
                    PhaseOutcome::AwaitingReview {
                        turns_used: self.max_turns,
                        last_session: self.last_session,
                    },
                )
            } else {
                PhaseStep::Finish(
                    PhaseOutcome::Complete {
                        turns_used: self.max_turns,
                        last_session: self.last_session,
                    },
                )
            }
        } else if cancelled {
            PhaseStep::Finish(PhaseOutcome::Cancelled)
        } else {
            PhaseStep::RunTurn(self.turns_done + 1)
        }
    }

    /// Records the turn that just ran: its output and its session. Returns
    /// how the phase ends, if this turn ends it.
    pub fn after_turn(&mut self, stdout: &str, session: u128) -> (r: Option<PhaseOutcome>)
        requires
            old(self)@.turns_done < old(self)@.max_turns,
        ensures
            final(self)@ == after_turn_state(old(self)@, session),
            match r {
                Some(o) => after_turn_outcome(old(self)@, stdout@, session) == Some(o@),
                None => after_turn_outcome(old(self)@, stdout@, session) is None,
            },
    {
        let n = self.turns_done + 1;
        self.turns_done = n;
        self.last_session = session;
        match parse_markers(stdout) {
            MarkerOutcome::Complete => Some(PhaseOutcome::Complete { turns_used: n, last_session: session }),
            MarkerOutcome::Failed(reason) => Some(PhaseOutcome::Failed { reason, turns_used: n }),
            MarkerOutcome::Continue => None,
        }
    }
}

/// The outcome of a run that is never cancelled, from state `s`, when turn
/// `k` (from one) prints `outputs[k - 1].0` in session `outputs[k - 1].1`.
pub open spec fn run_outcome(s: RunData, outputs: Seq<(Seq<char>, u128)>) -> OutcomeData
    decreases s.max_turns - s.turns_done,
{
    if s.turns_done >= s.max_turns {
        out_of_turns(s)
    } else {
        let out = outputs[s.turns_done as int];
        match after_turn_outcome(s, out.0, out.1) {
            Some(o) => o,
            None => run_outcome(after_turn_state(s, out.1), outputs),
        }
    }
}

proof fn lemma_run_continues(s: RunData, outputs: Seq<(Seq<char>, u128)>, k: int)
    requires
        s.turns_done <= k <= s.max_turns,
        k <= outputs.len(),
        forall|j: int| s.turns_done <= j < k ==> marker_of(#[trigger] outputs[j].0) is Continue,
    ensures
        run_outcome(s, outputs) == run_outcome(
            RunData {
                turns_done: k as u32,
                last_session: if k > s.turns_done {
                    outputs[k - 1].1
                } else {
                    s.last_session
                },
                ..s
            },
            outputs,
        ),
    decreases k - s.turns_done,
{
    if k > s.turns_done {
        let out = outputs[s.turns_done as int];
        assert(marker_of(out.0) is Continue);
        lemma_run_continues(after_turn_state(s, out.1), outputs, k);
    }
}

/// A phase whose agent prints the completion marker first in turn `k`, with
/// no marker before, completes after `k` turns in that turn's session.
pub proof fn law_completes_on_marker(
    max_turns: u32,
    on_complete: OnComplete,
    outputs: Seq<(Seq<char>, u128)>,
    k: int,
)
    requires
        1 <= k <= max_turns,
        k <= outputs.len(),
        forall|j: int| 0 <= j < k - 1 ==> marker_of(#[trigger] outputs[j].0) is Continue,
        marker_of(outputs[k - 1].0) is Complete,
    ensures
        run_outcome(start_state(max_turns, on_complete), outputs) == (OutcomeData::Complete {
            turns_used: k as u32,
            last_session: outputs[k - 1].1,
        }),
{
    let s0 = start_state(max_turns, on_complete);
    lemma_run_continues(s0, outputs, k - 1);
}

/// A phase whose agent prints the failure marker first in turn `k`, with no
/// marker before, fails after `k` turns with the marker's reason.
pub proof fn law_fails_on_marker(
    max_turns: u32,
    on_complete: OnComplete,
    outputs: Seq<(Seq<char>, u128)>,
    k: int,
    reason: Seq<char>,
)
    requires
        1 <= k <= max_turns,
        k <= outputs.len(),
        forall|j: int| 0 <= j < k - 1 ==> marker_of(#[trigger] outputs[j].0) is Continue,
        marker_of(outputs[k - 1].0) == MarkerData::Failed(reason),
    ensures
        run_outcome(start_state(max_turns, on_complete), outputs) == (OutcomeData::Failed {
            reason,
            turns_used: k as u32,
        }),
{
    let s0 = start_state(max_turns, on_complete);
    lemma_run_continues(s0, outputs, k - 1);
}

/// A phase whose agent never prints a marker uses all its turns; it then
/// awaits review where the column asks for review, and completes otherwise,
/// with the session of the last turn (the nil session if there was no turn).
pub proof fn law_out_of_turns(
    max_turns: u32,
    on_complete: OnComplete,
    outputs: Seq<(Seq<char>, u128)>,
)
    requires
        max_turns <= outputs.len(),
        forall|j: int| 0 <= j < max_turns ==> marker_of(#[trigger] outputs[j].0) is Continue,
    ensures
        ({
            let last = if max_turns > 0 {
                outputs[max_turns - 1].1
            } else {
                0
            };
            run_outcome(start_state(max_turns, on_complete), outputs) == if on_complete
                == OnComplete::Review {
                OutcomeData::AwaitingReview { turns_used: max_turns, last_session: last }
            } else {
                OutcomeData::Complete { turns_used: max_turns, last_session: last }
            }
        }),
{
    let s0 = start_state(max_turns, on_complete);
    lemma_run_continues(s0, outputs, max_turns as int);
}

/// A run never asks for more turns than it allows: each turn it asks for is
/// numbered from one up to the cap.
pub proof fn law_turns_within_cap(s: RunData, cancelled: bool)
    requires
        s.turns_done <= s.max_turns,
    ensures
        before_turn(s, cancelled) matches StepData::RunTurn(n) ==> 1 <= n <= s.max_turns
            && n == s.turns_done + 1,
{
}

/// Cancellation is checked at every turn boundary: whenever turns are left,
/// a cancelled run ends as cancelled instead of running another turn, after
/// any number of turns; a run that is not cancelled runs its next turn; and
/// a run out of turns ends with its out-of-turns outcome either way.
pub proof fn law_cancel_at_every_boundary(s: RunData)
    ensures
        s.turns_done < s.max_turns ==> before_turn(s, true) == StepData::Finish(
            OutcomeData::Cancelled,
        ),
        s.turns_done < s.max_turns ==> before_turn(s, false) == StepData::RunTurn(
            (s.turns_done + 1) as u32,
        ),
        s.turns_done >= s.max_turns ==> before_turn(s, true) == before_turn(s, false),
        s.turns_done >= s.max_turns ==> before_turn(s, true) == StepData::Finish(
            if s.on_complete == OnComplete::Review {
                OutcomeData::AwaitingReview { turns_used: s.max_turns, last_session: s.last_session }
            } else {
                OutcomeData::Complete { turns_used: s.max_turns, last_session: s.last_session }
            },
        ),
{
}

} // verus!

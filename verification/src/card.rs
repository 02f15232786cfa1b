//! The card state machine: how each event changes a card's orchestration
//! fields.
//!
//! A transition is a `CardUpdate`, the set of fields it writes; the store
//! applies it to the card's row. `apply` says what a card looks like after
//! one.
use vstd::prelude::*;
use crate::models::task::PhaseState;
use crate::payload::{feedback_text, feedback_in, law_feedback_round_trip};

verus! {

/// The orchestration fields of a card, as plain data.
pub struct CardFields {
    pub kanban_phase: Option<Seq<char>>,
    pub phase_state: PhaseState,
    pub current_turn: int,
    pub last_session: Option<u128>,
    pub review_pending: bool,
    pub error_info: Option<Seq<char>>,
    pub pending_inject: Option<Seq<char>>,
}

/// The fields that a transition writes; `None` leaves a field as it is.
/// For the fields that may hold nothing, `Some(None)` clears the field.
/// `review_pending_now` marks the card as pending review from now on.
#[derive(Debug)]
pub struct CardUpdate {
    pub kanban_phase: Option<String>,
    pub phase_state: Option<PhaseState>,
    pub current_turn: Option<i64>,
    pub last_session: Option<u128>,
    pub review_pending_now: bool,
    pub error_info: Option<Option<String>>,
    pub pending_inject: Option<Option<String>>,
}

/// The view of a field that may hold nothing.
pub open spec fn opt_view(o: Option<String>) -> Option<Seq<char>> {
    match o {
        Some(s) => Some(s@),
        None => None,
    }
}

/// A card after an update.
pub open spec fn apply(c: CardFields, u: CardUpdate) -> CardFields {
    CardFields {
        kanban_phase: match u.kanban_phase {
            Some(p) => Some(p@),
            None => c.kanban_phase,
        },
        phase_state: match u.phase_state {
            Some(s) => s,
            None => c.phase_state,
        },
        current_turn: match u.current_turn {
            Some(t) => t as int,
            None => c.current_turn,
        },
        last_session: match u.last_session {
            Some(s) => Some(s),
            None => c.last_session,
        },
        review_pending: u.review_pending_now || c.review_pending,
        error_info: match u.error_info {
            Some(e) => opt_view(e),
            None => c.error_info,
        },
        pending_inject: match u.pending_inject {
            Some(p) => opt_view(p),
            None => c.pending_inject,
        },
    }
}

/// An update that writes nothing.
pub open spec fn no_change(u: CardUpdate) -> bool {
    u.kanban_phase is None && u.phase_state is None && u.current_turn is None && u.last_session is None
        && !u.review_pending_now && u.error_info is None && u.pending_inject is None
}

fn nothing() -> (u: CardUpdate)
    ensures
        no_change(u),
{
    CardUpdate {
        kanban_phase: None,
        phase_state: None,
        current_turn: None,
        last_session: None,
        review_pending_now: false,
        error_info: None,
        pending_inject: None,
    }
}

/// Approving a card's review: idle, turn count reset.
pub fn approve_update() -> (u: CardUpdate)
    ensures
        resets_to_idle(u),
{
    CardUpdate { phase_state: Some(PhaseState::Idle), current_turn: Some(0), ..nothing() }
}

/// Asking for changes: running again from turn zero, with the feedback
/// (`payload`, the JSON that carries it) queued for the agent.
pub fn request_changes_update(payload: String) -> (u: CardUpdate)
    ensures
        reruns_with(u, payload),
{
    CardUpdate {
        phase_state: Some(PhaseState::Running),
        current_turn: Some(0),
        pending_inject: Some(Some(payload)),
        ..nothing()
    }
}

/// Cancelling a card (also what a stop from reconciliation does): archived.
pub fn cancel_update() -> (u: CardUpdate)
    ensures
        u.phase_state == Some(PhaseState::Archived),
        (u.kanban_phase is None && u.current_turn is None && u.last_session is None
            && !u.review_pending_now && u.error_info is None && u.pending_inject is None),
{
    CardUpdate { phase_state: Some(PhaseState::Archived), ..nothing() }
}

/// Retrying a card in error: idle at turn zero, its error cleared.
pub fn retry_error_update() -> (u: CardUpdate)
    ensures
        u.phase_state == Some(PhaseState::Idle),
        u.current_turn == Some(0i64),
        u.error_info == Some(None::<String>),
        (u.kanban_phase is None && u.last_session is None && !u.review_pending_now
            && u.pending_inject is None),
{
    CardUpdate {
        phase_state: Some(PhaseState::Idle),
        current_turn: Some(0),
        error_info: Some(None),
        ..nothing()
    }
}

/// Queueing text for the agent's next turn.
pub fn inject_update(blob: String) -> (u: CardUpdate)
    ensures
        u.pending_inject == Some(Some(blob)),
        (u.kanban_phase is None && u.phase_state is None && u.current_turn is None
            && u.last_session is None && !u.review_pending_now && u.error_info is None),
{
    CardUpdate { pending_inject: Some(Some(blob)), ..nothing() }
}

/// Whether startup recovery touches a card in this state: only a running
/// one, whose turn was interrupted.
pub fn needs_recovery(s: PhaseState) -> (r: bool)
    ensures
        r == (s == PhaseState::Running),
{
    s == PhaseState::Running
}

/// The ids of the cards (id and state) that are running, in order.
pub open spec fn running_ids(cards: Seq<(u128, PhaseState)>) -> Seq<u128>
    decreases cards.len(),
{
    if cards.len() == 0 {
        Seq::empty()
    } else {
        running_ids(cards.drop_last()) + if cards.last().1 == PhaseState::Running {
            seq![cards.last().0]
        } else {
            Seq::<u128>::empty()
        }
    }
}

/// The cards that startup recovery resets: the running ones, in order.
pub fn cards_to_recover(cards: &Vec<(u128, PhaseState)>) -> (r: Vec<u128>)
    ensures
        r@ == running_ids(cards@),
{
    let mut r: Vec<u128> = Vec::new();
    let mut i: usize = 0;
    while i < cards.len()
        invariant
            i <= cards@.len(),
            r@ == running_ids(cards@.take(i as int)),
        decreases cards@.len() - i,
    {
        proof {
            assert(cards@.take(i + 1).drop_last() =~= cards@.take(i as int));
        }
        if needs_recovery(cards[i].1) {
            r.push(cards[i].0);
        }
        proof {
            assert(r@ =~= running_ids(cards@.take(i + 1)));
        }
        i += 1;
    }
    proof {
        assert(cards@.take(cards@.len() as int) =~= cards@);
    }
    r
}

/// Startup recovery of an interrupted card: idle, turn count reset.
pub fn recovery_update() -> (u: CardUpdate)
    ensures
        resets_to_idle(u),
{
    CardUpdate { phase_state: Some(PhaseState::Idle), current_turn: Some(0), ..nothing() }
}

/// Starting a phase: running, with whatever was queued for it taken.
pub fn start_phase_update() -> (u: CardUpdate)
    ensures
        u.phase_state == Some(PhaseState::Running),
        u.pending_inject == Some(None::<String>),
        (u.kanban_phase is None && u.current_turn is None && u.last_session is None
            && !u.review_pending_now && u.error_info is None),
{
    CardUpdate { phase_state: Some(PhaseState::Running), pending_inject: Some(None), ..nothing() }
}

/// A hook or a failed phase puts the card in error with `info` (JSON that
/// describes the failure); a failed phase also records its turn count.
pub fn error_update(info: String, turns_used: Option<u32>) -> (u: CardUpdate)
    ensures
        marks_error(u, info, turns_used),
{
    CardUpdate {
        phase_state: Some(PhaseState::Error),
        error_info: Some(Some(info)),
        current_turn: match turns_used {
            Some(t) => Some(t as i64),
            None => None,
        },
        ..nothing()
    }
}

/// A phase that ran out of turns in a reviewed column: awaiting review from
/// now, with its turn count and last session.
pub fn awaiting_review_update(turns_used: u32, last_session: u128) -> (u: CardUpdate)
    ensures
        waits_for_review(u, turns_used, last_session),
{
    CardUpdate {
        phase_state: Some(PhaseState::AwaitingReview),
        current_turn: Some(turns_used as i64),
        last_session: Some(last_session),
        review_pending_now: true,
        ..nothing()
    }
}

/// A completed phase moves the card into column `next`: idle, turn count
/// reset, with the phase's last session.
pub fn advance_update(next: String, last_session: u128) -> (u: CardUpdate)
    ensures
        advances_to(u, next, last_session),
{
    CardUpdate {
        kanban_phase: Some(next),
        phase_state: Some(PhaseState::Idle),
        current_turn: Some(0),
        last_session: Some(last_session),
        ..nothing()
    }
}

/// A failed Jira transition is recorded on the card (which still advances).
pub fn transition_failed_update(info: String) -> (u: CardUpdate)
    ensures
        u.error_info == Some(Some(info)),
        (u.kanban_phase is None && u.phase_state is None && u.current_turn is None
            && u.last_session is None && !u.review_pending_now && u.pending_inject is None),
{
    CardUpdate { error_info: Some(Some(info)), ..nothing() }
}

/// What recovery writes: idle, turn count reset, nothing else.
pub open spec fn resets_to_idle(u: CardUpdate) -> bool {
    &&& u.phase_state == Some(PhaseState::Idle)
    &&& u.current_turn == Some(0i64)
    &&& u.kanban_phase is None
    &&& u.last_session is None
    &&& !u.review_pending_now
    &&& u.error_info is None
    &&& u.pending_inject is None
}

/// What asking for changes writes: running, turn count reset, `payload`
/// queued, nothing else.
pub open spec fn reruns_with(u: CardUpdate, payload: String) -> bool {
    &&& u.phase_state == Some(PhaseState::Running)
    &&& u.current_turn == Some(0i64)
    &&& u.pending_inject == Some(Some(payload))
    &&& u.kanban_phase is None
    &&& u.last_session is None
    &&& !u.review_pending_now
    &&& u.error_info is None
}

/// What a failure writes: error, with `info` and (for a failed phase) its
/// turn count, nothing else.
pub open spec fn marks_error(u: CardUpdate, info: String, turns_used: Option<u32>) -> bool {
    &&& u.phase_state == Some(PhaseState::Error)
    &&& u.error_info == Some(Some(info))
    &&& u.current_turn == match turns_used {
        Some(t) => Some(t as i64),
        None => None,
    }
    &&& u.kanban_phase is None
    &&& u.last_session is None
    &&& !u.review_pending_now
    &&& u.pending_inject is None
}

/// What running out of turns in a reviewed column writes: awaiting review
/// from now, with the turn count and last session, nothing else.
pub open spec fn waits_for_review(u: CardUpdate, turns_used: u32, last_session: u128) -> bool {
    &&& u.phase_state == Some(PhaseState::AwaitingReview)
    &&& u.current_turn == Some(turns_used as i64)
    &&& u.last_session == Some(last_session)
    &&& u.review_pending_now
    &&& u.kanban_phase is None
    &&& u.error_info is None
    &&& u.pending_inject is None
}

/// What completing a phase writes: column `next`, idle, turn count reset,
/// the last session, nothing else.
pub open spec fn advances_to(u: CardUpdate, next: String, last_session: u128) -> bool {
    &&& u.kanban_phase == Some(next)
    &&& u.phase_state == Some(PhaseState::Idle)
    &&& u.current_turn == Some(0i64)
    &&& u.last_session == Some(last_session)
    &&& !u.review_pending_now
    &&& u.error_info is None
    &&& u.pending_inject is None
}

/// How a phase ends for its card: a completed phase moves it, idle at turn
/// zero, into the next column; a failure leaves it in error in its column;
/// a phase out of turns under review leaves it awaiting review in its
/// column. Each keeps what was queued for the agent.
pub proof fn law_phase_end_transitions(
    c: CardFields,
    advance: CardUpdate,
    next: String,
    fail: CardUpdate,
    info: String,
    turns: Option<u32>,
    wait: CardUpdate,
    turns_used: u32,
    session: u128,
)
    requires
        advances_to(advance, next, session),
        marks_error(fail, info, turns),
        waits_for_review(wait, turns_used, session),
    ensures
        apply(c, advance) == (CardFields {
            kanban_phase: Some(next@),
            phase_state: PhaseState::Idle,
            current_turn: 0,
            last_session: Some(session),
            ..c
        }),
        apply(c, fail).kanban_phase == c.kanban_phase,
        apply(c, fail).phase_state == PhaseState::Error,
        apply(c, fail).error_info == Some(info@),
        apply(c, fail).pending_inject == c.pending_inject,
        apply(c, wait).kanban_phase == c.kanban_phase,
        apply(c, wait).phase_state == PhaseState::AwaitingReview,
        apply(c, wait).current_turn == turns_used,
        apply(c, wait).review_pending,
{
}

/// Restart recovery resets an interrupted card to idle at turn zero and
/// leaves everything else as it was.
pub proof fn law_recovery(c: CardFields, u: CardUpdate)
    requires
        resets_to_idle(u),
        c.phase_state == PhaseState::Running,
    ensures
        apply(c, u) == (CardFields { phase_state: PhaseState::Idle, current_turn: 0, ..c }),
{
}

/// The states of a board of cards (id and fields).
pub open spec fn board_states(board: Seq<(u128, CardFields)>) -> Seq<(u128, PhaseState)> {
    board.map_values(|e: (u128, CardFields)| (e.0, e.1.phase_state))
}

/// A board after recovery has written `u` to each of its running cards.
pub open spec fn recover_board(board: Seq<(u128, CardFields)>, u: CardUpdate) -> Seq<
    (u128, CardFields),
> {
    board.map_values(
        |e: (u128, CardFields)|
            (e.0, if e.1.phase_state == PhaseState::Running {
                apply(e.1, u)
            } else {
                e.1
            }),
    )
}

proof fn lemma_no_running_ids(cards: Seq<(u128, PhaseState)>)
    requires
        forall|k: int| 0 <= k < cards.len() ==> (#[trigger] cards[k]).1 != PhaseState::Running,
    ensures
        running_ids(cards).len() == 0,
    decreases cards.len(),
{
    if cards.len() > 0 {
        assert(cards[cards.len() - 1].1 != PhaseState::Running);
        lemma_no_running_ids(cards.drop_last());
    }
}

/// Startup recovery over a whole board resets every running card to idle at
/// turn zero, leaves every other card as it was, and leaves no card running,
/// so that recovering again resets none.
pub proof fn law_recovery_board(board: Seq<(u128, CardFields)>, u: CardUpdate)
    requires
        resets_to_idle(u),
    ensures
        recover_board(board, u).len() == board.len(),
        forall|k: int|
            0 <= k < board.len() ==> #[trigger] recover_board(board, u)[k] == (
                board[k].0,
                if board[k].1.phase_state == PhaseState::Running {
                    CardFields { phase_state: PhaseState::Idle, current_turn: 0, ..board[k].1 }
                } else {
                    board[k].1
                },
            ),
        running_ids(board_states(recover_board(board, u))).len() == 0,
{
    let after = recover_board(board, u);
    assert forall|k: int| 0 <= k < board.len() implies #[trigger] after[k] == (
        board[k].0,
        if board[k].1.phase_state == PhaseState::Running {
            CardFields { phase_state: PhaseState::Idle, current_turn: 0, ..board[k].1 }
        } else {
            board[k].1
        },
    ) by {
        if board[k].1.phase_state == PhaseState::Running {
            law_recovery(board[k].1, u);
        }
    }
    let states = board_states(after);
    assert forall|k: int| 0 <= k < states.len() implies (#[trigger] states[k]).1
        != PhaseState::Running by {
        assert(after[k] == recover_board(board, u)[k]);
    }
    lemma_no_running_ids(states);
}

/// Asking for changes with feedback `fb` sets the card running from turn
/// zero with a queued text from which exactly `fb` is read back, the
/// feedback its agent is shown on the next run.
pub proof fn law_requested_feedback_reaches_agent(
    c: CardFields,
    u: CardUpdate,
    payload: String,
    fb: Seq<char>,
)
    requires
        payload@ == feedback_text(fb),
        reruns_with(u, payload),
    ensures
        apply(c, u).phase_state == PhaseState::Running,
        apply(c, u).current_turn == 0,
        apply(c, u).pending_inject == Some(payload@),
        feedback_in(payload@) == Some(fb),
{
    law_feedback_round_trip(fb);
}

/// Approving a card makes it idle at turn zero in the same column; asking
/// for changes instead makes it run again from turn zero in the same column
/// with the feedback queued.
pub proof fn law_review_outcomes(c: CardFields, approve: CardUpdate, changes: CardUpdate, payload: String)
    requires
        resets_to_idle(approve),
        reruns_with(changes, payload),
    ensures
        apply(c, approve).phase_state == PhaseState::Idle,
        apply(c, approve).current_turn == 0,
        apply(c, approve).kanban_phase == c.kanban_phase,
        apply(c, changes).phase_state == PhaseState::Running,
        apply(c, changes).current_turn == 0,
        apply(c, changes).pending_inject == Some(payload@),
        apply(c, changes).kanban_phase == c.kanban_phase,
{
}

} // verus!

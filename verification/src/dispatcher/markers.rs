//! Completion and failure markers in an agent's output.
use vstd::prelude::*;
use crate::text::{chars_of, find, find_exec, contains, contains_exec, lemma_find_from_skip,
    lemma_find_from_is_first, matches_at};

verus! {

/// What one agent turn's output says about the phase.
#[derive(Debug, PartialEq, Eq)]
pub enum MarkerOutcome {
    Complete,
    Failed(String),
    Continue,
}

/// The marker an agent prints when its phase has failed.
pub open spec fn failed_marker() -> Seq<char> {
    "<<KANBAN_PHASE_FAILED"@
}

/// The marker an agent prints when its phase is complete.
pub open spec fn complete_marker() -> Seq<char> {
    "<<KANBAN_PHASE_COMPLETE>>"@
}

/// What opens the reason of a failure marker.
pub open spec fn reason_open() -> Seq<char> {
    "reason=\""@
}

/// The closing quote of a failure reason.
pub open spec fn reason_close() -> Seq<char> {
    "\""@
}

/// The reason given in `tail`, the output from its failure marker on: the
/// text between the first `reason="` and the next `"`, or empty when either
/// is missing.
pub open spec fn failure_reason(tail: Seq<char>) -> Seq<char> {
    match find(tail, reason_open()) {
        Some(a) => {
            let start = a + reason_open().len();
            match find(tail.skip(start), reason_close()) {
                Some(e) => tail.subrange(start, start + e),
                None => Seq::<char>::empty(),
            }
        },
        None => Seq::<char>::empty(),
    }
}

/// A marker outcome as plain data.
pub enum MarkerData {
    Complete,
    Failed(Seq<char>),
    Continue,
}

impl View for MarkerOutcome {
    type V = MarkerData;

    open spec fn view(&self) -> MarkerData {
        match self {
            MarkerOutcome::Complete => MarkerData::Complete,
            MarkerOutcome::Failed(r) => MarkerData::Failed(r@),
            MarkerOutcome::Continue => MarkerData::Continue,
        }
    }
}

/// The outcome that the markers in `s` give: a failure marker anywhere wins
/// over a completion marker, and its reason is read from where it stands;
/// with neither marker the phase continues.
pub open spec fn marker_of(s: Seq<char>) -> MarkerData {
    match find(s, failed_marker()) {
        Some(idx) => MarkerData::Failed(failure_reason(s.skip(idx))),
        None => if contains(s, complete_marker()) {
            MarkerData::Complete
        } else {
            MarkerData::Continue
        },
    }
}

/// A failure marker anywhere in the output fails the phase, whether or not
/// a completion marker is there too; without one, a completion marker
/// anywhere completes it; with neither the phase goes on.
pub proof fn law_marker_kinds(s: Seq<char>)
    ensures
        (exists|i: int| matches_at(s, failed_marker(), i)) ==> marker_of(s) is Failed,
        !(exists|i: int| matches_at(s, failed_marker(), i)) && (exists|i: int|
            matches_at(s, complete_marker(), i)) ==> marker_of(s) is Complete,
        !(exists|i: int| matches_at(s, failed_marker(), i)) && !(exists|i: int|
            matches_at(s, complete_marker(), i)) ==> marker_of(s) is Continue,
{
    lemma_find_from_is_first(s, failed_marker(), 0);
    lemma_find_from_is_first(s, complete_marker(), 0);
    if exists|i: int| matches_at(s, failed_marker(), i) {
        let i = choose|i: int| matches_at(s, failed_marker(), i);
        assert(matches_at(s, failed_marker(), i));
    }
    if exists|i: int| matches_at(s, complete_marker(), i) {
        let i = choose|i: int| matches_at(s, complete_marker(), i);
        assert(matches_at(s, complete_marker(), i));
    }
}

/// The first failure marker carries its reason: when the output is any text
/// without a failure marker, then the marker followed by ` reason="`, the
/// reason (which holds no `"`), a closing `"` and anything at all, the
/// phase fails with exactly that reason.
pub proof fn law_failure_reason(a: Seq<char>, reason: Seq<char>, b: Seq<char>)
    requires
        forall|k: int|
            0 <= k < a.len() ==> !matches_at(
                a + failed_marker() + seq![' '] + reason_open() + reason + reason_close() + b,
                failed_marker(),
                k,
            ),
        forall|k: int| 0 <= k < reason.len() ==> reason[k] != '"',
    ensures
        marker_of(a + failed_marker() + seq![' '] + reason_open() + reason + reason_close() + b)
            == MarkerData::Failed(reason),
{
    reveal_strlit("<<KANBAN_PHASE_FAILED");
    reveal_strlit("reason=\"");
    reveal_strlit("\"");
    let fm = failed_marker();
    let ro = reason_open();
    let rc = reason_close();
    let s = a + fm + seq![' '] + ro + reason + rc + b;
    assert(fm.len() == 21);
    assert(ro.len() == 8);
    assert(rc.len() == 1);
    // The first failure marker is where `a` ends.
    assert(s.subrange(a.len() as int, a.len() + 21int) =~= fm);
    assert(matches_at(s, fm, a.len() as int));
    lemma_find_from_is_first(s, fm, 0);
    assert(find(s, fm) == Some(a.len() as int));
    // In what follows it, `reason="` first occurs after the marker and a space.
    let tail = s.skip(a.len() as int);
    assert(tail =~= fm + seq![' '] + ro + reason + rc + b);
    assert(tail.subrange(22, 30) =~= ro);
    assert(matches_at(tail, ro, 22));
    assert forall|k: int| 0 <= k < 22 implies !matches_at(tail, ro, k) by {
        if matches_at(tail, ro, k) {
            assert(tail.subrange(k, k + 8)[0] == ro[0]);
            assert(tail[k] == 'r');
            if k < 21 {
                assert(tail[k] == fm[k]);
            }
        }
    }
    lemma_find_from_is_first(tail, ro, 0);
    assert(find(tail, ro) == Some(22int));
    // The reason runs up to the first quote after it.
    let rest = tail.skip(30);
    assert(rest =~= reason + rc + b);
    assert(rest.subrange(reason.len() as int, reason.len() + 1int) =~= rc);
    assert(matches_at(rest, rc, reason.len() as int));
    assert forall|k: int| 0 <= k < reason.len() implies !matches_at(rest, rc, k) by {
        if matches_at(rest, rc, k) {
            assert(rest.subrange(k, k + 1)[0] == rc[0]);
            assert(rest[k] == reason[k]);
        }
    }
    lemma_find_from_is_first(rest, rc, 0);
    assert(find(rest, rc) == Some(reason.len() as int));
    assert(tail.subrange(30, 30int + reason.len()) =~= reason);
}

/// Reads the markers in one turn's output.
pub fn parse_markers(stdout: &str) -> (r: MarkerOutcome)
    ensures
        r@ == marker_of(stdout@),
{
    let s = chars_of(stdout);
    let failed = chars_of("<<KANBAN_PHASE_FAILED");
    if let Some(idx) = find_exec(&s, &failed, 0) {
        let open = chars_of("reason=\"");
        let close = chars_of("\"");
        let ghost tail = s@.skip(idx as int);
        proof {
            crate::text::lemma_find_from_is_first(s@, failed@, 0);
            crate::text::lemma_find_from_is_first(s@, open@, idx as int);
            lemma_find_from_skip(s@, open@, idx as int, 0);
        }
        let mut reason = String::new();
        if let Some(a) = find_exec(&s, &open, idx) {
            // `a` is where `reason="` starts in `s`; in the tail it is at a - idx.
            assert(crate::text::matches_at(s@, open@, a as int));
            assert(a + open@.len() <= s@.len());
            assert(open@.len() == open.len());
            assert(s@.len() == s.len());
            let start = a + open.len();
            proof {
                lemma_find_from_skip(s@, close@, start as int, 0);
                assert(tail.skip(start - idx) =~= s@.skip(start as int));
            }
            if let Some(e) = find_exec(&s, &close, start) {
                proof {
                    crate::text::lemma_find_from_is_first(s@, close@, start as int);
                    assert(tail.subrange(start - idx, e - idx) =~= s@.subrange(start as int, e as int));
                }
                reason = String::from_str(stdout.substring_char(start, e));
            }
        }
        return MarkerOutcome::Failed(reason);
    }
    let complete = chars_of("<<KANBAN_PHASE_COMPLETE>>");
    if contains_exec(&s, &complete) {
        return MarkerOutcome::Complete;
    }
    MarkerOutcome::Continue
}

} // verus!

//! The context files written into a card's worktree before a phase.
use vstd::prelude::*;
use crate::text::{signed_decimal, append_signed_decimal};

verus! {

/// The text of `.kanban-context/phase.md`: the card's column (or `(none)`)
/// and its turn count.
pub open spec fn phase_md_of(kanban_phase: Option<Seq<char>>, current_turn: int) -> Seq<char> {
    "# Current phase\n\nColumn: "@ + match kanban_phase {
        Some(p) => p,
        None => "(none)"@,
    } + "\nTurn: "@ + signed_decimal(current_turn) + "\n"@
}

/// The text of `.kanban-context/phase.md` for a card.
pub fn phase_markdown(kanban_phase: Option<&str>, current_turn: i64) -> (r: String)
    ensures
        r@ == phase_md_of(
            match kanban_phase {
                Some(p) => Some(p@),
                None => None,
            },
            current_turn as int,
        ),
{
    let column = match kanban_phase {
        Some(p) => p,
        None => "(none)",
    };
    let mut r = String::from_str("# Current phase\n\nColumn: ").concat(column).concat("\nTurn: ");
    append_signed_decimal(&mut r, current_turn);
    r.append("\n");
    r
}

} // verus!

//! The task record and the ordering rules that listings follow.

use vstd::prelude::*;

verus! {

/// A single task record: text, priority, completion state, and timestamps.
///
/// `completed` is kept as an integer flag (0 pending, 1 done), matching the
/// storage representation; `completed_at` is set exactly when the flag is 1.
#[derive(Debug)]
pub struct Todo {
    pub id: i64,
    pub text: String,
    pub priority: String,
    pub completed: i64,
    pub created_at: String,
    pub completed_at: Option<String>,
}

impl Clone for Todo {
    fn clone(&self) -> (r: Self)
        ensures
            r == *self,
    {
        Todo {
            id: self.id,
            text: self.text.clone(),
            priority: self.priority.clone(),
            completed: self.completed,
            created_at: self.created_at.clone(),
            completed_at: match &self.completed_at {
                Some(s) => Some(s.clone()),
                None => None,
            },
        }
    }
}

/// A row is well formed when its completion flag is a boolean integer and the
/// completion timestamp is present exactly for completed rows.
pub open spec fn valid_row(t: Todo) -> bool {
    &&& t.completed == 0 || t.completed == 1
    &&& (t.completed == 1) <==> (t.completed_at is Some)
}

/// Priority rank used by the pending-only listing: high before medium before
/// low; any other value sorts last.
pub open spec fn rank_spec(p: Seq<char>) -> int {
    if p == "high"@ {
        1
    } else if p == "medium"@ {
        2
    } else if p == "low"@ {
        3
    } else {
        4
    }
}

/// Relies on str's `PartialEq`: two string slices are equal exactly when
/// their character sequences are.
#[verifier::external_body]
pub(crate) fn str_eq(a: &str, b: &str) -> (r: bool)
    ensures
        r == (a@ == b@),
{
    a == b
}

/// Rank of a priority string: 1 for high, 2 for medium, 3 for low, 4 otherwise.
pub fn priority_rank(p: &str) -> (r: u8)
    ensures
        r as int == rank_spec(p@),
{
    if str_eq(p, "high") {
        1
    } else if str_eq(p, "medium") {
        2
    } else if str_eq(p, "low") {
        3
    } else {
        4
    }
}

/// Order of the pending-only listing: by priority rank, then newest first.
/// Identifiers are assigned in creation order, so "newest first" is
/// descending id.
pub open spec fn pending_le(a: Todo, b: Todo) -> bool {
    ||| rank_spec(a.priority@) < rank_spec(b.priority@)
    ||| (rank_spec(a.priority@) == rank_spec(b.priority@) && a.id >= b.id)
}

/// Order of the full listing: pending rows before completed ones, newest
/// first within each group.
pub open spec fn all_le(a: Todo, b: Todo) -> bool {
    ||| a.completed < b.completed
    ||| (a.completed == b.completed && a.id >= b.id)
}

/// The listing order for a given mode: `show_completed` selects the full
/// ordering, otherwise the priority-rank ordering.
pub open spec fn row_le(show_completed: bool, a: Todo, b: Todo) -> bool {
    if show_completed {
        all_le(a, b)
    } else {
        pending_le(a, b)
    }
}

/// A sequence is sorted for the given listing mode when every earlier row may
/// stand before every later one.
pub open spec fn sorted_rows(show_completed: bool, s: Seq<Todo>) -> bool {
    forall|i: int, j: int| 0 <= i < j < s.len() ==> row_le(show_completed, s[i], s[j])
}

/// The listing order is total and transitive.
pub proof fn lemma_row_le_order(show_completed: bool)
    ensures
        forall|a: Todo, b: Todo| #[trigger] row_le(show_completed, a, b) || #[trigger] row_le(show_completed, b, a),
        forall|a: Todo, b: Todo, c: Todo|
            row_le(show_completed, a, b) && row_le(show_completed, b, c) ==> row_le(show_completed, a, c),
{
}

/// Exec comparison deciding the listing order.
pub fn row_le_exec(show_completed: bool, a: &Todo, b: &Todo) -> (r: bool)
    ensures
        r == row_le(show_completed, *a, *b),
{
    if show_completed {
        a.completed < b.completed || (a.completed == b.completed && a.id >= b.id)
    } else {
        let ra = priority_rank(a.priority.as_str());
        let rb = priority_rank(b.priority.as_str());
        ra < rb || (ra == rb && a.id >= b.id)
    }
}

} // verus!

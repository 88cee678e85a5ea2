//! The laws that relate the store's operations across calls, proved over
//! the same model the operations' own contracts use.

use vstd::prelude::*;

use crate::store::{completes, find_spec, lemma_find_spec, unique_ids};
use crate::todo::Todo;

verus! {

/// A row just added is the one a lookup of its identifier finds: after
/// appending a row whose identifier no existing row carries, `find_spec`
/// returns exactly that row, with whatever fields it was created with.
pub proof fn lemma_add_then_find(rows: Seq<Todo>, t: Todo)
    requires
        forall|i: int| 0 <= i < rows.len() ==> rows[i].id != t.id,
    ensures
        find_spec(rows.push(t), t.id) == Some(t),
    decreases rows.len(),
{
    if rows.len() == 0 {
        assert(rows.push(t)[0] == t);
    } else {
        assert(rows.push(t)[0] == rows[0]);
        assert(rows.push(t).drop_first() =~= rows.drop_first().push(t));
        lemma_add_then_find(rows.drop_first(), t);
    }
}

/// The law above, wired to `add_todo`'s contract: a well-formed store keeps
/// every identifier below `next_id`, so the row that `add_todo` appends (it
/// carries `next_id` itself) is the one a lookup then finds.
pub proof fn lemma_store_add_then_find(pre: crate::store::Store, post: crate::store::Store)
    requires
        pre.wf(),
        post.todos@.len() == pre.todos@.len() + 1,
        post.todos@ == pre.todos@.push(post.todos@.last()),
        post.todos@.last().id == pre.next_id,
    ensures
        find_spec(post.todos@, pre.next_id) == Some(post.todos@.last()),
{
    let t = post.todos@.last();
    assert forall|i: int| 0 <= i < pre.todos@.len() implies pre.todos@[i].id != t.id by {
        assert(pre.todos@[i].id < pre.next_id);
    }
    lemma_add_then_find(pre.todos@, t);
}

/// Completion sticks: once a completion has gone through, a later lookup of
/// the identifier sees a completed row with its timestamp set, so the
/// Complete command then reports "already completed" and mutates nothing.
pub proof fn lemma_complete_then_already(pre: Seq<Todo>, post: Seq<Todo>, id: i64, ts: Seq<char>)
    requires
        unique_ids(pre),
        completes(pre, post, id, ts),
        exists|i: int| 0 <= i < pre.len() && pre[i].id == id,
    ensures
        find_spec(post, id) matches Some(t) && t.completed == 1 && t.completed_at is Some,
{
    let i = choose|i: int| 0 <= i < pre.len() && pre[i].id == id;
    assert(post[i].id == id);
    lemma_find_spec(post, id);
    let t = find_spec(post, id)->Some_0;
    let j = choose|j: int| 0 <= j < post.len() && post[j] == t;
    if pre[j].id != id {
        assert(post[j] == pre[j]);
        assert(false);
    }
}

/// Deletion sticks: after removing the row that carried an identifier, a
/// lookup of that identifier finds nothing.
pub proof fn lemma_delete_then_absent(pre: Seq<Todo>, i: int, id: i64)
    requires
        unique_ids(pre),
        0 <= i < pre.len(),
        pre[i].id == id,
    ensures
        find_spec(pre.remove(i), id) is None,
{
    let post = pre.remove(i);
    pre.remove_ensures(i);
    lemma_find_spec(post, id);
    if find_spec(post, id) is Some {
        let j = choose|j: int| 0 <= j < post.len() && post[j].id == id;
        let j0 = if j < i {
            j
        } else {
            j + 1
        };
        assert(pre[j0].id == id);
        assert(pre[i].id != pre[j0].id);
        assert(false);
    }
}

} // verus!

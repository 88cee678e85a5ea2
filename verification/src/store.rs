//! The todo store: one row per task, identifiers assigned in creation order
//! and never reused, with the query surface the commands rely on.

use vstd::prelude::*;
use vstd::pervasive::VecAdditionalExecFns;

use crate::todo::{row_le, row_le_exec, sorted_rows, valid_row, Todo};

verus! {

broadcast use vstd::seq_lib::group_to_multiset_ensures;

/// No two rows carry the same identifier.
pub open spec fn unique_ids(rows: Seq<Todo>) -> bool {
    forall|i: int, j: int|
        0 <= i < rows.len() && 0 <= j < rows.len() && i != j ==> (#[trigger] rows[i].id)
            != (#[trigger] rows[j].id)
}

/// The first row with the given identifier, if any. With unique identifiers
/// it is the only one.
pub open spec fn find_spec(rows: Seq<Todo>, id: i64) -> Option<Todo>
    decreases rows.len(),
{
    if rows.len() == 0 {
        None
    } else if rows[0].id == id {
        Some(rows[0])
    } else {
        find_spec(rows.drop_first(), id)
    }
}

/// `find_spec` returns a row exactly when one with that identifier exists,
/// and then returns a row of the sequence carrying that identifier.
pub proof fn lemma_find_spec(rows: Seq<Todo>, id: i64)
    ensures
        (find_spec(rows, id) is Some) <==> (exists|i: int|
            0 <= i < rows.len() && rows[i].id == id),
        find_spec(rows, id) matches Some(t) ==> t.id == id && exists|i: int|
            0 <= i < rows.len() && rows[i] == t,
    decreases rows.len(),
{
    if rows.len() > 0 {
        if rows[0].id != id {
            lemma_find_spec(rows.drop_first(), id);
            if exists|i: int| 0 <= i < rows.len() && rows[i].id == id {
                let i = choose|i: int| 0 <= i < rows.len() && rows[i].id == id;
                assert(rows.drop_first()[i - 1].id == id);
            }
            if find_spec(rows, id) is Some {
                let t = find_spec(rows, id)->Some_0;
                let i = choose|i: int|
                    0 <= i < rows.drop_first().len() && rows.drop_first()[i] == t;
                assert(rows[i + 1] == t);
            }
        }
    }
}

/// One row has been marked completed at the given time; every other field of
/// it is unchanged.
pub open spec fn marked_completed(o: Todo, t: Todo, ts: Seq<char>) -> bool {
    &&& t.id == o.id
    &&& t.text == o.text
    &&& t.priority == o.priority
    &&& t.created_at == o.created_at
    &&& t.completed == 1
    &&& t.completed_at matches Some(s) && s@ == ts
}

/// The after-state of a successful completion: rows keep their places, the
/// rows with the given identifier are marked, the rest are untouched.
pub open spec fn completes(pre: Seq<Todo>, post: Seq<Todo>, id: i64, ts: Seq<char>) -> bool {
    &&& post.len() == pre.len()
    &&& forall|i: int| 0 <= i < pre.len() && pre[i].id != id ==> post[i] == pre[i]
    &&& forall|i: int|
        0 <= i < pre.len() && pre[i].id == id ==> marked_completed(pre[i], #[trigger] post[i], ts)
}

/// Rows matching the listing mode: all of them, or only the pending ones.
pub open spec fn list_pred(show_completed: bool) -> spec_fn(Todo) -> bool {
    |t: Todo| show_completed || t.completed == 0
}

/// The in-memory todo store. `next_id` is the identifier the next added row
/// will get; it only ever grows, so identifiers are never reused, even after
/// a deletion.
pub struct Store {
    pub todos: Vec<Todo>,
    pub next_id: i64,
}

impl Store {
    /// Every row is well formed, carries an identifier below `next_id`, and
    /// no identifier repeats.
    pub open spec fn wf(&self) -> bool {
        &&& 1 <= self.next_id
        &&& forall|i: int|
            0 <= i < self.todos@.len() ==> valid_row(#[trigger] self.todos@[i]) && 1
                <= self.todos@[i].id < self.next_id
        &&& unique_ids(self.todos@)
    }

    /// A fresh, empty store.
    pub fn new() -> (s: Store)
        ensures
            s.wf(),
            s.todos@.len() == 0,
            s.next_id == 1,
    {
        Store { todos: Vec::new(), next_id: 1 }
    }

    /// Insert a new row: pending, stamped with the given creation time, and
    /// carrying the next free identifier, which is returned.
    pub fn add_todo(&mut self, text: &str, priority: &str, created_at: &str) -> (id: i64)
        requires
            old(self).wf(),
            old(self).next_id < i64::MAX,
        ensures
            final(self).wf(),
            id == old(self).next_id,
            final(self).next_id == old(self).next_id + 1,
            final(self).todos@.len() == old(self).todos@.len() + 1,
            final(self).todos@ == old(self).todos@.push(final(self).todos@.last()),
            ({
                let t = final(self).todos@.last();
                &&& t.id == id
                &&& t.text@ == text@
                &&& t.priority@ == priority@
                &&& t.completed == 0
                &&& t.created_at@ == created_at@
                &&& t.completed_at is None
            }),
    {
        let id = self.next_id;
        let row = Todo {
            id,
            text: text.to_owned(),
            priority: priority.to_owned(),
            completed: 0,
            created_at: created_at.to_owned(),
            completed_at: None,
        };
        self.todos.push(row);
        self.next_id = id + 1;
        id
    }

    /// Single-row lookup by identifier; absent is not an error.
    pub fn find_todo(&self, id: i64) -> (r: Option<Todo>)
        ensures
            r == find_spec(self.todos@, id),
    {
        let n = self.todos.len();
        proof {
            assert(self.todos@.skip(0) =~= self.todos@);
        }
        let mut i: usize = 0;
        while i < n
            invariant
                n == self.todos@.len(),
                0 <= i <= n,
                find_spec(self.todos@, id) == find_spec(self.todos@.skip(i as int), id),
            decreases n - i,
        {
            proof {
                assert(self.todos@.skip(i as int)[0] == self.todos@[i as int]);
                assert(self.todos@.skip(i as int).drop_first() =~= self.todos@.skip(i as int + 1));
            }
            if self.todos[i].id == id {
                return Some(self.todos[i].clone());
            }
            i += 1;
        }
        proof {
            assert(self.todos@.skip(n as int) =~= Seq::<Todo>::empty());
        }
        None
    }

    /// Index of the row with the given identifier, if any.
    pub fn index_of(&self, id: i64) -> (r: Option<usize>)
        ensures
            r matches Some(i) ==> i < self.todos@.len() && self.todos@[i as int].id == id,
            r is None ==> forall|j: int| 0 <= j < self.todos@.len() ==> self.todos@[j].id != id,
    {
        let n = self.todos.len();
        let mut i: usize = 0;
        while i < n
            invariant
                n == self.todos@.len(),
                0 <= i <= n,
                forall|j: int| 0 <= j < i ==> self.todos@[j].id != id,
            decreases n - i,
        {
            if self.todos[i].id == id {
                return Some(i);
            }
            i += 1;
        }
        None
    }

    /// Mark the row with the given identifier completed at the given time;
    /// report whether any row was affected. No state precondition: an already
    /// completed row is stamped afresh.
    pub fn complete_todo(&mut self, id: i64, completed_at: &str) -> (r: bool)
        requires
            old(self).wf(),
        ensures
            final(self).wf(),
            final(self).next_id == old(self).next_id,
            r == (exists|i: int| 0 <= i < old(self).todos@.len() && old(self).todos@[i].id == id),
            r ==> completes(old(self).todos@, final(self).todos@, id, completed_at@),
            !r ==> final(self).todos@ == old(self).todos@,
    {
        match self.index_of(id) {
            None => false,
            Some(i) => {
                let o = self.todos[i].clone();
                let row = Todo {
                    id: o.id,
                    text: o.text,
                    priority: o.priority,
                    completed: 1,
                    created_at: o.created_at,
                    completed_at: Some(completed_at.to_owned()),
                };
                self.todos.set(i, row);
                proof {
                    let pre = old(self).todos@;
                    assert(pre[i as int].id == id);
                    assert forall|j: int|
                        0 <= j < pre.len() && pre[j].id == id implies marked_completed(
                        pre[j],
                        #[trigger] self.todos@[j],
                        completed_at@,
                    ) by {
                        if j != i as int {
                            assert(pre[j].id != pre[i as int].id);
                            assert(false);
                        } else {
                            assert(self.todos@[j] == row);
                        }
                    }
                    assert forall|j: int| 0 <= j < self.todos@.len() implies valid_row(
                        #[trigger] self.todos@[j],
                    ) && 1 <= self.todos@[j].id < self.next_id by {
                        if j != i as int {
                            assert(self.todos@[j] == pre[j]);
                        } else {
                            assert(self.todos@[j] == row);
                            assert(row.id == pre[i as int].id);
                        }
                    }
                    assert forall|a: int, b: int|
                        0 <= a < b < self.todos@.len() implies self.todos@[a].id
                        != self.todos@[b].id by {
                        assert(self.todos@[a].id == pre[a].id);
                        assert(self.todos@[b].id == pre[b].id);
                        assert(pre[a].id != pre[b].id);
                    }
                }
                true
            },
        }
    }

    /// Remove the row with the given identifier; report whether any row was
    /// affected. The next identifier does not move back: identifiers are
    /// never reused.
    pub fn delete_todo(&mut self, id: i64) -> (r: bool)
        requires
            old(self).wf(),
        ensures
            final(self).wf(),
            final(self).next_id == old(self).next_id,
            r == (exists|i: int| 0 <= i < old(self).todos@.len() && old(self).todos@[i].id == id),
            r ==> exists|i: int|
                0 <= i < old(self).todos@.len() && old(self).todos@[i].id == id && final(self).todos@
                    == old(self).todos@.remove(i),
            !r ==> final(self).todos@ == old(self).todos@,
    {
        match self.index_of(id) {
            None => false,
            Some(i) => {
                self.todos.remove(i);
                proof {
                    let pre = old(self).todos@;
                    assert(pre[i as int].id == id);
                    assert(self.todos@ == pre.remove(i as int));
                    pre.remove_ensures(i as int);
                    assert forall|j: int| 0 <= j < self.todos@.len() implies valid_row(
                        #[trigger] self.todos@[j],
                    ) && 1 <= self.todos@[j].id < self.next_id by {
                        if j < i as int {
                            assert(self.todos@[j] == pre[j]);
                        } else {
                            assert(self.todos@[j] == pre[j + 1]);
                        }
                    }
                    assert forall|a: int, b: int|
                        0 <= a < b < self.todos@.len() implies self.todos@[a].id
                        != self.todos@[b].id by {
                        let a0 = if a < i as int { a } else { a + 1 };
                        let b0 = if b < i as int { b } else { b + 1 };
                        assert(self.todos@[a].id == pre[a0].id);
                        assert(self.todos@[b].id == pre[b0].id);
                        assert(pre[a0].id != pre[b0].id);
                    }
                }
                true
            },
        }
    }

    /// The listing: pending rows only (ordered by priority rank, then newest
    /// first) or all rows (pending before completed, newest first within each
    /// group). The result holds exactly the matching rows.
    pub fn list_todos(&self, show_completed: bool) -> (r: Vec<Todo>)
        ensures
            r@.to_multiset() == self.todos@.filter(list_pred(show_completed)).to_multiset(),
            sorted_rows(show_completed, r@),
            forall|i: int| 0 <= i < r@.len() ==> self.todos@.contains(#[trigger] r@[i]),
            !show_completed ==> forall|i: int|
                0 <= i < r@.len() ==> #[trigger] r@[i].completed == 0,
            show_completed ==> r@.len() == self.todos@.len(),
    {
        broadcast use vstd::seq_lib::group_filter_ensures;

        let n = self.todos.len();
        let mut kept: Vec<Todo> = Vec::new();
        let mut i: usize = 0;
        while i < n
            invariant
                n == self.todos@.len(),
                0 <= i <= n,
                kept@ == self.todos@.take(i as int).filter(list_pred(show_completed)),
                show_completed ==> kept@.len() == i,
            decreases n - i,
        {
            let t = &self.todos[i];
            if show_completed || t.completed == 0 {
                kept.push(t.clone());
            }
            proof {
                reveal(Seq::filter);
                assert(self.todos@.take(i as int + 1).drop_last() =~= self.todos@.take(i as int));
                assert(self.todos@.take(i as int + 1).last() == self.todos@[i as int]);
                assert(kept@ == self.todos@.take(i as int + 1).filter(list_pred(show_completed)));
            }
            i += 1;
        }
        proof {
            assert(self.todos@.take(n as int) =~= self.todos@);
        }
        let m = kept.len();
        let mut r: Vec<Todo> = Vec::new();
        let mut j: usize = 0;
        while j < m
            invariant
                m == kept@.len(),
                0 <= j <= m,
                sorted_rows(show_completed, r@),
                r@.to_multiset() == kept@.take(j as int).to_multiset(),
                r@.len() == j,
                forall|k: int| 0 <= k < r@.len() ==> kept@.contains(#[trigger] r@[k]),
            decreases m - j,
        {
            proof {
                assert(kept@.take(j as int + 1) =~= kept@.take(j as int).push(kept@[j as int]));
                assert(kept@.contains(kept@[j as int]));
            }
            insert_sorted(show_completed, &mut r, kept[j].clone());
            j += 1;
        }
        proof {
            assert(kept@.take(m as int) =~= kept@);
            assert forall|i0: int| 0 <= i0 < r@.len() implies self.todos@.contains(
                #[trigger] r@[i0],
            ) by {
                let k = choose|k: int| 0 <= k < kept@.len() && kept@[k] == r@[i0];
                lemma_filter_membership(self.todos@, list_pred(show_completed), k);
            }
            if !show_completed {
                assert forall|i0: int| 0 <= i0 < r@.len() implies #[trigger] r@[i0].completed
                    == 0 by {
                    let k = choose|k: int| 0 <= k < kept@.len() && kept@[k] == r@[i0];
                    assert(list_pred(show_completed)(kept@[k]));
                }
            }
        }
        r
    }
}

/// Every element of a filtered sequence is an element of the original.
proof fn lemma_filter_membership(s: Seq<Todo>, pred: spec_fn(Todo) -> bool, k: int)
    requires
        0 <= k < s.filter(pred).len(),
    ensures
        s.contains(s.filter(pred)[k]),
    decreases s.len(),
{
    reveal(Seq::filter);
    if s.len() > 0 {
        let sub = s.drop_last().filter(pred);
        if pred(s.last()) && k == sub.len() {
            assert(s.filter(pred)[k] == s.last());
            assert(s[s.len() - 1] == s.last());
        } else {
            lemma_filter_membership(s.drop_last(), pred, k);
            let w = choose|w: int| 0 <= w < s.drop_last().len() && s.drop_last()[w] == sub[k];
            assert(s[w] == sub[k]);
        }
    }
}

/// First position at which the given row may be inserted while keeping the
/// listing order: everything before it may stand before the row, and the row
/// may stand before the element at that position, if any.
fn find_pos(show_completed: bool, out: &Vec<Todo>, t: &Todo) -> (k: usize)
    ensures
        0 <= k <= out@.len(),
        forall|m: int| 0 <= m < k ==> row_le(show_completed, #[trigger] out@[m], *t),
        k < out@.len() ==> !row_le(show_completed, out@[k as int], *t),
{
    let n = out.len();
    let mut k: usize = 0;
    while k < n
        invariant
            n == out@.len(),
            0 <= k <= n,
            forall|m: int| 0 <= m < k ==> row_le(show_completed, #[trigger] out@[m], *t),
        decreases n - k,
    {
        if !row_le_exec(show_completed, &out[k], t) {
            return k;
        }
        k += 1;
    }
    k
}

/// Insert a row into a sequence sorted for the given listing mode, keeping it
/// sorted; the contents grow by exactly that row.
fn insert_sorted(show_completed: bool, out: &mut Vec<Todo>, t: Todo)
    requires
        sorted_rows(show_completed, old(out)@),
    ensures
        sorted_rows(show_completed, final(out)@),
        final(out)@.to_multiset() == old(out)@.to_multiset().insert(t),
        final(out)@.len() == old(out)@.len() + 1,
        forall|k: int|
            0 <= k < final(out)@.len() ==> old(out)@.contains(#[trigger] final(out)@[k]) || final(out)@[k] == t,
{
    let k = find_pos(show_completed, out, &t);
    proof {
        crate::todo::lemma_row_le_order(show_completed);
    }
    let ghost pre = out@;
    out.insert(k, t);
    proof {
        assert(out@ == pre.insert(k as int, t));
        pre.insert_ensures(k as int, t);
        assert forall|i: int, j: int| 0 <= i < j < out@.len() implies row_le(
            show_completed,
            out@[i],
            out@[j],
        ) by {
            if i < k as int {
                assert(out@[i] == pre[i]);
            } else if i == k as int {
                assert(out@[i] == t);
            } else {
                assert(out@[i] == pre[i - 1]);
            }
            if j < k as int {
                assert(out@[j] == pre[j]);
            } else if j == k as int {
                assert(out@[j] == t);
            } else {
                assert(out@[j] == pre[j - 1]);
            }
            if i == k as int && j > k as int {
                assert(!row_le(show_completed, pre[k as int], t));
                assert(row_le(show_completed, t, pre[k as int]));
                if j - 1 > k as int {
                    assert(row_le(show_completed, pre[k as int], pre[j - 1]));
                }
            }
            if i < k as int && j > k as int {
                assert(row_le(show_completed, pre[i], pre[j - 1]));
            }
        }
        assert forall|i: int| 0 <= i < out@.len() implies pre.contains(#[trigger] out@[i])
            || out@[i] == t by {
            if i < k as int {
                assert(out@[i] == pre[i]);
            } else if i > k as int {
                assert(out@[i] == pre[i - 1]);
            }
        }
    }
}

} // verus!

//! The command handlers: each wraps one store operation with its business
//! rule and reports through a shared result convention. The handlers take
//! the store and the current time as arguments; opening the store and
//! printing belong to the surrounding program.

use vstd::prelude::*;
use vstd::string::{StrSliceExecFns, StringExecFns};

use crate::render::{dec_digits, i64_to_string, json_of_rows, render_json, render_table,
    table_rendering, usize_to_string};
use crate::store::{completes, find_spec, lemma_find_spec, list_pred, Store};
use crate::todo::{sorted_rows, str_eq, Todo};

verus! {

/// The outcome of one command: whether it succeeded and a human-readable
/// message. Business outcomes such as "not found" are reported here, never
/// as a crash.
#[derive(Debug)]
pub struct CommandResult {
    pub success: bool,
    pub message: String,
}

impl CommandResult {
    pub fn new(success: bool, message: String) -> (r: Self)
        ensures
            r.success == success,
            r.message == message,
    {
        Self { success, message }
    }

    pub fn is_success(&self) -> (r: bool)
        ensures
            r == self.success,
    {
        self.success
    }
}

/// Create one todo with the given text and an optional priority, which
/// defaults to "medium".
#[derive(Debug)]
pub struct AddCommand {
    pub text: String,
    pub priority: String,
}

impl AddCommand {
    pub fn new(text: String, priority: Option<String>) -> (r: Self)
        ensures
            r.text == text,
            priority matches Some(p) ==> r.priority == p,
            priority is None ==> r.priority@ == "medium"@,
    {
        Self {
            text,
            priority: match priority {
                Some(p) => p,
                None => String::from_str("medium"),
            },
        }
    }

    /// Insert the todo and report the new identifier.
    pub fn execute(&self, store: &mut Store, created_at: &str) -> (r: CommandResult)
        requires
            old(store).wf(),
            old(store).next_id < i64::MAX,
        ensures
            final(store).wf(),
            final(store).next_id == old(store).next_id + 1,
            final(store).todos@.len() == old(store).todos@.len() + 1,
            final(store).todos@ == old(store).todos@.push(final(store).todos@.last()),
            ({
                let t = final(store).todos@.last();
                &&& t.id == old(store).next_id
                &&& t.text@ == self.text@
                &&& t.priority@ == self.priority@
                &&& t.completed == 0
                &&& t.created_at@ == created_at@
                &&& t.completed_at is None
            }),
            r.success,
            r.message@ == "Todo added with ID "@ + dec_digits(old(store).next_id as nat),
    {
        let id = store.add_todo(self.text.as_str(), self.priority.as_str(), created_at);
        let mut msg = String::from_str("Todo added with ID ");
        msg.append(i64_to_string(id).as_str());
        CommandResult::new(true, msg)
    }
}

/// Mark one todo completed, by identifier.
#[derive(Debug)]
pub struct CompleteCommand {
    pub id: i64,
}

impl CompleteCommand {
    pub fn new(id: i64) -> (r: Self)
        ensures
            r.id == id,
    {
        Self { id }
    }

    /// Look the todo up; absent reports "not found", an already completed
    /// one reports "already completed" (no mutation in either case), and a
    /// pending one is marked completed at the given time.
    pub fn execute(&self, store: &mut Store, completed_at: &str) -> (r: CommandResult)
        requires
            old(store).wf(),
        ensures
            final(store).wf(),
            final(store).next_id == old(store).next_id,
            (find_spec(old(store).todos@, self.id) is None) ==> !r.success && r.message@
                == "Todo not found"@ && final(store).todos@ == old(store).todos@,
            (find_spec(old(store).todos@, self.id) matches Some(t) && t.completed == 1)
                ==> !r.success && r.message@ == "Already completed"@ && final(store).todos@
                == old(store).todos@,
            (find_spec(old(store).todos@, self.id) matches Some(t) && t.completed != 1)
                ==> r.success && r.message@ == "Todo completed"@ && completes(
                old(store).todos@,
                final(store).todos@,
                self.id,
                completed_at@,
            ),
    {
        proof {
            lemma_find_spec(old(store).todos@, self.id);
        }
        match store.find_todo(self.id) {
            None => CommandResult::new(false, String::from_str("Todo not found")),
            Some(todo) => {
                if todo.completed == 1 {
                    CommandResult::new(false, String::from_str("Already completed"))
                } else {
                    let ok = store.complete_todo(self.id, completed_at);
                    if ok {
                        CommandResult::new(true, String::from_str("Todo completed"))
                    } else {
                        CommandResult::new(false, String::from_str("Failed to complete todo"))
                    }
                }
            },
        }
    }
}

/// Delete one todo, by identifier.
#[derive(Debug)]
pub struct DeleteCommand {
    pub id: i64,
}

impl DeleteCommand {
    pub fn new(id: i64) -> (r: Self)
        ensures
            r.id == id,
    {
        Self { id }
    }

    /// Look the todo up; absent reports "not found", a present one is
    /// removed.
    pub fn execute(&self, store: &mut Store) -> (r: CommandResult)
        requires
            old(store).wf(),
        ensures
            final(store).wf(),
            final(store).next_id == old(store).next_id,
            (find_spec(old(store).todos@, self.id) is None) ==> !r.success && r.message@
                == "Todo not found"@ && final(store).todos@ == old(store).todos@,
            (find_spec(old(store).todos@, self.id) is Some) ==> r.success && r.message@
                == "Todo deleted"@ && exists|i: int|
                0 <= i < old(store).todos@.len() && old(store).todos@[i].id == self.id
                    && final(store).todos@ == old(store).todos@.remove(i),
            find_spec(final(store).todos@, self.id) is None,
    {
        proof {
            lemma_find_spec(old(store).todos@, self.id);
        }
        match store.find_todo(self.id) {
            None => {
                let r = CommandResult::new(false, String::from_str("Todo not found"));
                r
            },
            Some(_todo) => {
                let ok = store.delete_todo(self.id);
                proof {
                    lemma_find_spec(store.todos@, self.id);
                    if find_spec(store.todos@, self.id) is Some {
                        let t = find_spec(store.todos@, self.id)->Some_0;
                        let j = choose|j: int|
                            0 <= j < store.todos@.len() && store.todos@[j] == t;
                        let i = choose|i: int|
                            0 <= i < old(store).todos@.len() && old(store).todos@[i].id
                                == self.id && store.todos@ == old(store).todos@.remove(i);
                        old(store).todos@.remove_ensures(i);
                        let j0 = if j < i { j } else { j + 1 };
                        assert(old(store).todos@[j0].id == self.id);
                        assert(old(store).todos@[i].id == self.id);
                        assert(false);
                    }
                }
                if ok {
                    CommandResult::new(true, String::from_str("Todo deleted"))
                } else {
                    CommandResult::new(false, String::from_str("Failed to delete todo"))
                }
            },
        }
    }
}

/// The body of a table-format listing: some sequence of rows, sorted for
/// the mode and holding exactly the matching rows of the store, rendered as
/// `table_rendering` fixes it.
pub open spec fn table_listing(store: Store, show_completed: bool, out: Seq<char>) -> bool {
    exists|rows: Seq<Todo>, shown: Seq<Seq<char>>, tags: Seq<Seq<char>>|
        sorted_rows(show_completed, rows) && rows.to_multiset() == store.todos@.filter(
            list_pred(show_completed),
        ).to_multiset() && table_rendering(rows, shown, tags, out)
}

/// List todos: pending only or all of them, rendered as a table or as JSON.
#[derive(Debug)]
pub struct ListCommand {
    pub show_completed: bool,
    pub format: String,
}

impl ListCommand {
    pub fn new(show_completed: bool, format: Option<String>) -> (r: Self)
        ensures
            r.show_completed == show_completed,
            format matches Some(f) ==> r.format == f,
            format is None ==> r.format@ == "table"@,
    {
        Self {
            show_completed,
            format: match format {
                Some(f) => f,
                None => String::from_str("table"),
            },
        }
    }

    /// Query the listing and render it; the returned string is the body the
    /// terminal shows, the result carries the outcome message. An empty
    /// listing is a success, not an error.
    pub fn execute(&self, store: &Store) -> (r: (CommandResult, String))
        requires
            store.wf(),
        ensures
            r.0.success,
            ({
                let count = store.todos@.filter(list_pred(self.show_completed)).len();
                &&& count == 0 ==> r.0.message@ == "No todos"@ && r.1@ == "No todos found."@
                &&& count > 0 ==> r.0.message@ == "Listed "@ + dec_digits(count as nat)
                    + " todos"@
                &&& count > 0 && self.format@ == "json"@ ==> exists|rows: Seq<Todo>|
                    sorted_rows(self.show_completed, rows) && rows.to_multiset()
                        == store.todos@.filter(list_pred(self.show_completed)).to_multiset()
                        && r.1@ == json_of_rows(rows)
                &&& count > 0 && self.format@ != "json"@ ==> table_listing(
                    *store,
                    self.show_completed,
                    r.1@,
                )
            }),
    {
        broadcast use vstd::seq_lib::group_to_multiset_ensures;

        let todos = store.list_todos(self.show_completed);
        let ghost count = store.todos@.filter(list_pred(self.show_completed)).len();
        proof {
            todos@.to_multiset_ensures();
            store.todos@.filter(list_pred(self.show_completed)).to_multiset_ensures();
            assert(todos@.len() == count);
        }
        if todos.len() == 0 {
            return (
                CommandResult::new(true, String::from_str("No todos")),
                String::from_str("No todos found."),
            );
        }
        proof {
            assert forall|i: int| 0 <= i < todos@.len() implies (#[trigger] todos@[i]).id >= 0
                && todos@[i].completed >= 0 by {
                assert(store.todos@.contains(todos@[i]));
                let w = choose|w: int| 0 <= w < store.todos@.len() && store.todos@[w] == todos@[i];
                assert(crate::todo::valid_row(store.todos@[w]));
            }
        }
        let body = if str_eq(self.format.as_str(), "json") {
            let b = render_json(&todos);
            proof {
                assert(sorted_rows(self.show_completed, todos@) && todos@.to_multiset()
                    == store.todos@.filter(list_pred(self.show_completed)).to_multiset() && b@
                    == json_of_rows(todos@));
            }
            b
        } else {
            let b = render_table(&todos);
            proof {
                let (shown, tags) = choose|shown: Seq<Seq<char>>, tags: Seq<Seq<char>>|
                    table_rendering(todos@, shown, tags, b@);
                assert(table_rendering(todos@, shown, tags, b@));
                assert(sorted_rows(self.show_completed, todos@) && todos@.to_multiset()
                    == store.todos@.filter(list_pred(self.show_completed)).to_multiset());
                assert(table_listing(*store, self.show_completed, b@));
            }
            b
        };
        let mut msg = String::from_str("Listed ");
        msg.append(usize_to_string(todos.len()).as_str());
        msg.append(" todos");
        (CommandResult::new(true, msg), body)
    }
}

/// Report the build metadata: the tool's name and version, as plain text or
/// as JSON.
#[derive(Debug)]
pub struct VersionCommand {
    pub json: bool,
}

impl VersionCommand {
    pub fn new(json: bool) -> (r: Self)
        ensures
            r.json == json,
    {
        Self { json }
    }

    /// The rendered version line; no storage is touched.
    pub fn execute(&self) -> (r: (CommandResult, String))
        ensures
            r.0.success,
            !self.json ==> r.1@ == "todocli-rust 0.1.0"@,
            self.json ==> r.1@ == "{\"name\":\"todocli-rust\",\"version\":\"0.1.0\"}"@,
    {
        let body = if self.json {
            String::from_str("{\"name\":\"todocli-rust\",\"version\":\"0.1.0\"}")
        } else {
            String::from_str("todocli-rust 0.1.0")
        };
        (CommandResult::new(true, String::from_str("Version information")), body)
    }
}

} // verus!

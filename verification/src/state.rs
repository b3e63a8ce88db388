//! The to-do list's data model: a single task, the whole application state,
//! and the operations the front end's controls perform on it.

use vstd::prelude::*;

verus! {

broadcast use vstd::seq_lib::group_filter_ensures;

/// The mathematical value of a [`TodoItem`]: the task's text and whether it
/// is done.
#[verifier::ext_equal]
pub struct TodoItemV {
    pub task: Seq<char>,
    pub is_completed: bool,
}

/// One entry of the to-do list.
pub struct TodoItem {
    pub task: String,
    pub is_completed: bool,
}

impl View for TodoItem {
    type V = TodoItemV;

    open spec fn view(&self) -> TodoItemV {
        TodoItemV { task: self.task@, is_completed: self.is_completed }
    }
}

/// The values of a sequence of entries.
pub open spec fn items_view(ts: Seq<TodoItem>) -> Seq<TodoItemV> {
    ts.map_values(|t: TodoItem| t@)
}

/// The entries of `ts` that are not completed, in their original order.
pub open spec fn incomplete(ts: Seq<TodoItemV>) -> Seq<TodoItemV> {
    ts.filter(|t: TodoItemV| !t.is_completed)
}

impl TodoItem {
    /// Makes an entry with the given text and completion flag.
    pub fn new(task: &str, is_completed: bool) -> (r: TodoItem)
        ensures
            r@ == (TodoItemV { task: task@, is_completed }),
    {
        TodoItem { task: task.to_owned(), is_completed }
    }
}

impl Clone for TodoItem {
    fn clone(&self) -> (r: Self)
        ensures
            r@ == self@,
    {
        TodoItem { task: self.task.clone(), is_completed: self.is_completed }
    }
}

/// The mathematical value of an [`AppState`].
#[verifier::ext_equal]
pub struct AppStateV {
    pub todos: Seq<TodoItemV>,
    pub current_entry: Seq<char>,
}

/// The whole application state: the list of entries, in append order, and
/// the text-entry buffer holding the pending new task.
pub struct AppState {
    pub todos: Vec<TodoItem>,
    pub current_entry: String,
}

impl View for AppState {
    type V = AppStateV;

    open spec fn view(&self) -> AppStateV {
        AppStateV { todos: items_view(self.todos@), current_entry: self.current_entry@ }
    }
}

/// The fixed entries a fresh state starts from when no saved list exists.
pub open spec fn default_todos() -> Seq<TodoItemV> {
    seq![
        TodoItemV { task: "Build app"@, is_completed: false },
        TodoItemV { task: "Save the world"@, is_completed: true },
        TodoItemV { task: "Play video games"@, is_completed: false },
    ]
}

impl AppState {
    /// The state a first run starts from: three fixed entries and an empty
    /// entry buffer.
    pub fn default() -> (r: AppState)
        ensures
            r@.todos == default_todos(),
            r@.current_entry == Seq::<char>::empty(),
    {
        let mut todos: Vec<TodoItem> = Vec::new();
        todos.push(TodoItem::new("Build app", false));
        todos.push(TodoItem::new("Save the world", true));
        todos.push(TodoItem::new("Play video games", false));
        let r = AppState { todos, current_entry: String::new() };
        proof {
            assert(r@.todos =~= default_todos());
        }
        r
    }

    /// Appends the pending entry as a new, not yet completed task, and
    /// clears the entry buffer.
    pub fn add_todo(&mut self)
        ensures
            final(self)@.todos == old(self)@.todos.push(
                (TodoItemV { task: old(self)@.current_entry, is_completed: false }),
            ),
            final(self)@.current_entry == Seq::<char>::empty(),
    {
        let item = TodoItem::new(self.current_entry.as_str(), false);
        self.todos.push(item);
        self.current_entry = String::new();
        proof {
            assert(self@.todos =~= old(self)@.todos.push(
                TodoItemV { task: old(self)@.current_entry, is_completed: false },
            ));
        }
    }

    /// How many entries the list holds.
    pub fn total_count(&self) -> (n: usize)
        ensures
            n == self@.todos.len(),
    {
        self.todos.len()
    }

    /// How many entries are not yet completed.
    pub fn incomplete_count(&self) -> (n: usize)
        ensures
            n == incomplete(self@.todos).len(),
    {
        let ghost v = items_view(self.todos@);
        let mut n: usize = 0;
        let mut i: usize = 0;
        while i < self.todos.len()
            invariant
                i <= v.len(),
                v == items_view(self.todos@),
                n == incomplete(v.take(i as int)).len(),
                n <= i,
            decreases v.len() - i,
        {
            proof {
                assert(v.take(i + 1) =~= v.take(i as int).push(v[i as int]));
                lemma_incomplete_push(v.take(i as int), v[i as int]);
            }
            if !self.todos[i].is_completed {
                n += 1;
            }
            i += 1;
        }
        proof {
            assert(v.take(v.len() as int) =~= v);
        }
        n
    }

    /// Removes exactly the completed entries, keeping the rest in their
    /// original order. The entry buffer is untouched.
    pub fn clear_completed(&mut self)
        ensures
            final(self)@.todos == incomplete(old(self)@.todos),
            final(self)@.current_entry == old(self)@.current_entry,
    {
        let ghost v = items_view(old(self).todos@);
        let mut kept: Vec<TodoItem> = Vec::new();
        let mut i: usize = 0;
        while i < self.todos.len()
            invariant
                i <= v.len(),
                *self == *old(self),
                v == items_view(self.todos@),
                items_view(kept@) == incomplete(v.take(i as int)),
            decreases v.len() - i,
        {
            proof {
                assert(v.take(i + 1) =~= v.take(i as int).push(v[i as int]));
                lemma_incomplete_push(v.take(i as int), v[i as int]);
            }
            let t = &self.todos[i];
            if !t.is_completed {
                kept.push(t.clone());
                proof {
                    assert(items_view(kept@) =~= incomplete(v.take(i + 1)));
                }
            }
            i += 1;
        }
        proof {
            assert(v.take(v.len() as int) =~= v);
        }
        self.todos = kept;
    }

    /// Sets the completion flag of the entry at `index`, as the check box
    /// beside it does. Returns whether such an entry exists; out of range,
    /// the state is unchanged.
    pub fn set_completed(&mut self, index: usize, done: bool) -> (applied: bool)
        ensures
            applied == (index < old(self)@.todos.len()),
            applied ==> final(self)@.todos == old(self)@.todos.update(
                index as int,
                (TodoItemV { task: old(self)@.todos[index as int].task, is_completed: done }),
            ),
            !applied ==> final(self)@.todos == old(self)@.todos,
            final(self)@.current_entry == old(self)@.current_entry,
    {
        if index < self.todos.len() {
            self.todos[index].is_completed = done;
            proof {
                assert(self@.todos =~= old(self)@.todos.update(
                    index as int,
                    TodoItemV {
                        task: old(self)@.todos[index as int].task,
                        is_completed: done,
                    },
                ));
            }
            true
        } else {
            false
        }
    }
}

/// The state the application starts from: the saved entries where a saved
/// list was found and read, and the fixed default entries otherwise. The
/// entry buffer starts empty either way.
pub fn initial_state(loaded: Option<Vec<TodoItem>>) -> (r: AppState)
    ensures
        r@.current_entry == Seq::<char>::empty(),
        match loaded {
            Some(todos) => r@.todos == items_view(todos@),
            None => r@.todos == default_todos(),
        },
{
    match loaded {
        Some(todos) => AppState { todos, current_entry: String::new() },
        None => AppState::default(),
    }
}

/// Filtering one more entry onto the back: the entry survives exactly when
/// it is not completed.
proof fn lemma_incomplete_push(s: Seq<TodoItemV>, x: TodoItemV)
    ensures
        incomplete(s.push(x)) == (if !x.is_completed {
            incomplete(s).push(x)
        } else {
            incomplete(s)
        }),
{
    reveal(Seq::filter);
    assert(s.push(x).drop_last() =~= s);
    assert(s.push(x).last() == x);
}

/// A sequence with no completed entry is left whole by `incomplete`.
proof fn lemma_incomplete_all(s: Seq<TodoItemV>)
    requires
        forall|i: int| 0 <= i < s.len() ==> !(#[trigger] s[i]).is_completed,
    ensures
        incomplete(s) == s,
    decreases s.len(),
{
    reveal(Seq::filter);
    if s.len() == 0 {
        assert(incomplete(s) =~= s);
    } else {
        lemma_incomplete_all(s.drop_last());
        assert(!s.last().is_completed);
        assert(incomplete(s) =~= s);
    }
}

/// Clearing the completed entries twice is the same as clearing them once:
/// every survivor of the first sweep is incomplete, so the second sweep
/// removes nothing.
pub proof fn lemma_clear_completed_idempotent(todos: Seq<TodoItemV>)
    ensures
        incomplete(incomplete(todos)) == incomplete(todos),
{
    lemma_incomplete_all(incomplete(todos));
}


} // verus!

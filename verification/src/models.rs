//! Core data types: a todo item and an ordered list of todo items keyed by
//! their identifiers.

use std::collections::BTreeMap;
use vstd::prelude::*;
use vstd::std_specs::iter::IteratorSpec;
use crate::order::{lemma_keys_in_order, lemma_orders_unique, orders};
use crate::text::{decimal, push_char, push_decimal};
use vstd::string::StringExecFns;

verus! {

/// A point in time: whole seconds since the Unix epoch and the nanoseconds past that second.
#[derive(Clone, Copy, Debug, PartialEq, Eq, Structural)]
pub struct Timestamp {
    pub secs: i64,
    pub nanos: u32,
}

/// Reads the system clock through `chrono::Utc::now` and hands back its seconds
/// (`timestamp`) and sub-second nanoseconds (`timestamp_subsec_nanos`).
/// Nothing is claimed of the value: it is the time of the call.
#[verifier::external_body]
fn current_time() -> Timestamp {
    let now = chrono::Utc::now();
    Timestamp { secs: now.timestamp(), nanos: now.timestamp_subsec_nanos() }
}

/// Draws a fresh random identifier through `uuid::Uuid::new_v4` and hands back its
/// 128-bit value (`Uuid::as_u128`). Nothing is claimed of the value: it is random.
#[verifier::external_body]
fn random_id() -> u128 {
    uuid::Uuid::new_v4().as_u128()
}

/// A single todo item: an identifier, its text, when it was created, whether it is
/// finished and, if so, when.
#[derive(Debug)]
pub struct Todo {
    pub id: u128,
    pub content: String,
    pub created_at: Timestamp,
    pub finished_at: Option<Timestamp>,
    pub finished: bool,
}

impl Clone for Todo {
    fn clone(&self) -> (t: Todo)
        ensures
            t == *self,
    {
        Todo {
            id: self.id,
            content: self.content.clone(),
            created_at: self.created_at,
            finished_at: self.finished_at,
            finished: self.finished,
        }
    }
}

/// `new` is `old` marked finished: the same item, finished, with a finishing time.
pub open spec fn is_finished_version(old: Todo, new: Todo) -> bool {
    &&& new.id == old.id
    &&& new.content == old.content
    &&& new.created_at == old.created_at
    &&& new.finished
    &&& new.finished_at is Some
}

/// `old` with its finished mark taken back.
pub open spec fn unfinished_version(old: Todo) -> Todo {
    Todo { finished: false, finished_at: None, ..old }
}

/// `old` with new text.
pub open spec fn edited_version(old: Todo, content: String) -> Todo {
    Todo { content: content, ..old }
}

/// A todo as it is first made: the given text, not finished.
pub open spec fn is_fresh_todo(t: Todo, content: String) -> bool {
    &&& t.content == content
    &&& !t.finished
    &&& t.finished_at is None
}

/// The marker shown for a todo: a check mark for a finished one, blanks otherwise.
pub open spec fn status_text(finished: bool) -> Seq<char> {
    if finished {
        seq![' ', '✓', ' ']
    } else {
        seq![' ', ' ', ' ']
    }
}

/// How a todo is shown: `[` marker `] ` and its text.
pub open spec fn todo_text(t: Todo) -> Seq<char> {
    seq!['['] + status_text(t.finished) + seq![']', ' '] + t.content@
}

impl Todo {
    /// Create a new unfinished todo with the given content, a fresh random
    /// identifier and the current time as its creation time.
    pub fn new(content: String) -> (t: Todo)
        ensures
            is_fresh_todo(t, content),
    {
        Todo {
            id: random_id(),
            content,
            created_at: current_time(),
            finished_at: None,
            finished: false,
        }
    }

    /// Mark this todo as finished, record the current time as its finishing time,
    /// and return its content.
    ///
    /// The finishing time is a reading of the clock taken during the call; what it
    /// is cannot be told in advance, so only `mark_finished_at` states its value.
    pub fn mark_finished(&mut self) -> (c: &str)
        ensures
            is_finished_version(*old(self), *final(self)),
            *final(self) == (Todo { finished: true, finished_at: final(self).finished_at, ..*old(self) }),
            c@ == old(self).content@,
    {
        let now = current_time();
        self.mark_finished_at(now)
    }

    /// Mark this todo as finished at the time `now` and return its content.
    pub fn mark_finished_at(&mut self, now: Timestamp) -> (c: &str)
        ensures
            final(self).finished,
            final(self).finished_at == Some(now),
            final(self).id == old(self).id,
            final(self).content == old(self).content,
            final(self).created_at == old(self).created_at,
            is_finished_version(*old(self), *final(self)),
            c@ == old(self).content@,
    {
        self.finished = true;
        self.finished_at = Some(now);
        self.content.as_str()
    }

    /// Replace the content and return the new value.
    pub fn edit(&mut self, new_content: String) -> (c: &str)
        ensures
            *final(self) == edited_version(*old(self), new_content),
            c@ == new_content@,
    {
        self.content = new_content;
        self.content.as_str()
    }

    /// How the todo is shown in a listing: `[ ✓ ] content` when finished,
    /// `[   ] content` otherwise.
    pub fn display_line(&self) -> (s: String)
        ensures
            s@ == todo_text(*self),
    {
        let mut s = String::new();
        s.append("[");
        if self.finished {
            s.append(" ✓ ");
        } else {
            s.append("   ");
        }
        s.append("] ");
        s.append(self.content.as_str());
        proof {
            reveal_strlit("[");
            reveal_strlit(" ✓ ");
            reveal_strlit("   ");
            reveal_strlit("] ");
            assert(s@ =~= todo_text(*self));
        }
        s
    }

    pub fn get_content(&self) -> (c: &str)
        ensures
            c@ == self.content@,
    {
        self.content.as_str()
    }
}

/// An ordered collection of todos keyed by their identifiers. The list is walked
/// in increasing order of identifier.
pub struct TodoList {
    pub todos: BTreeMap<u128, Todo>,
}

impl TodoList {
    /// The identifiers of the todos in increasing order: the order in which the list is walked.
    pub open spec fn ordered_ids(&self) -> Seq<u128> {
        choose|s: Seq<u128>| orders(s, self.todos@.dom())
    }

    /// The todos in the order in which the list is walked.
    pub open spec fn ordered_todos(&self) -> Seq<Todo> {
        self.ordered_ids().map_values(|k: u128| self.todos@[k])
    }

    /// Every todo is kept under its own identifier.
    pub open spec fn well_keyed(&self) -> bool {
        forall|k: u128| #[trigger] self.todos@.contains_key(k) ==> self.todos@[k].id == k
    }

    /// Create an empty todo list.
    pub fn new() -> (l: TodoList)
        ensures
            l.todos@ == Map::<u128, Todo>::empty(),
    {
        TodoList { todos: BTreeMap::new() }
    }

    /// The number of todos.
    pub fn len(&self) -> (n: usize)
        ensures
            n == self.todos@.len(),
    {
        self.todos.len()
    }

    /// Whether the list holds no todo.
    pub fn is_empty(&self) -> (b: bool)
        ensures
            b == (self.todos@.len() == 0),
    {
        self.todos.is_empty()
    }

    /// Put a todo under its own identifier, replacing any todo kept there.
    pub fn insert(&mut self, todo: Todo)
        ensures
            final(self).todos@ == old(self).todos@.insert(todo.id, todo),
            old(self).well_keyed() ==> final(self).well_keyed(),
    {
        let id = todo.id;
        self.todos.insert(id, todo);
    }

    /// The identifier at position `n` of the walk, if there is one.
    pub fn nth_id(&self, n: usize) -> (r: Option<u128>)
        ensures
            orders(self.ordered_ids(), self.todos@.dom()),
            r == (if n < self.ordered_ids().len() {
                Some(self.ordered_ids()[n as int])
            } else {
                None::<u128>
            }),
    {
        proof {
            lemma_keys_in_order(&self.todos);
            let s = self.todos.keys().remaining().unref();
            lemma_orders_unique(s, self.ordered_ids(), self.todos@.dom());
        }
        let mut i: usize = 0;
        for k in it: self.todos.keys()
            invariant
                i == it.index(),
                i <= n,
                it.seq().unref() == self.ordered_ids(),
                orders(self.ordered_ids(), self.todos@.dom()),
        {
            if i == n {
                return Some(*k);
            }
            i = i + 1;
        }
        None
    }

    /// The identifiers of the todos in the order in which the list is walked.
    pub fn ids_in_order(&self) -> (v: Vec<u128>)
        ensures
            v@ == self.ordered_ids(),
            orders(self.ordered_ids(), self.todos@.dom()),
    {
        proof {
            lemma_keys_in_order(&self.todos);
            let s = self.todos.keys().remaining().unref();
            lemma_orders_unique(s, self.ordered_ids(), self.todos@.dom());
        }
        let mut v: Vec<u128> = Vec::new();
        for k in it: self.todos.keys()
            invariant
                v@ =~= it.seq().unref().take(it.index()),
                it.seq().unref() == self.ordered_ids(),
                orders(self.ordered_ids(), self.todos@.dom()),
        {
            v.push(*k);
        }
        v
    }

}

impl Default for TodoList {
    fn default() -> (l: TodoList)
        ensures
            l.todos@ == Map::<u128, Todo>::empty(),
    {
        TodoList::new()
    }
}

/// What adding a todo came to.
#[derive(Debug)]
pub enum AddOutcome {
    /// A todo with that content was already stored; it is handed back.
    AlreadyExists(Todo),
    /// A new todo was made and put in the list; a copy is handed back.
    Created(Todo),
}

/// What marking a todo finished came to.
#[derive(Debug, PartialEq, Eq)]
pub enum FinishOutcome {
    /// The todo with this content is now finished.
    Finished(String),
    /// The stored todo was found but is not in the list: nothing changed.
    NotInList,
    /// No stored todo has this content.
    NotFound(String),
}

/// What editing a todo came to.
#[derive(Debug, PartialEq, Eq)]
pub enum EditOutcome {
    /// The todo now has this content.
    Updated(String),
    /// The stored todo was found but is not in the list: nothing changed.
    NotInList,
    /// No stored todo has the content searched for.
    NotFound(String),
}

/// What removing one deleted identifier from the list came to.
#[derive(Debug)]
pub enum CleanOutcome {
    /// The todo kept under the identifier was removed; it is handed back.
    Cleaned(Todo),
    /// No todo was kept under the identifier.
    Missing(u128),
}

/// The list after the first `i` of the deleted identifiers were taken out.
pub open spec fn after_removals(m: Map<u128, Todo>, ids: Seq<u128>, i: int) -> Map<u128, Todo> {
    m.remove_keys(ids.take(i).to_set())
}

/// What taking out the deleted identifier at position `i` comes to.
pub open spec fn clean_outcome(m: Map<u128, Todo>, ids: Seq<u128>, i: int) -> CleanOutcome {
    let before = after_removals(m, ids, i);
    if before.contains_key(ids[i]) {
        CleanOutcome::Cleaned(before[ids[i]])
    } else {
        CleanOutcome::Missing(ids[i])
    }
}

impl TodoList {
    /// An identifier that no todo of the list is kept under: the smallest such number.
    fn free_id(&self) -> (r: u128)
        ensures
            !self.todos@.contains_key(r),
    {
        let ids = self.ids_in_order();
        let mut i: usize = 0;
        while i < ids.len()
            invariant
                ids@ == self.ordered_ids(),
                orders(self.ordered_ids(), self.todos@.dom()),
                i <= ids.len(),
                forall|j: int| 0 <= j < i ==> ids@[j] == j,
            decreases ids.len() - i,
        {
            let c: u128 = i as u128;
            if ids[i] != c {
                proof {
                    if i > 0 {
                        assert(ids@[i - 1] < ids@[i as int]);
                    }
                    assert(ids@[i as int] > c);
                    assert(!self.ordered_ids().to_set().contains(c)) by {
                        if self.ordered_ids().to_set().contains(c) {
                            let k = choose|k: int| 0 <= k < ids@.len() && ids@[k] == c;
                            if k < i {
                                assert(ids@[k] == k);
                            } else if k > i {
                                assert(ids@[i as int] < ids@[k]);
                            }
                        }
                    }
                }
                return c;
            }
            i = i + 1;
        }
        let c: u128 = i as u128;
        proof {
            assert(!self.ordered_ids().to_set().contains(c)) by {
                if self.ordered_ids().to_set().contains(c) {
                    let k = choose|k: int| 0 <= k < ids@.len() && ids@[k] == c;
                    assert(ids@[k] == k);
                }
            }
        }
        c
    }

    /// A new unfinished todo with the given content, under an identifier that the
    /// list does not hold yet: a fresh random one (`Todo::new`), or, should that one
    /// already be taken, the smallest free one.
    pub fn new_todo(&self, content: String) -> (t: Todo)
        ensures
            is_fresh_todo(t, content),
            !self.todos@.contains_key(t.id),
    {
        let mut t = Todo::new(content);
        if self.todos.contains_key(&t.id) {
            t.id = self.free_id();
        }
        t
    }

    /// Add a new todo with the given content unless the store already holds one
    /// with that content; `found` is what the store holds under that content.
    pub fn add_todo_db(&mut self, content: String, found: Option<Todo>) -> (r: AddOutcome)
        ensures
            match found {
                Some(t) => final(self).todos@ == old(self).todos@ && r == AddOutcome::AlreadyExists(t),
                None => r matches AddOutcome::Created(n) && is_fresh_todo(n, content)
                    && final(self).todos@ == old(self).todos@.insert(n.id, n)
                    && !old(self).todos@.contains_key(n.id)
                    && final(self).todos@.len() == old(self).todos@.len() + 1
                    && final(self).todos@.contains_key(n.id)
                    && final(self).todos@[n.id] == n
                    && (forall|k: u128| #[trigger] old(self).todos@.contains_key(k) ==>
                        final(self).todos@.contains_key(k) && final(self).todos@[k] == old(self).todos@[k]),
            },
            old(self).well_keyed() ==> final(self).well_keyed(),
    {
        proof {
            lemma_ordered_ids(&*self);
        }
        match found {
            Some(t) => AddOutcome::AlreadyExists(t),
            None => {
                let new_todo = self.new_todo(content);
                let copy = new_todo.clone();
                proof {
                    lemma_fresh_insert_keeps_all(&*self, new_todo);
                }
                self.insert(new_todo);
                AddOutcome::Created(copy)
            },
        }
    }

    /// Mark as finished the todo that the store holds under the given content;
    /// `found` is what the store holds under that content.
    pub fn finish_todo_db(&mut self, content: String, found: Option<Todo>) -> (r: FinishOutcome)
        ensures
            match found {
                None => final(self).todos@ == old(self).todos@ && r == FinishOutcome::NotFound(content),
                Some(t) => if old(self).todos@.contains_key(t.id) {
                    &&& final(self).todos@ == old(self).todos@.insert(t.id, final(self).todos@[t.id])
                    &&& is_finished_version(old(self).todos@[t.id], final(self).todos@[t.id])
                    &&& r == FinishOutcome::Finished(old(self).todos@[t.id].content)
                } else {
                    final(self).todos@ == old(self).todos@ && r == FinishOutcome::NotInList
                },
            },
            old(self).well_keyed() ==> final(self).well_keyed(),
    {
        match found {
            None => FinishOutcome::NotFound(content),
            Some(t) => {
                let id = t.id;
                match self.todos.remove(&id) {
                    Some(mut todo) => {
                        todo.mark_finished();
                        let c = todo.content.clone();
                        self.todos.insert(id, todo);
                        assert(final(self).todos@ =~= old(self).todos@.insert(id, final(self).todos@[id]));
                        FinishOutcome::Finished(c)
                    },
                    None => FinishOutcome::NotInList,
                }
            },
        }
    }

    /// Give new content to the todo that the store holds under the old content;
    /// `found` is what the store holds under `before`.
    pub fn edit_todo_db(&mut self, before: String, after: String, found: Option<Todo>) -> (r: EditOutcome)
        ensures
            match found {
                None => final(self).todos@ == old(self).todos@ && r == EditOutcome::NotFound(before),
                Some(t) => if old(self).todos@.contains_key(t.id) {
                    &&& final(self).todos@ == old(self).todos@.insert(t.id, edited_version(old(self).todos@[t.id], after))
                    &&& r == EditOutcome::Updated(after)
                } else {
                    final(self).todos@ == old(self).todos@ && r == EditOutcome::NotInList
                },
            },
            old(self).well_keyed() ==> final(self).well_keyed(),
    {
        match found {
            None => EditOutcome::NotFound(before),
            Some(t) => {
                let id = t.id;
                match self.todos.remove(&id) {
                    Some(mut todo) => {
                        todo.edit(after);
                        let c = todo.content.clone();
                        self.todos.insert(id, todo);
                        assert(final(self).todos@ =~= old(self).todos@.insert(id, edited_version(old(self).todos@[id], after)));
                        EditOutcome::Updated(c)
                    },
                    None => EditOutcome::NotInList,
                }
            },
        }
    }

    /// Take out of the list the todos whose identifiers the store has just deleted,
    /// one outcome per deleted identifier, in order.
    pub fn clean_todo_db(&mut self, deleted_ids: Vec<u128>) -> (r: Vec<CleanOutcome>)
        ensures
            final(self).todos@ == old(self).todos@.remove_keys(deleted_ids@.to_set()),
            r.len() == deleted_ids.len(),
            forall|i: int| 0 <= i < r.len() ==> r[i] == clean_outcome(old(self).todos@, deleted_ids@, i),
            old(self).well_keyed() ==> final(self).well_keyed(),
    {
        let ghost start = self.todos@;
        let mut outcomes: Vec<CleanOutcome> = Vec::new();
        let mut i: usize = 0;
        assert(deleted_ids@.take(0).to_set() =~= Set::<u128>::empty());
        assert(self.todos@ =~= after_removals(start, deleted_ids@, 0));
        while i < deleted_ids.len()
            invariant
                i <= deleted_ids.len(),
                start == old(self).todos@,
                self.todos@ == after_removals(start, deleted_ids@, i as int),
                outcomes.len() == i,
                forall|j: int| 0 <= j < i ==> outcomes[j] == clean_outcome(start, deleted_ids@, j),
            decreases deleted_ids.len() - i,
        {
            let id = deleted_ids[i];
            let ghost before = self.todos@;
            let removed = self.todos.remove(&id);
            let outcome = match removed {
                Some(t) => CleanOutcome::Cleaned(t),
                None => CleanOutcome::Missing(id),
            };
            outcomes.push(outcome);
            proof {
                let ids = deleted_ids@;
                assert(ids.take(i + 1) =~= ids.take(i as int).push(id));
                ids.take(i as int).lemma_push_to_set_commute(id);
                assert(ids.take(i + 1).to_set() =~= ids.take(i as int).to_set().insert(id));
                assert(self.todos@ =~= after_removals(start, ids, i + 1));
            }
            i = i + 1;
        }
        assert(deleted_ids@.take(deleted_ids.len() as int) =~= deleted_ids@);
        outcomes
    }
}

/// The numbered lines of a listing: line `n` is `n. ` and the todo, then a line break.
pub open spec fn lines_text(ts: Seq<Todo>) -> Seq<char>
    decreases ts.len(),
{
    if ts.len() == 0 {
        Seq::empty()
    } else {
        lines_text(ts.drop_last()) + decimal(ts.len()) + seq!['.', ' '] + todo_text(ts.last()) + seq!['\n']
    }
}

/// The todos of `ts` whose finished mark is `finished`, in the same order.
pub open spec fn with_status(ts: Seq<Todo>, finished: bool) -> Seq<Todo>
    decreases ts.len(),
{
    if ts.len() == 0 {
        Seq::empty()
    } else if ts.last().finished == finished {
        with_status(ts.drop_last(), finished).push(ts.last())
    } else {
        with_status(ts.drop_last(), finished)
    }
}

impl AddOutcome {
    /// The line that reports the outcome.
    pub fn message(&self) -> (m: String)
        ensures
            m@ == match self {
                AddOutcome::AlreadyExists(t) => "Task already exists: "@ + t.content@,
                AddOutcome::Created(t) => "Created task: "@ + t.content@,
            },
    {
        let mut m = String::new();
        match self {
            AddOutcome::AlreadyExists(t) => {
                m.append("Task already exists: ");
                m.append(t.content.as_str());
            },
            AddOutcome::Created(t) => {
                m.append("Created task: ");
                m.append(t.content.as_str());
            },
        }
        m
    }
}

impl FinishOutcome {
    /// The line that reports the outcome, if there is one.
    pub fn message(&self) -> (m: Option<String>)
        ensures
            match self {
                FinishOutcome::Finished(c) => m matches Some(s) && s@ == "Finished task: "@ + c@,
                FinishOutcome::NotInList => m is None,
                FinishOutcome::NotFound(c) => m matches Some(s) && s@ == "Task not found: "@ + c@,
            },
    {
        match self {
            FinishOutcome::Finished(c) => {
                let mut m = String::new();
                m.append("Finished task: ");
                m.append(c.as_str());
                Some(m)
            },
            FinishOutcome::NotInList => None,
            FinishOutcome::NotFound(c) => {
                let mut m = String::new();
                m.append("Task not found: ");
                m.append(c.as_str());
                Some(m)
            },
        }
    }
}

impl EditOutcome {
    /// The line that reports the outcome, if there is one.
    pub fn message(&self) -> (m: Option<String>)
        ensures
            match self {
                EditOutcome::Updated(c) => m matches Some(s) && s@ == "Updated task: "@ + c@,
                EditOutcome::NotInList => m is None,
                EditOutcome::NotFound(c) => m matches Some(s) && s@ == "Task not found: "@ + c@,
            },
    {
        match self {
            EditOutcome::Updated(c) => {
                let mut m = String::new();
                m.append("Updated task: ");
                m.append(c.as_str());
                Some(m)
            },
            EditOutcome::NotInList => None,
            EditOutcome::NotFound(c) => {
                let mut m = String::new();
                m.append("Task not found: ");
                m.append(c.as_str());
                Some(m)
            },
        }
    }
}

impl TodoList {
    /// The listing of the list: `No todos` when it is empty, else one numbered line per todo.
    pub open spec fn listing(&self) -> Seq<char> {
        if self.todos@.len() == 0 {
            "No todos"@
        } else {
            lines_text(self.ordered_todos())
        }
    }

    /// The listing of the list, as printed by the `list` command.
    pub fn render(&self) -> (s: String)
        ensures
            s@ == self.listing(),
    {
        let mut s = String::new();
        if self.todos.is_empty() {
            s.append("No todos");
            return s;
        }
        let ids = self.ids_in_order();
        let ghost ts = self.ordered_todos();
        let mut i: usize = 0;
        while i < ids.len()
            invariant
                ids@ == self.ordered_ids(),
                orders(self.ordered_ids(), self.todos@.dom()),
                ts == self.ordered_todos(),
                i <= ids.len(),
                s@ == lines_text(ts.take(i as int)),
            decreases ids.len() - i,
        {
            let id = ids[i];
            assert(self.ordered_ids().to_set().contains(id)) by {
                assert(self.ordered_ids()[i as int] == id);
            }
            let t = self.todos.get(&id).unwrap();
            let line = t.display_line();
            let ghost prev = s@;
            push_decimal(&mut s, i + 1);
            s.append(". ");
            s.append(line.as_str());
            push_char(&mut s, '\n');
            proof {
                reveal_strlit(". ");
                assert(ts.take(i + 1).drop_last() =~= ts.take(i as int));
                assert(ts.take(i + 1).last() == *t);
                assert(s@ =~= lines_text(ts.take(i + 1)));
            }
            i = i + 1;
        }
        assert(ts.take(ids.len() as int) =~= ts);
        s
    }

    /// The todos in the order in which the list is walked.
    pub fn todos_in_order(&self) -> (v: Vec<Todo>)
        ensures
            v@ == self.ordered_todos(),
    {
        let ids = self.ids_in_order();
        let mut v: Vec<Todo> = Vec::new();
        let mut i: usize = 0;
        while i < ids.len()
            invariant
                ids@ == self.ordered_ids(),
                orders(self.ordered_ids(), self.todos@.dom()),
                i <= ids.len(),
                v@ =~= self.ordered_todos().take(i as int),
            decreases ids.len() - i,
        {
            let id = ids[i];
            assert(self.ordered_ids().to_set().contains(id)) by {
                assert(self.ordered_ids()[i as int] == id);
            }
            let t = self.todos.get(&id).unwrap();
            v.push(t.clone());
            i = i + 1;
        }
        v
    }

    /// The todos whose finished mark is `finished`, in the order in which the list is walked.
    pub fn todos_with_status(&self, finished: bool) -> (v: Vec<Todo>)
        ensures
            v@ == with_status(self.ordered_todos(), finished),
            v@ == self.ordered_todos().filter(|t: Todo| t.finished == finished),
            forall|i: int| 0 <= i < v.len() ==> (#[trigger] v@[i]).finished == finished
                && self.ordered_todos().contains(v@[i]),
            self.well_keyed() ==> forall|i: int, j: int| 0 <= i < j < v.len() ==> v@[i].id < v@[j].id,
    {
        proof {
            lemma_with_status_is_filter(self.ordered_todos(), finished);
            lemma_with_status_in_order(self.ordered_todos(), finished);
            if self.well_keyed() {
                lemma_walk_ids_increase(self);
            }
        }
        let all = self.todos_in_order();
        let mut v: Vec<Todo> = Vec::new();
        let mut i: usize = 0;
        while i < all.len()
            invariant
                all@ == self.ordered_todos(),
                i <= all.len(),
                v@ == with_status(all@.take(i as int), finished),
            decreases all.len() - i,
        {
            assert(all@.take(i + 1).drop_last() =~= all@.take(i as int));
            if all[i].finished == finished {
                v.push(all[i].clone());
            }
            i = i + 1;
        }
        assert(all@.take(all.len() as int) =~= all@);
        v
    }

    /// The todos not yet finished, in the order in which the list is walked.
    pub fn pending_todos(&self) -> (v: Vec<Todo>)
        ensures
            v@ == with_status(self.ordered_todos(), false),
            v@ == self.ordered_todos().filter(|t: Todo| t.finished == false),
            forall|i: int| 0 <= i < v.len() ==> (#[trigger] v@[i]).finished == false
                && self.ordered_todos().contains(v@[i]),
            self.well_keyed() ==> forall|i: int, j: int| 0 <= i < j < v.len() ==> v@[i].id < v@[j].id,
    {
        self.todos_with_status(false)
    }

    /// The finished todos, in the order in which the list is walked.
    pub fn finished_todos(&self) -> (v: Vec<Todo>)
        ensures
            v@ == with_status(self.ordered_todos(), true),
            v@ == self.ordered_todos().filter(|t: Todo| t.finished == true),
            forall|i: int| 0 <= i < v.len() ==> (#[trigger] v@[i]).finished == true
                && self.ordered_todos().contains(v@[i]),
            self.well_keyed() ==> forall|i: int, j: int| 0 <= i < j < v.len() ==> v@[i].id < v@[j].id,
    {
        self.todos_with_status(true)
    }
}

/// The walk of a list lists each of its identifiers once, in increasing order.
pub proof fn lemma_ordered_ids(l: &TodoList)
    ensures
        orders(l.ordered_ids(), l.todos@.dom()),
        l.ordered_ids().len() == l.todos@.len(),
{
    lemma_keys_in_order(&l.todos);
    let s = l.todos.keys().remaining().unref();
    lemma_orders_unique(s, l.ordered_ids(), l.todos@.dom());
    crate::order::lemma_orders_len(l.ordered_ids(), l.todos@.dom());
}

/// Cleaning with the identifiers of exactly the finished todos leaves exactly the
/// unfinished todos, each as it was.
pub proof fn lemma_clean_leaves_unfinished(m: Map<u128, Todo>, deleted: Set<u128>)
    requires
        forall|k: u128| deleted.contains(k) <==> (m.contains_key(k) && #[trigger] m[k].finished),
    ensures
        forall|k: u128| #[trigger] m.remove_keys(deleted).contains_key(k) <==> (m.contains_key(k) && !m[k].finished),
        forall|k: u128| #[trigger] m.remove_keys(deleted).contains_key(k) ==> m.remove_keys(deleted)[k] == m[k],
{
}

/// Every identifier that the store deleted and the list holds once is reported as
/// cleaned, with the todo that the list held.
pub proof fn lemma_clean_reports_held_todos(m: Map<u128, Todo>, ids: Seq<u128>, i: int)
    requires
        0 <= i < ids.len(),
        ids.no_duplicates(),
        m.contains_key(ids[i]),
    ensures
        clean_outcome(m, ids, i) == CleanOutcome::Cleaned(m[ids[i]]),
{
    assert(!ids.take(i).to_set().contains(ids[i])) by {
        if ids.take(i).to_set().contains(ids[i]) {
            let j = choose|j: int| 0 <= j < ids.take(i).len() && ids.take(i)[j] == ids[i];
            assert(ids[j] == ids[i]);
        }
    }
}

/// The pending and the finished todos split a sequence of todos: each pending one is
/// unfinished, each finished one finished, and together they are as many as all.
pub proof fn lemma_status_split(ts: Seq<Todo>)
    ensures
        with_status(ts, false).len() + with_status(ts, true).len() == ts.len(),
        forall|i: int| 0 <= i < with_status(ts, false).len() ==> !(#[trigger] with_status(ts, false)[i]).finished,
        forall|i: int| 0 <= i < with_status(ts, true).len() ==> (#[trigger] with_status(ts, true)[i]).finished,
    decreases ts.len(),
{
    if ts.len() > 0 {
        lemma_status_split(ts.drop_last());
    }
}

/// A todo added under a fresh content and then finished through the store's record
/// of it is finished, keeps its content and creation time, and nothing else changed.
pub proof fn lemma_add_then_finish(
    start: TodoList,
    added: TodoList,
    finished: TodoList,
    content: String,
    n: Todo,
)
    requires
        is_fresh_todo(n, content),
        added.todos@ == start.todos@.insert(n.id, n),
        finished.todos@ == added.todos@.insert(n.id, finished.todos@[n.id]),
        is_finished_version(added.todos@[n.id], finished.todos@[n.id]),
    ensures
        finished.todos@.contains_key(n.id),
        finished.todos@[n.id].finished,
        finished.todos@[n.id].content == content,
        finished.todos@[n.id].created_at == n.created_at,
        forall|k: u128| k != n.id ==> (#[trigger] finished.todos@.contains_key(k) <==> start.todos@.contains_key(k)),
        forall|k: u128| k != n.id && #[trigger] start.todos@.contains_key(k) ==> finished.todos@[k] == start.todos@[k],
{
}

/// Keeping the todos of one status is `Seq::filter` with that status.
pub proof fn lemma_with_status_is_filter(ts: Seq<Todo>, finished: bool)
    ensures
        with_status(ts, finished) == ts.filter(|t: Todo| t.finished == finished),
    decreases ts.len(),
{
    reveal_with_fuel(Seq::<Todo>::filter, 1);
    if ts.len() > 0 {
        lemma_with_status_is_filter(ts.drop_last(), finished);
    }
}

/// The todos of one status come from the sequence, have that status, and keep
/// the order of the sequence: when its identifiers increase, so do theirs.
pub proof fn lemma_with_status_in_order(ts: Seq<Todo>, finished: bool)
    ensures
        forall|i: int| 0 <= i < with_status(ts, finished).len() ==>
            (#[trigger] with_status(ts, finished)[i]).finished == finished
            && ts.contains(with_status(ts, finished)[i]),
        (forall|i: int, j: int| 0 <= i < j < ts.len() ==> ts[i].id < ts[j].id) ==>
            forall|i: int, j: int| 0 <= i < j < with_status(ts, finished).len() ==>
                with_status(ts, finished)[i].id < with_status(ts, finished)[j].id,
    decreases ts.len(),
{
    if ts.len() > 0 {
        let init = ts.drop_last();
        lemma_with_status_in_order(init, finished);
        let ws = with_status(ts, finished);
        let wi = with_status(init, finished);
        assert forall|i: int| 0 <= i < ws.len() implies (#[trigger] ws[i]).finished == finished
            && ts.contains(ws[i]) by {
            if i < wi.len() {
                assert(ws[i] == wi[i]);
                let k = choose|k: int| 0 <= k < init.len() && init[k] == wi[i];
                assert(ts[k] == init[k]);
            } else {
                assert(ws[i] == ts.last());
                assert(ts[ts.len() - 1] == ts.last());
            }
        }
        if forall|i: int, j: int| 0 <= i < j < ts.len() ==> ts[i].id < ts[j].id {
            assert forall|i: int, j: int| 0 <= i < j < ws.len() implies ws[i].id < ws[j].id by {
                assert(forall|a: int, b: int| 0 <= a < b < init.len() ==> init[a].id < init[b].id) by {
                    assert forall|a: int, b: int| 0 <= a < b < init.len() implies init[a].id < init[b].id by {
                        assert(init[a] == ts[a] && init[b] == ts[b]);
                    }
                }
                if j < wi.len() {
                    assert(ws[i] == wi[i] && ws[j] == wi[j]);
                } else {
                    assert(ws[i] == wi[i]);
                    assert(ws[j] == ts.last());
                    assert(init.contains(wi[i]));
                    let k = choose|k: int| 0 <= k < init.len() && init[k] == wi[i];
                    assert(ts[k] == init[k]);
                    assert(ts[ts.len() - 1] == ts.last());
                }
            }
        }
    }
}

/// In a list that keeps every todo under its own identifier, the todos of the walk
/// have increasing identifiers.
pub proof fn lemma_walk_ids_increase(l: &TodoList)
    requires
        l.well_keyed(),
    ensures
        forall|i: int, j: int| 0 <= i < j < l.ordered_todos().len() ==>
            l.ordered_todos()[i].id < l.ordered_todos()[j].id,
{
    lemma_ordered_ids(l);
    let ids = l.ordered_ids();
    assert forall|i: int, j: int| 0 <= i < j < l.ordered_todos().len() implies
        l.ordered_todos()[i].id < l.ordered_todos()[j].id by {
        assert(ids.to_set().contains(ids[i]));
        assert(ids.to_set().contains(ids[j]));
        assert(l.todos@.contains_key(ids[i]));
        assert(l.todos@.contains_key(ids[j]));
    }
}

/// Adding a todo under an identifier the list does not hold makes the list one
/// longer and keeps every todo it held, unchanged.
pub proof fn lemma_fresh_insert_keeps_all(l: &TodoList, n: Todo)
    requires
        !l.todos@.contains_key(n.id),
    ensures
        l.todos@.insert(n.id, n).len() == l.todos@.len() + 1,
        forall|k: u128| #[trigger] l.todos@.contains_key(k) ==>
            l.todos@.insert(n.id, n).contains_key(k) && l.todos@.insert(n.id, n)[k] == l.todos@[k],
{
    lemma_ordered_ids(l);
    assert(l.todos@.dom().finite());
    assert(l.todos@.insert(n.id, n).dom() =~= l.todos@.dom().insert(n.id));
}

} // verus!

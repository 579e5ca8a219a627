//! Application state of the terminal interface and its reaction to key presses.

use vstd::prelude::*;
use crate::models::{
    is_finished_version, is_fresh_todo, edited_version, lemma_fresh_insert_keeps_all, lemma_ordered_ids,
    unfinished_version, Todo, TodoList,
};
use crate::text::{pop_char, push_char};

verus! {

/// What the keyboard is doing: moving through the list, editing the selected
/// todo's text, or typing a new todo.
#[derive(Debug, Clone, Copy, PartialEq, Eq, Structural)]
pub enum InputMode {
    Normal,
    Insert,
    Adding,
}

impl Default for InputMode {
    fn default() -> (m: InputMode)
        ensures
            m == InputMode::Normal,
    {
        InputMode::Normal
    }
}

/// The keys that the interface tells apart; every other key is `Other`.
#[derive(Debug, Clone, Copy, PartialEq, Eq, Structural)]
pub enum KeyCode {
    Char(char),
    Up,
    Down,
    Enter,
    Esc,
    Backspace,
    Other,
}

/// Which item of the shown list is selected, and from which item on the list is
/// shown. The selection may point past the end of the list until the list is drawn.
#[derive(Debug, Clone, Copy, PartialEq, Eq, Structural)]
pub struct ListState {
    pub offset: usize,
    pub selected: Option<usize>,
}

impl Default for ListState {
    fn default() -> (s: ListState)
        ensures
            s.offset == 0,
            s.selected is None,
    {
        ListState { offset: 0, selected: None }
    }
}

impl ListState {
    /// The first item shown.
    pub fn offset(&self) -> (o: usize)
        ensures
            o == self.offset,
    {
        self.offset
    }

    /// The selected item, if any.
    pub fn selected(&self) -> (s: Option<usize>)
        ensures
            s == self.selected,
    {
        self.selected
    }

    /// The same state shown from item `offset` on.
    pub fn with_offset(self, offset: usize) -> (s: ListState)
        ensures
            s.offset == offset,
            s.selected == self.selected,
    {
        ListState { offset, selected: self.selected }
    }

    /// The same state with the given selection.
    pub fn with_selected(self, selected: Option<usize>) -> (s: ListState)
        ensures
            s.offset == self.offset,
            s.selected == selected,
    {
        ListState { offset: self.offset, selected }
    }

    /// Selecting `index`; selecting nothing also scrolls back to the top.
    pub open spec fn spec_select(self, index: Option<usize>) -> ListState {
        ListState { offset: if index is None { 0 } else { self.offset }, selected: index }
    }

    /// The state after moving the selection one item down (to the first item when
    /// nothing is selected), saturating at the largest index.
    pub open spec fn next_state(self) -> ListState {
        self.spec_select(Some(match self.selected {
            None => 0,
            Some(i) => if i == usize::MAX { i } else { (i + 1) as usize },
        }))
    }

    /// The state after moving the selection one item up (to the largest index when
    /// nothing is selected), saturating at zero.
    pub open spec fn previous_state(self) -> ListState {
        self.spec_select(Some(match self.selected {
            None => usize::MAX,
            Some(i) => if i == 0 { 0 } else { (i - 1) as usize },
        }))
    }

    /// Select the item at `index`, or nothing.
    pub fn select(&mut self, index: Option<usize>)
        ensures
            *final(self) == old(self).spec_select(index),
    {
        self.selected = index;
        if index.is_none() {
            self.offset = 0;
        }
    }

    /// Move the selection one item down.
    pub fn select_next(&mut self)
        ensures
            *final(self) == old(self).next_state(),
    {
        let next = match self.selected {
            None => 0,
            Some(i) => if i == usize::MAX { i } else { i + 1 },
        };
        self.select(Some(next));
    }

    /// Move the selection one item up.
    pub fn select_previous(&mut self)
        ensures
            *final(self) == old(self).previous_state(),
    {
        let previous = match self.selected {
            None => usize::MAX,
            Some(i) => if i == 0 { 0 } else { i - 1 },
        };
        self.select(Some(previous));
    }
}

/// Application state of the terminal interface: the todo list, whether to quit,
/// the selection, the input mode and the text being typed.
pub struct AppTodo {
    pub todos: TodoList,
    /// When set, the event loop ends and the interface closes.
    pub exit: bool,
    /// Which item in the list is highlighted.
    pub state: ListState,
    pub input_mode: InputMode,
    pub input: String,
}

/// The list `after` is `before` with one new todo of the given content added.
pub open spec fn todo_added(before: TodoList, after: TodoList, content: String) -> bool {
    exists|n: Todo|
        is_fresh_todo(n, content) && !before.todos@.contains_key(n.id) && after.todos@
            == before.todos@.insert(n.id, n)
}

/// The selection after a todo was added to `before` giving `after`: the first item
/// is selected when the list has just become one item long.
pub open spec fn state_after_add(state: ListState, after: TodoList) -> ListState {
    if after.todos@.len() == 1 {
        state.spec_select(Some(0))
    } else {
        state
    }
}

impl AppTodo {
    /// The identifier of the selected todo, if the selection points at one.
    pub open spec fn selected_id(&self) -> Option<u128> {
        match self.state.selected {
            Some(i) => if i < self.todos.ordered_ids().len() {
                Some(self.todos.ordered_ids()[i as int])
            } else {
                None
            },
            None => None,
        }
    }

    /// Nothing but the todos may differ between `self` and `other`.
    pub open spec fn same_but_todos(&self, other: &AppTodo) -> bool {
        &&& other.exit == self.exit
        &&& other.state == self.state
        &&& other.input_mode == self.input_mode
        &&& other.input@ == self.input@
    }

    /// Nothing differs between `self` and `other`, todos included.
    pub open spec fn unchanged(&self, other: &AppTodo) -> bool {
        self.same_but_todos(other) && other.todos.todos@ == self.todos.todos@
    }

    /// `after`'s todos are `self`'s with the selected todo's finished mark flipped:
    /// an unfinished one becomes finished with a finishing time, a finished one
    /// loses both. With no selected todo nothing changes.
    pub open spec fn toggled(&self, after: &AppTodo) -> bool {
        match self.selected_id() {
            None => after.todos.todos@ == self.todos.todos@,
            Some(id) => {
                let t = self.todos.todos@[id];
                if t.finished {
                    after.todos.todos@ == self.todos.todos@.insert(id, unfinished_version(t))
                } else {
                    &&& after.todos.todos@ == self.todos.todos@.insert(id, after.todos.todos@[id])
                    &&& is_finished_version(t, after.todos.todos@[id])
                }
            },
        }
    }

    /// `after`'s todos are `self`'s without the selected todo.
    pub open spec fn deleted(&self, after: &AppTodo) -> bool {
        match self.selected_id() {
            None => after.todos.todos@ == self.todos.todos@,
            Some(id) => after.todos.todos@ == self.todos.todos@.remove(id),
        }
    }

    /// `after` is `self` after starting to edit the selected item: its text (or
    /// nothing, when the selection points past the list) becomes the input and the
    /// mode becomes `Insert`. With no selection nothing changes.
    pub open spec fn edit_started(&self, after: &AppTodo) -> bool {
        match self.state.selected {
            None => self.unchanged(after),
            Some(i) => {
                &&& after.todos.todos@ == self.todos.todos@
                &&& after.exit == self.exit
                &&& after.state == self.state
                &&& after.input_mode == InputMode::Insert
                &&& after.input@ == (if i < self.todos.ordered_ids().len() {
                    self.todos.ordered_todos()[i as int].content@
                } else {
                    Seq::<char>::empty()
                })
            },
        }
    }

    /// `after` is `self` after the key `key` was pressed.
    pub open spec fn key_step(&self, after: &AppTodo, key: KeyCode) -> bool {
        match self.input_mode {
            InputMode::Normal => match key {
                KeyCode::Char('q') => {
                    &&& after.exit
                    &&& after.todos.todos@ == self.todos.todos@
                    &&& after.state == self.state
                    &&& after.input_mode == self.input_mode
                    &&& after.input@ == self.input@
                },
                KeyCode::Down | KeyCode::Char('j') => {
                    &&& after.state == self.state.next_state()
                    &&& after.todos.todos@ == self.todos.todos@
                    &&& after.exit == self.exit
                    &&& after.input_mode == self.input_mode
                    &&& after.input@ == self.input@
                },
                KeyCode::Up | KeyCode::Char('k') => {
                    &&& after.state == self.state.previous_state()
                    &&& after.todos.todos@ == self.todos.todos@
                    &&& after.exit == self.exit
                    &&& after.input_mode == self.input_mode
                    &&& after.input@ == self.input@
                },
                KeyCode::Char(' ') => self.toggled(after) && self.same_but_todos(after),
                KeyCode::Char('a') => {
                    &&& after.input_mode == InputMode::Adding
                    &&& after.input@ == Seq::<char>::empty()
                    &&& after.todos.todos@ == self.todos.todos@
                    &&& after.exit == self.exit
                    &&& after.state == self.state
                },
                KeyCode::Char('d') => self.deleted(after) && self.same_but_todos(after),
                KeyCode::Char('e') => self.edit_started(after),
                _ => self.unchanged(after),
            },
            _ => match key {
                KeyCode::Enter => {
                    &&& after.input_mode == InputMode::Normal
                    &&& after.input@ == Seq::<char>::empty()
                    &&& after.exit == self.exit
                    &&& if self.input@.len() == 0 {
                        after.todos.todos@ == self.todos.todos@ && after.state == self.state
                    } else if self.input_mode == InputMode::Adding {
                        &&& todo_added(self.todos, after.todos, self.input)
                        &&& after.state == state_after_add(self.state, after.todos)
                    } else {
                        &&& after.state == self.state
                        &&& match self.selected_id() {
                            Some(id) => after.todos.todos@ == self.todos.todos@.insert(
                                id,
                                edited_version(self.todos.todos@[id], self.input),
                            ),
                            None => after.todos.todos@ == self.todos.todos@,
                        }
                    }
                },
                KeyCode::Esc => {
                    &&& after.input_mode == InputMode::Normal
                    &&& after.input@ == Seq::<char>::empty()
                    &&& after.todos.todos@ == self.todos.todos@
                    &&& after.exit == self.exit
                    &&& after.state == self.state
                },
                KeyCode::Backspace => {
                    &&& after.input@ == (if self.input@.len() > 0 {
                        self.input@.drop_last()
                    } else {
                        self.input@
                    })
                    &&& after.todos.todos@ == self.todos.todos@
                    &&& after.exit == self.exit
                    &&& after.state == self.state
                    &&& after.input_mode == self.input_mode
                },
                KeyCode::Char(c) => {
                    &&& after.input@ == self.input@.push(c)
                    &&& after.todos.todos@ == self.todos.todos@
                    &&& after.exit == self.exit
                    &&& after.state == self.state
                    &&& after.input_mode == self.input_mode
                },
                _ => self.unchanged(after),
            },
        }
    }

    /// Create the state for a todo list: the first item is selected when the list
    /// is not empty.
    pub fn new(todos: TodoList) -> (app: AppTodo)
        ensures
            app.todos == todos,
            !app.exit,
            app.state.offset == 0,
            app.state.selected == (if todos.todos@.len() == 0 { None } else { Some(0usize) }),
            app.input_mode == InputMode::Normal,
            app.input@ == Seq::<char>::empty(),
    {
        let mut state = ListState::default();
        if !todos.is_empty() {
            state.select(Some(0));
        }
        AppTodo { todos, exit: false, state, input_mode: InputMode::Normal, input: String::new() }
    }

    /// Flip the finished mark of the selected todo: an unfinished one is marked
    /// finished with the current time, a finished one loses both mark and time.
    pub fn toggle_selected(&mut self)
        ensures
            old(self).todos.well_keyed() ==> final(self).todos.well_keyed(),
            old(self).toggled(&*final(self)),
            old(self).same_but_todos(&*final(self)),
    {
        if let Some(selected) = self.state.selected() {
            if let Some(id) = self.todos.nth_id(selected) {
                assert(self.todos.ordered_ids().to_set().contains(id)) by {
                    assert(self.todos.ordered_ids()[selected as int] == id);
                }
                let mut todo = self.todos.todos.remove(&id).unwrap();
                if !todo.finished {
                    let _ = todo.mark_finished();
                } else {
                    todo.finished = false;
                    todo.finished_at = None;
                }
                self.todos.todos.insert(id, todo);
                assert(self.todos.todos@ =~= old(self).todos.todos@.insert(id, self.todos.todos@[id]));
            }
        }
    }

    /// Add a new todo with the given content; when it is the only one, select it.
    pub fn add_todo(&mut self, content: String)
        ensures
            final(self).todos.todos@.len() == old(self).todos.todos@.len() + 1,
            forall|k: u128| #[trigger] old(self).todos.todos@.contains_key(k) ==>
                final(self).todos.todos@.contains_key(k)
                && final(self).todos.todos@[k] == old(self).todos.todos@[k],
            exists|n: Todo| #![trigger final(self).todos.todos@[n.id]]
                !old(self).todos.todos@.contains_key(n.id) && final(self).todos.todos@.contains_key(n.id)
                && final(self).todos.todos@[n.id] == n && is_fresh_todo(n, content),
            old(self).todos.well_keyed() ==> final(self).todos.well_keyed(),
            todo_added(old(self).todos, final(self).todos, content),
            final(self).state == state_after_add(old(self).state, final(self).todos),
            final(self).exit == old(self).exit,
            final(self).input_mode == old(self).input_mode,
            final(self).input@ == old(self).input@,
    {
        let todo = self.todos.new_todo(content);
        let ghost n = todo;
        proof {
            lemma_fresh_insert_keeps_all(&self.todos, todo);
        }
        self.todos.insert(todo);
        assert(is_fresh_todo(n, content) && !old(self).todos.todos@.contains_key(n.id)
            && self.todos.todos@ == old(self).todos.todos@.insert(n.id, n));
        assert(self.todos.todos@[n.id] == n);
        if self.todos.len() == 1 {
            self.state.select(Some(0));
        }
    }

    /// Remove the selected todo from the list.
    pub fn delete_selected(&mut self)
        ensures
            old(self).todos.well_keyed() ==> final(self).todos.well_keyed(),
            old(self).deleted(&*final(self)),
            old(self).same_but_todos(&*final(self)),
    {
        if let Some(selected) = self.state.selected() {
            if let Some(id) = self.todos.nth_id(selected) {
                self.todos.todos.remove(&id);
            }
        }
    }

    /// Start editing the selected todo: its text becomes the input.
    pub fn edit_selected(&mut self)
        ensures
            old(self).todos.well_keyed() ==> final(self).todos.well_keyed(),
            old(self).edit_started(&*final(self)),
    {
        if let Some(selected) = self.state.selected() {
            let context = match self.todos.nth_id(selected) {
                Some(id) => {
                    assert(self.todos.ordered_ids().to_set().contains(id)) by {
                        assert(self.todos.ordered_ids()[selected as int] == id);
                    }
                    self.todos.todos.get(&id).unwrap().content.clone()
                },
                None => String::new(),
            };
            self.input = context;
            self.input_mode = InputMode::Insert;
        }
    }

    /// Edit the selected todo's text to `content`, if a todo is selected.
    fn edit_selected_content(&mut self, content: String)
        ensures
            old(self).todos.well_keyed() ==> final(self).todos.well_keyed(),
            match old(self).selected_id() {
                Some(id) => final(self).todos.todos@ == old(self).todos.todos@.insert(
                    id,
                    edited_version(old(self).todos.todos@[id], content),
                ),
                None => final(self).todos.todos@ == old(self).todos.todos@,
            },
            old(self).same_but_todos(&*final(self)),
    {
        if let Some(selected) = self.state.selected() {
            if let Some(id) = self.todos.nth_id(selected) {
                assert(self.todos.ordered_ids().to_set().contains(id)) by {
                    assert(self.todos.ordered_ids()[selected as int] == id);
                }
                let mut todo = self.todos.todos.remove(&id).unwrap();
                todo.edit(content);
                self.todos.todos.insert(id, todo);
                assert(self.todos.todos@ =~= old(self).todos.todos@.insert(
                    id,
                    edited_version(old(self).todos.todos@[id], content),
                ));
            }
        }
    }

    /// React to one key press.
    ///
    /// In `Normal` mode: `q` quits, `j`/Down and `k`/Up move the selection, Space
    /// flips the selected todo's finished mark, `a` starts typing a new todo, `d`
    /// deletes the selected todo and `e` starts editing it. While typing: Enter
    /// stores the text (a new todo, or the selected todo's new text) unless it is
    /// empty, Esc drops it, Backspace removes its last character and any other
    /// character is appended.
    pub fn handle_key_events(&mut self, key: KeyCode)
        ensures
            old(self).todos.well_keyed() ==> final(self).todos.well_keyed(),
            old(self).key_step(&*final(self), key),
    {
        match self.input_mode {
            InputMode::Normal => match key {
                KeyCode::Char('q') => self.exit = true,
                KeyCode::Down => self.state.select_next(),
                KeyCode::Up => self.state.select_previous(),
                KeyCode::Char('j') => self.state.select_next(),
                KeyCode::Char('k') => self.state.select_previous(),
                KeyCode::Char(' ') => self.toggle_selected(),
                KeyCode::Char('a') => {
                    self.input_mode = InputMode::Adding;
                    self.input = String::new();
                },
                KeyCode::Char('d') => self.delete_selected(),
                KeyCode::Char('e') => self.edit_selected(),
                _ => {},
            },
            InputMode::Adding | InputMode::Insert => match key {
                KeyCode::Enter => {
                    let content = self.input.clone();
                    if !content.as_str().is_empty() {
                        if self.input_mode == InputMode::Adding {
                            self.add_todo(content);
                        } else {
                            self.edit_selected_content(content);
                        }
                    }
                    self.input_mode = InputMode::Normal;
                    self.input = String::new();
                },
                KeyCode::Esc => {
                    self.input_mode = InputMode::Normal;
                    self.input = String::new();
                },
                KeyCode::Backspace => {
                    let _ = pop_char(&mut self.input);
                },
                KeyCode::Char(c) => {
                    push_char(&mut self.input, c);
                },
                _ => {},
            },
        }
    }
}

/// Moving the selection down and then up again comes back to the same item,
/// unless the selection was already at the largest index.
pub proof fn lemma_next_then_previous(s: ListState)
    requires
        s.selected matches Some(i) && i < usize::MAX,
    ensures
        s.next_state().previous_state() == s,
{
}

/// Moving the selection up and then down again comes back to the same item,
/// unless the selection was already at the top.
pub proof fn lemma_previous_then_next(s: ListState)
    requires
        s.selected matches Some(i) && i > 0,
    ensures
        s.previous_state().next_state() == s,
{
}

/// Flipping the finished mark of the selected todo twice leaves an unfinished todo
/// unfinished, without a finishing time, and every other todo as it was.
pub proof fn lemma_toggle_twice(a: AppTodo, b: AppTodo, c: AppTodo)
    requires
        a.toggled(&b),
        a.same_but_todos(&b),
        b.toggled(&c),
        b.same_but_todos(&c),
        a.selected_id() is Some,
        !a.todos.todos@[a.selected_id()->0].finished,
    ensures
        c.todos.todos@ == a.todos.todos@.insert(
            a.selected_id()->0,
            unfinished_version(a.todos.todos@[a.selected_id()->0]),
        ),
{
    let id = a.selected_id()->0;
    lemma_ordered_ids(&a.todos);
    let i = a.state.selected->0;
    assert(a.todos.ordered_ids().to_set().contains(a.todos.ordered_ids()[i as int]));
    assert(b.todos.todos@.dom() =~= a.todos.todos@.dom());
    assert(b.todos.ordered_ids() == a.todos.ordered_ids());
    assert(b.selected_id() == a.selected_id());
    assert(c.todos.todos@ =~= a.todos.todos@.insert(id, unfinished_version(a.todos.todos@[id])));
}

/// Flipping the finished mark changes no todo but the selected one.
pub proof fn lemma_toggle_changes_only_selected(a: AppTodo, b: AppTodo, k: u128)
    requires
        a.toggled(&b),
        a.selected_id() != Some(k),
    ensures
        b.todos.todos@.contains_key(k) == a.todos.todos@.contains_key(k),
        a.todos.todos@.contains_key(k) ==> b.todos.todos@[k] == a.todos.todos@[k],
{
}

/// Escape while typing drops the text and returns to moving through the list,
/// with the todos, the selection and the exit flag as they were.
pub proof fn lemma_escape_discards_input(a: AppTodo, b: AppTodo)
    requires
        a.input_mode != InputMode::Normal,
        a.key_step(&b, KeyCode::Esc),
    ensures
        b.input_mode == InputMode::Normal,
        b.input@ == Seq::<char>::empty(),
        b.todos.todos@ == a.todos.todos@,
        b.state == a.state,
        b.exit == a.exit,
{
}

/// Typing a character and then removing it with backspace restores the text.
pub proof fn lemma_type_then_backspace(a: AppTodo, b: AppTodo, c: AppTodo, ch: char)
    requires
        a.input_mode != InputMode::Normal,
        a.key_step(&b, KeyCode::Char(ch)),
        b.key_step(&c, KeyCode::Backspace),
    ensures
        c.input@ == a.input@,
        c.input_mode == a.input_mode,
        c.todos.todos@ == a.todos.todos@,
        c.state == a.state,
        c.exit == a.exit,
{
    assert(a.input@.push(ch).drop_last() =~= a.input@);
}

/// Keys that move the selection or quit never change the todos.
pub proof fn lemma_navigation_keeps_todos(a: AppTodo, b: AppTodo, key: KeyCode)
    requires
        a.input_mode == InputMode::Normal,
        key == KeyCode::Up || key == KeyCode::Down || key == KeyCode::Char('j')
            || key == KeyCode::Char('k') || key == KeyCode::Char('q'),
        a.key_step(&b, key),
    ensures
        b.todos.todos@ == a.todos.todos@,
        b.input_mode == InputMode::Normal,
{
}

/// Typing a new todo and pressing Enter adds one todo under an identifier the list
/// did not hold, with the typed text, and keeps every todo that was there, unchanged.
pub proof fn lemma_adding_by_keys_keeps_todos(a: AppTodo, b: AppTodo)
    requires
        a.input_mode == InputMode::Adding,
        a.input@.len() > 0,
        a.key_step(&b, KeyCode::Enter),
    ensures
        b.todos.todos@.len() == a.todos.todos@.len() + 1,
        forall|k: u128| #[trigger] a.todos.todos@.contains_key(k) ==>
            b.todos.todos@.contains_key(k) && b.todos.todos@[k] == a.todos.todos@[k],
        exists|n: Todo| #![trigger b.todos.todos@[n.id]]
            !a.todos.todos@.contains_key(n.id) && b.todos.todos@.contains_key(n.id)
            && b.todos.todos@[n.id] == n && is_fresh_todo(n, a.input),
{
    let n = choose|n: Todo|
        is_fresh_todo(n, a.input) && !a.todos.todos@.contains_key(n.id) && b.todos.todos@
            == a.todos.todos@.insert(n.id, n);
    lemma_fresh_insert_keeps_all(&a.todos, n);
    assert(b.todos.todos@[n.id] == n);
}

} // verus!

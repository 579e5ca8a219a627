use oflow::models::Timestamp;
use oflow::tui::state::{AppTodo, InputMode, KeyCode, ListState};
use oflow::{Todo, TodoList};

/// Helper: build an `AppTodo` with `n` items.
fn app_with(n: usize) -> AppTodo {
    let mut tdlist = TodoList::new();
    for i in 0..n {
        let todo = Todo::new(format!("task-{}", i));
        tdlist.todos.insert(todo.id, todo);
    }
    AppTodo::new(tdlist)
}

fn first(app: &AppTodo) -> Todo {
    app.todos.todos_in_order()[0].clone()
}

#[test]
fn new_empty_list_selects_none() {
    let app = AppTodo::new(TodoList::new());
    assert!(app.state.selected().is_none());
    assert!(!app.exit);
    assert!(app.todos.todos.is_empty());
}

#[test]
fn new_nonempty_list_selects_first() {
    let app = app_with(3);
    assert_eq!(app.state.selected(), Some(0));
}

#[test]
fn key_q_sets_exit() {
    let mut app = app_with(3);
    app.handle_key_events(KeyCode::Char('q'));
    assert!(app.exit);
}

#[test]
fn key_j_selects_next() {
    let mut app = app_with(3);
    app.handle_key_events(KeyCode::Char('j'));
    assert_eq!(app.state.selected(), Some(1));
}

#[test]
fn key_k_selects_previous() {
    let mut app = app_with(3);
    // Move to index 1 first, then back to 0.
    app.state.select(Some(1));
    app.handle_key_events(KeyCode::Char('k'));
    assert_eq!(app.state.selected(), Some(0));
}

#[test]
fn key_down_selects_next() {
    let mut app = app_with(3);
    app.handle_key_events(KeyCode::Down);
    assert_eq!(app.state.selected(), Some(1));
}

#[test]
fn key_up_selects_previous() {
    let mut app = app_with(3);
    app.state.select(Some(2));
    app.handle_key_events(KeyCode::Up);
    assert_eq!(app.state.selected(), Some(1));
}

#[test]
fn key_space_toggles_selected() {
    let mut app = app_with(1);
    // First toggle: unfinished -> finished
    app.handle_key_events(KeyCode::Char(' '));
    let f = first(&app);
    assert!(f.finished);
    assert!(f.finished_at.is_some());

    // Second toggle: finished -> unfinished
    app.handle_key_events(KeyCode::Char(' '));
    let f = first(&app);
    assert!(!f.finished);
    assert!(f.finished_at.is_none());
}

#[test]
fn unknown_key_is_ignored() {
    let mut app = app_with(3);
    app.handle_key_events(KeyCode::Char('x'));
    assert!(!app.exit);
    assert_eq!(app.state.selected(), Some(0));
}

#[test]
fn toggle_marks_finished_and_sets_timestamp() {
    let mut app = app_with(2);
    app.toggle_selected();
    let f = first(&app);
    assert!(f.finished);
    assert!(f.finished_at.is_some());
}

#[test]
fn toggle_unfinished_clears_timestamp() {
    let mut app = app_with(1);
    // Finish first
    app.toggle_selected();
    // Unfinish
    app.toggle_selected();
    let f = first(&app);
    assert!(!f.finished);
    assert!(f.finished_at.is_none());
}

#[test]
fn toggle_with_no_selection_is_noop() {
    let mut app = AppTodo::new(TodoList::new());
    // No panic, no change
    app.toggle_selected();
    assert!(app.todos.todos.is_empty());
}

#[test]
fn toggle_only_affects_selected_item() {
    let mut app = app_with(3);
    // Select second item and toggle it
    app.state.select(Some(1));
    app.toggle_selected();

    let items: Vec<Todo> = app.todos.todos_in_order();
    assert!(!items[0].finished, "first item should stay unfinished");
    assert!(items[1].finished, "second item should be finished");
    assert!(!items[2].finished, "third item should stay unfinished");
}

fn type_text(app: &mut AppTodo, text: &str) {
    for c in text.chars() {
        app.handle_key_events(KeyCode::Char(c));
    }
}

#[test]
fn adding_a_todo_by_keys() {
    let mut app = AppTodo::new(TodoList::new());
    app.handle_key_events(KeyCode::Char('a'));
    assert_eq!(app.input_mode, InputMode::Adding);
    type_text(&mut app, "Buy milkk");
    app.handle_key_events(KeyCode::Backspace);
    assert_eq!(app.input, "Buy milk");
    app.handle_key_events(KeyCode::Enter);
    assert_eq!(app.input_mode, InputMode::Normal);
    assert!(app.input.is_empty());
    assert_eq!(app.todos.len(), 1);
    assert_eq!(first(&app).content, "Buy milk");
    assert_eq!(app.state.selected(), Some(0));
}

#[test]
fn empty_input_adds_nothing_and_escape_cancels() {
    let mut app = app_with(1);
    app.handle_key_events(KeyCode::Char('a'));
    app.handle_key_events(KeyCode::Enter);
    assert_eq!(app.todos.len(), 1);
    app.handle_key_events(KeyCode::Char('a'));
    type_text(&mut app, "abc");
    app.handle_key_events(KeyCode::Esc);
    assert_eq!(app.input_mode, InputMode::Normal);
    assert!(app.input.is_empty());
    assert_eq!(app.todos.len(), 1);
    // Backspace on empty input is harmless.
    app.handle_key_events(KeyCode::Char('a'));
    app.handle_key_events(KeyCode::Backspace);
    assert!(app.input.is_empty());
}

#[test]
fn editing_the_selected_todo_by_keys() {
    let mut app = app_with(2);
    app.state.select(Some(1));
    let second_id = app.todos.nth_id(1).unwrap();
    let old = app.todos.todos.get(&second_id).unwrap().content.clone();
    app.handle_key_events(KeyCode::Char('e'));
    assert_eq!(app.input_mode, InputMode::Insert);
    assert_eq!(app.input, old);
    app.handle_key_events(KeyCode::Backspace);
    type_text(&mut app, "X");
    app.handle_key_events(KeyCode::Enter);
    let expected = format!("{}X", &old[..old.len() - 1]);
    assert_eq!(app.todos.todos.get(&second_id).unwrap().content, expected);
    assert_eq!(app.input_mode, InputMode::Normal);
    assert_eq!(app.todos.len(), 2);
}

#[test]
fn edit_past_the_end_starts_with_empty_input() {
    let mut app = app_with(1);
    app.state.select(Some(5));
    app.handle_key_events(KeyCode::Char('e'));
    assert_eq!(app.input_mode, InputMode::Insert);
    assert!(app.input.is_empty());
    type_text(&mut app, "new");
    app.handle_key_events(KeyCode::Enter);
    assert_eq!(first(&app).content.starts_with("task-"), true);
}

#[test]
fn deleting_the_selected_todo() {
    let mut app = app_with(3);
    let ids = app.todos.ids_in_order();
    app.state.select(Some(1));
    app.handle_key_events(KeyCode::Char('d'));
    assert_eq!(app.todos.ids_in_order(), vec![ids[0], ids[2]]);
    app.state.select(None);
    app.handle_key_events(KeyCode::Char('d'));
    assert_eq!(app.todos.len(), 2);
}

#[test]
fn list_state_moves_saturate() {
    let mut s = ListState::default();
    s.select_next();
    assert_eq!(s.selected(), Some(0));
    s.select_previous();
    assert_eq!(s.selected(), Some(0));
    let mut s = ListState::default();
    s.select_previous();
    assert_eq!(s.selected(), Some(usize::MAX));
    s.select_next();
    assert_eq!(s.selected(), Some(usize::MAX));
    let mut s = ListState::default().with_offset(4).with_selected(Some(6));
    assert_eq!(s.offset(), 4);
    s.select(None);
    assert_eq!(s.offset(), 0);
    assert_eq!(InputMode::default(), InputMode::Normal);
}

#[test]
fn timestamps_are_plain_values() {
    let t = Timestamp { secs: 1, nanos: 2 };
    assert_eq!(t, Timestamp { secs: 1, nanos: 2 });
}

#[test]
fn next_then_previous_returns() {
    let mut s = ListState::default().with_offset(2).with_selected(Some(7));
    s.select_next();
    assert_eq!(s.selected(), Some(8));
    s.select_previous();
    assert_eq!(s, ListState::default().with_offset(2).with_selected(Some(7)));
    s.select_previous();
    s.select_next();
    assert_eq!(s.selected(), Some(7));
    assert_eq!(s.offset(), 2);
}

#[test]
fn quitting_keeps_the_todos() {
    let mut app = app_with(2);
    let before = app.todos.ids_in_order();
    app.handle_key_events(KeyCode::Char('q'));
    assert!(app.exit);
    assert_eq!(app.todos.ids_in_order(), before);
    assert_eq!(app.input_mode, InputMode::Normal);
}

use oflow::models::{AddOutcome, CleanOutcome, EditOutcome, FinishOutcome, Timestamp};
use oflow::{Todo, TodoList};

fn todo(id: u128, content: &str, finished: bool) -> Todo {
    Todo {
        id,
        content: content.to_string(),
        created_at: Timestamp { secs: 1_700_000_000, nanos: 5 },
        finished_at: if finished { Some(Timestamp { secs: 1_700_000_100, nanos: 0 }) } else { None },
        finished,
    }
}

fn list_of(todos: Vec<Todo>) -> TodoList {
    let mut l = TodoList::new();
    for t in todos {
        l.insert(t);
    }
    l
}

#[test]
fn new_todo_is_unfinished() {
    let t = Todo::new("Buy milk".to_string());
    assert_eq!(t.content, "Buy milk");
    assert!(!t.finished);
    assert!(t.finished_at.is_none());
    let u = Todo::new("Buy milk".to_string());
    assert_ne!(t.id, u.id);
}

#[test]
fn mark_finished_and_edit() {
    let mut t = todo(1, "a", false);
    assert_eq!(t.mark_finished(), "a");
    assert!(t.finished);
    assert!(t.finished_at.is_some());
    assert_eq!(t.edit("b".to_string()), "b");
    assert_eq!(t.get_content(), "b");
    assert_eq!(t.id, 1);
}

#[test]
fn display_lines() {
    assert_eq!(todo(1, "Buy milk", false).display_line(), "[   ] Buy milk");
    assert_eq!(todo(1, "Buy milk", true).display_line(), "[ ✓ ] Buy milk");
}

#[test]
fn render_empty_and_numbered() {
    assert_eq!(TodoList::new().render(), "No todos");
    let l = list_of(vec![todo(30, "c", false), todo(10, "a", true), todo(20, "b", false)]);
    assert_eq!(l.render(), "1. [ ✓ ] a\n2. [   ] b\n3. [   ] c\n");
    let mut many = Vec::new();
    for i in 0..12u128 {
        many.push(todo(i, "x", false));
    }
    let text = list_of(many).render();
    assert!(text.ends_with("11. [   ] x\n12. [   ] x\n"));
}

#[test]
fn walk_is_in_identifier_order() {
    let l = list_of(vec![todo(30, "c", false), todo(10, "a", true), todo(20, "b", false)]);
    assert_eq!(l.ids_in_order(), vec![10, 20, 30]);
    assert_eq!(l.nth_id(1), Some(20));
    assert_eq!(l.nth_id(3), None);
    let contents: Vec<String> = l.todos_in_order().into_iter().map(|t| t.content).collect();
    assert_eq!(contents, vec!["a", "b", "c"]);
    let pending: Vec<u128> = l.pending_todos().into_iter().map(|t| t.id).collect();
    assert_eq!(pending, vec![20, 30]);
    let finished: Vec<u128> = l.finished_todos().into_iter().map(|t| t.id).collect();
    assert_eq!(finished, vec![10]);
    assert_eq!(l.len(), 3);
    assert!(!l.is_empty());
}

#[test]
fn add_creates_or_reports_existing() {
    let mut l = TodoList::new();
    let out = l.add_todo_db("Buy milk".to_string(), None);
    let id = match &out {
        AddOutcome::Created(t) => t.id,
        _ => panic!("expected Created"),
    };
    assert_eq!(out.message(), "Created task: Buy milk");
    assert_eq!(l.len(), 1);
    assert_eq!(l.todos.get(&id).unwrap().content, "Buy milk");

    let existing = l.todos.get(&id).unwrap().clone();
    let out = l.add_todo_db("Buy milk".to_string(), Some(existing));
    assert!(matches!(out, AddOutcome::AlreadyExists(_)));
    assert_eq!(out.message(), "Task already exists: Buy milk");
    assert_eq!(l.len(), 1);
}

#[test]
fn finish_by_stored_record() {
    let mut l = list_of(vec![todo(1, "a", false), todo(2, "b", false)]);
    let out = l.finish_todo_db("a".to_string(), Some(todo(1, "a", false)));
    assert_eq!(out, FinishOutcome::Finished("a".to_string()));
    assert_eq!(out.message().unwrap(), "Finished task: a");
    assert!(l.todos.get(&1).unwrap().finished);
    assert!(l.todos.get(&1).unwrap().finished_at.is_some());
    assert!(!l.todos.get(&2).unwrap().finished);

    let out = l.finish_todo_db("z".to_string(), None);
    assert_eq!(out, FinishOutcome::NotFound("z".to_string()));
    assert_eq!(out.message().unwrap(), "Task not found: z");

    let out = l.finish_todo_db("q".to_string(), Some(todo(9, "q", false)));
    assert_eq!(out, FinishOutcome::NotInList);
    assert!(out.message().is_none());
    assert_eq!(l.len(), 2);
}

#[test]
fn edit_by_stored_record() {
    let mut l = list_of(vec![todo(1, "Buy milk", false)]);
    let out = l.edit_todo_db("Buy milk".to_string(), "Buy eggs".to_string(), Some(todo(1, "Buy milk", false)));
    assert_eq!(out, EditOutcome::Updated("Buy eggs".to_string()));
    assert_eq!(out.message().unwrap(), "Updated task: Buy eggs");
    assert_eq!(l.todos.get(&1).unwrap().content, "Buy eggs");
    let out = l.edit_todo_db("x".to_string(), "y".to_string(), None);
    assert_eq!(out, EditOutcome::NotFound("x".to_string()));
    assert_eq!(out.message().unwrap(), "Task not found: x");
    let out = l.edit_todo_db("x".to_string(), "y".to_string(), Some(todo(5, "x", false)));
    assert_eq!(out, EditOutcome::NotInList);
}

#[test]
fn clean_removes_deleted_identifiers() {
    let mut l = list_of(vec![todo(1, "a", true), todo(2, "b", false), todo(3, "c", true)]);
    let out = l.clean_todo_db(vec![3, 1, 7, 3]);
    assert_eq!(out.len(), 4);
    assert!(matches!(&out[0], CleanOutcome::Cleaned(t) if t.id == 3 && t.content == "c"));
    assert!(matches!(&out[1], CleanOutcome::Cleaned(t) if t.id == 1));
    assert!(matches!(out[2], CleanOutcome::Missing(7)));
    assert!(matches!(out[3], CleanOutcome::Missing(3)));
    assert_eq!(l.ids_in_order(), vec![2]);
    assert!(l.clean_todo_db(Vec::new()).is_empty());
}

#[test]
fn mixed_operations_keep_unfinished() {
    let mut l = TodoList::new();
    for i in 0..11000u128 {
        l.insert(todo(i, "task", false));
    }
    let ids = l.ids_in_order();
    for id in ids.iter().take(5000) {
        let found = l.todos.get(id).unwrap().clone();
        l.finish_todo_db("task".to_string(), Some(found));
    }
    let finished: Vec<u128> = l.finished_todos().into_iter().map(|t| t.id).collect();
    assert_eq!(finished.len(), 5000);
    l.clean_todo_db(finished);
    assert_eq!(l.len(), 6000);
    assert!(l.finished_todos().is_empty());
}

#[test]
fn load_keeps_later_rows() {
    let mut l = list_of(vec![todo(99, "old", false)]);
    l.load_from_db(vec![todo(2, "first", false), todo(1, "x", false), todo(2, "second", true)]);
    assert_eq!(l.ids_in_order(), vec![1, 2]);
    assert_eq!(l.todos.get(&2).unwrap().content, "second");
    assert!(l.todos.get(&2).unwrap().finished);
}

#[test]
fn default_list_is_empty() {
    assert!(TodoList::default().is_empty());
}

#[test]
fn add_then_finish_by_store_record() {
    let mut l = list_of(vec![todo(5, "other", false)]);
    let created = match l.add_todo_db("Buy milk".to_string(), None) {
        AddOutcome::Created(t) => t,
        _ => panic!("expected Created"),
    };
    let out = l.finish_todo_db("Buy milk".to_string(), Some(created.clone()));
    assert_eq!(out, FinishOutcome::Finished("Buy milk".to_string()));
    let now = l.todos.get(&created.id).unwrap();
    assert!(now.finished);
    assert_eq!(now.content, "Buy milk");
    assert_eq!(now.created_at, created.created_at);
    assert!(!l.todos.get(&5).unwrap().finished);
    assert_eq!(l.len(), 2);
}

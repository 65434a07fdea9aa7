use event_sync::api::CreateTodo;
use event_sync::todos::{create_todo, delete_todo, get_todos, toggle_todo, Task};

#[test]
fn create_toggle_delete() {
    let mut todos: Vec<Task> = Vec::new();
    let a = create_todo(&mut todos, CreateTodo { text: "one".to_string() });
    let b = create_todo(&mut todos, CreateTodo { text: "two".to_string() });
    assert_ne!(a.id, b.id);
    assert!(!a.done);
    assert_eq!(todos.len(), 2);
    assert_eq!(todos[1].text, "two");

    let t = toggle_todo(&mut todos, a.id).unwrap();
    assert!(t.done);
    assert_eq!(t.text, "one");
    assert!(todos[0].done);
    assert!(!toggle_todo(&mut todos, a.id).unwrap().done);
    assert!(toggle_todo(&mut todos, 12345).is_none());

    assert!(delete_todo(&mut todos, a.id));
    assert_eq!(todos.len(), 1);
    assert_eq!(todos[0].id, b.id);
    assert!(!delete_todo(&mut todos, a.id));
    assert_eq!(todos.len(), 1);
}

#[test]
fn delete_removes_every_match_and_keeps_order() {
    let mut todos = vec![
        Task { id: 1, text: "a".to_string(), done: false },
        Task { id: 2, text: "b".to_string(), done: true },
        Task { id: 1, text: "c".to_string(), done: false },
        Task { id: 3, text: "d".to_string(), done: false },
    ];
    assert!(delete_todo(&mut todos, 1));
    let texts: Vec<&str> = todos.iter().map(|t| t.text.as_str()).collect();
    assert_eq!(texts, vec!["b", "d"]);
    let copy = get_todos(&todos);
    assert_eq!(copy.len(), 2);
    assert_eq!(copy[0].id, 2);
    assert!(copy[0].done);
    assert_eq!(copy[1].text, "d");
}

#[test]
fn toggle_touches_only_the_first_match() {
    let mut todos = vec![
        Task { id: 9, text: "x".to_string(), done: false },
        Task { id: 9, text: "y".to_string(), done: false },
    ];
    let t = toggle_todo(&mut todos, 9).unwrap();
    assert_eq!(t.text, "x");
    assert!(todos[0].done);
    assert!(!todos[1].done);
}

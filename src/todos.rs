//! The in-memory todo list: create, toggle and delete by identifier.
use vstd::prelude::*;
use crate::api::CreateTodo;
use crate::event::fresh_uuid;

verus! {

/// A todo item; `id` is the 128-bit value of its UUID.
#[derive(Debug, Clone)]
pub struct Task {
    pub id: u128,
    pub text: String,
    pub done: bool,
}

pub struct TaskView {
    pub id: u128,
    pub text: Seq<char>,
    pub done: bool,
}

impl View for Task {
    type V = TaskView;

    open spec fn view(&self) -> TaskView {
        TaskView { id: self.id, text: self.text@, done: self.done }
    }
}

/// The views of a list of tasks.
pub open spec fn views(v: Seq<Task>) -> Seq<TaskView> {
    v.map_values(|t: Task| t@)
}

/// `t` with its completion flipped.
pub open spec fn toggled(t: TaskView) -> TaskView {
    TaskView { done: !t.done, ..t }
}

/// `i` is the first position of a task with identifier `id`.
pub open spec fn first_with_id(s: Seq<TaskView>, id: u128, i: int) -> bool {
    &&& 0 <= i < s.len()
    &&& s[i].id == id
    &&& forall|k: int| 0 <= k < i ==> s[k].id != id
}

/// The tasks of `s` whose identifier is not `id`, in order.
pub open spec fn without_id(s: Seq<TaskView>, id: u128) -> Seq<TaskView> {
    s.filter(|t: TaskView| t.id != id)
}

impl Task {
    /// A field-by-field copy.
    pub fn duplicate(&self) -> (r: Task)
        ensures
            r@ == self@,
    {
        Task { id: self.id, text: self.text.clone(), done: self.done }
    }
}

/// A copy of every task, in order.
pub fn get_todos(todos: &Vec<Task>) -> (r: Vec<Task>)
    ensures
        views(r@) == views(todos@),
{
    let mut r: Vec<Task> = Vec::new();
    let mut i: usize = 0;
    while i < todos.len()
        invariant
            i <= todos.len(),
            views(r@) == views(todos@).take(i as int),
        decreases todos.len() - i,
    {
        let ghost before = views(r@);
        let t = todos[i].duplicate();
        r.push(t);
        assert(views(r@) =~= before.push(t@));
        assert(views(r@) =~= views(todos@).take(i + 1));
        i = i + 1;
    }
    assert(views(todos@).take(todos.len() as int) =~= views(todos@));
    r
}

/// Appends a new, not yet done task with a fresh identifier and the text
/// of `payload`, and returns it.
pub fn create_todo(todos: &mut Vec<Task>, payload: CreateTodo) -> (r: Task)
    ensures
        r.text@ == payload.text@,
        !r.done,
        views(final(todos)@) == views(old(todos)@).push(r@),
{
    let todo = Task { id: fresh_uuid(), text: payload.text, done: false };
    let r = todo.duplicate();
    todos.push(todo);
    assert(views(todos@) =~= views(old(todos)@).push(r@));
    r
}

/// Flips the completion of the first task with identifier `id` and returns
/// it as it now is; `None`, with nothing changed, when there is none.
pub fn toggle_todo(todos: &mut Vec<Task>, id: u128) -> (r: Option<Task>)
    ensures
        r is None <==> forall|k: int| 0 <= k < old(todos)@.len() ==> old(todos)@[k].id != id,
        r is None ==> views(final(todos)@) == views(old(todos)@),
        r is Some ==> exists|i: int|
            first_with_id(views(old(todos)@), id, i) && r->0@ == toggled(views(old(todos)@)[i])
                && views(final(todos)@) == views(old(todos)@).update(i, r->0@),
{
    let mut i: usize = 0;
    while i < todos.len()
        invariant
            todos@ == old(todos)@,
            i <= todos.len(),
            forall|k: int| 0 <= k < i ==> todos@[k].id != id,
        decreases todos.len() - i,
    {
        if todos[i].id == id {
            let ghost before = views(todos@);
            let flipped = Task { id: todos[i].id, text: todos[i].text.clone(), done: !todos[i].done };
            let r = flipped.duplicate();
            todos.set(i, flipped);
            assert(views(todos@) =~= before.update(i as int, r@));
            assert(first_with_id(before, id, i as int));
            return Some(r);
        }
        i = i + 1;
    }
    None
}

/// Removes every task with identifier `id`; returns whether any was removed.
pub fn delete_todo(todos: &mut Vec<Task>, id: u128) -> (removed: bool)
    ensures
        views(final(todos)@) == without_id(views(old(todos)@), id),
        removed == exists|k: int| 0 <= k < old(todos)@.len() && old(todos)@[k].id == id,
{
    let ghost s = views(todos@);
    let mut kept: Vec<Task> = Vec::new();
    let mut removed = false;
    let mut i: usize = 0;
    proof {
        reveal(Seq::filter);
    }
    assert(views(kept@) =~= without_id(s.take(0), id));
    while i < todos.len()
        invariant
            s == views(todos@),
            todos@ == old(todos)@,
            i <= todos.len(),
            views(kept@) == without_id(s.take(i as int), id),
            removed == exists|k: int| 0 <= k < i && todos@[k].id == id,
        decreases todos.len() - i,
    {
        let ghost before = views(kept@);
        if todos[i].id != id {
            kept.push(todos[i].duplicate());
            assert(views(kept@) =~= before.push(s[i as int]));
        } else {
            removed = true;
        }
        proof {
            reveal(Seq::filter);
            assert(s.take(i + 1).drop_last() =~= s.take(i as int));
            assert(s.take(i + 1).last() == s[i as int]);
        }
        i = i + 1;
    }
    assert(s.take(s.len() as int) =~= s);
    *todos = kept;
    removed
}

} // verus!

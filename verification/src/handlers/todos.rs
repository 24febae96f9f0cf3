//! The list of things to do that a job keeps.
use vstd::prelude::*;
use vstd::string::*;
use crate::text::{decimal, render_usize, same_text, text2, text3};

verus! {

/// A thing to do.
#[derive(Debug)]
pub struct Todo {
    pub content: String,
    pub status: String,
}

/// How many of the first `k` things are done.
pub open spec fn completed_count(todos: Seq<Todo>, k: int) -> nat
    decreases k,
{
    if k <= 0 {
        0
    } else {
        completed_count(todos, k - 1) + if todos[k - 1].status@ == "completed"@ {
            1nat
        } else {
            0
        }
    }
}

/// How the list of a job was replaced.
#[derive(Debug)]
pub enum TodoWrite {
    InvalidPayload(String),
    DatabaseError(String),
    /// The calling run is not known.
    NoRun(String),
    Failed(String),
    Replaced(Vec<Todo>),
}

/// The answer to a list that was written.
pub open spec fn todo_answer(write: TodoWrite) -> Seq<char> {
    match write {
        TodoWrite::InvalidPayload(error) => "Invalid payload: "@ + error@,
        TodoWrite::DatabaseError(error) => "Database error: "@ + error@,
        TodoWrite::NoRun(error) => error@,
        TodoWrite::Failed(error) => "Failed to write todos: "@ + error@,
        TodoWrite::Replaced(todos) => "Updated "@ + decimal(todos@.len()) + " todos ("@ + decimal(
            completed_count(todos@, todos@.len() as int),
        ) + " completed)"@,
    }
}

/// How many things are done.
fn count_completed(todos: &Vec<Todo>) -> (count: usize)
    ensures
        count == completed_count(todos@, todos@.len() as int),
{
    let mut count: usize = 0;
    let mut k: usize = 0;
    while k < todos.len()
        invariant
            k <= todos@.len(),
            count <= k,
            count == completed_count(todos@, k as int),
        decreases todos.len() - k,
    {
        if same_text(todos[k].status.as_str(), "completed") {
            count += 1;
        }
        k += 1;
    }
    count
}

/// The answer to a list that was written: how long it is, and how much of it is
/// done, or what went wrong.
pub fn handle_todo_write(write: TodoWrite) -> (answer: String)
    ensures
        answer@ == todo_answer(write),
{
    match write {
        TodoWrite::InvalidPayload(error) => text2("Invalid payload: ", error.as_str()),
        TodoWrite::DatabaseError(error) => text2("Database error: ", error.as_str()),
        TodoWrite::NoRun(error) => error,
        TodoWrite::Failed(error) => text2("Failed to write todos: ", error.as_str()),
        TodoWrite::Replaced(todos) => {
            let done: usize = count_completed(&todos);
            let mut answer = text3("Updated ", render_usize(todos.len()).as_str(), " todos (");
            answer.append(render_usize(done).as_str());
            answer.append(" completed)");
            answer
        },
    }
}

/// No more things are done than there are.
pub proof fn law_completed_are_among_the_todos(todos: Seq<Todo>, k: int)
    requires
        0 <= k <= todos.len(),
    ensures
        completed_count(todos, k) <= k,
    decreases k,
{
    if k > 0 {
        law_completed_are_among_the_todos(todos, k - 1);
    }
}

/// The count of the completed is that of the todos whose status says so: each one adds one,
/// and no other adds any.
pub proof fn law_only_completed_todos_count(todos: Seq<Todo>, k: int)
    requires
        0 <= k < todos.len(),
    ensures
        todos[k].status@ == "completed"@ ==> completed_count(todos, k + 1) == completed_count(
            todos,
            k,
        ) + 1,
        todos[k].status@ != "completed"@ ==> completed_count(todos, k + 1) == completed_count(
            todos,
            k,
        ),
        completed_count(todos, 0) == 0,
{
}

/// The answer says how many todos there are now and how many of them are completed; where
/// they were not written, it says why.
pub proof fn law_answer_tells_what_was_written(todos: Vec<Todo>, error: String)
    ensures
        todo_answer(TodoWrite::Replaced(todos)) == "Updated "@ + decimal(todos@.len())
            + " todos ("@ + decimal(completed_count(todos@, todos@.len() as int))
            + " completed)"@,
        todo_answer(TodoWrite::InvalidPayload(error)) == "Invalid payload: "@ + error@,
        todo_answer(TodoWrite::DatabaseError(error)) == "Database error: "@ + error@,
        todo_answer(TodoWrite::NoRun(error)) == error@,
        todo_answer(TodoWrite::Failed(error)) == "Failed to write todos: "@ + error@,
{
}

} // verus!

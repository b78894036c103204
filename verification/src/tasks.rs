//! The two lists of tasks kept for each kind of task, and one task.

use vstd::prelude::*;

verus! {

/// One task. A regular task only has its text; a deadline task also has a
/// date (`YYYY-MM-DD`) and a time (`HH:MM`); a repeating task has all fields.
#[derive(Clone, Debug, PartialEq, Eq)]
pub struct Task {
    pub task: String,
    pub date: Option<String>,
    pub time: Option<String>,
    pub repeat_number: Option<u32>,
    pub repeat_unit: Option<String>,
    pub repeat_done: Option<bool>,
    pub repeat_original_date: Option<String>,
    pub repeat_original_time: Option<String>,
}

/// The todo list and the done list of one kind of task.
#[derive(Clone, Debug, PartialEq, Eq)]
pub struct Tasks {
    pub todo: Vec<Task>,
    pub done: Vec<Task>,
}

/// A task with the given text and no other field set.
pub open spec fn plain_task(text: String) -> Task {
    Task {
        task: text,
        date: None,
        time: None,
        repeat_number: None,
        repeat_unit: None,
        repeat_done: None,
        repeat_original_date: None,
        repeat_original_time: None,
    }
}

/// A task with the given text, date and time and no repeat fields.
pub open spec fn deadline_task(text: String, date: String, time: String) -> Task {
    Task {
        task: text,
        date: Some(date),
        time: Some(time),
        repeat_number: None,
        repeat_unit: None,
        repeat_done: None,
        repeat_original_date: None,
        repeat_original_time: None,
    }
}

impl Task {
    /// A task with the given text and no other field set.
    pub fn plain(text: String) -> (t: Task)
        ensures
            t == plain_task(text),
    {
        Task {
            task: text,
            date: None,
            time: None,
            repeat_number: None,
            repeat_unit: None,
            repeat_done: None,
            repeat_original_date: None,
            repeat_original_time: None,
        }
    }

    /// A task with a deadline.
    pub fn with_deadline(text: String, date: String, time: String) -> (t: Task)
        ensures
            t == deadline_task(text, date, time),
    {
        Task {
            task: text,
            date: Some(date),
            time: Some(time),
            repeat_number: None,
            repeat_unit: None,
            repeat_done: None,
            repeat_original_date: None,
            repeat_original_time: None,
        }
    }
}

impl Tasks {
    /// Two empty lists.
    pub fn empty() -> (t: Tasks)
        ensures
            t.todo@.len() == 0,
            t.done@.len() == 0,
    {
        Tasks { todo: Vec::new(), done: Vec::new() }
    }
}

/// The value a task file gives a missing `date` field.
pub fn return_default_date() -> (r: Option<String>)
    ensures
        r is None,
{
    None
}

/// The value a task file gives a missing `time` field.
pub fn return_default_time() -> (r: Option<String>)
    ensures
        r is None,
{
    None
}

/// The value a task file gives a missing `repeat_number` field.
pub fn return_default_repeat_number() -> (r: Option<u32>)
    ensures
        r is None,
{
    None
}

/// The value a task file gives a missing `repeat_unit` field.
pub fn return_default_repeat_unit() -> (r: Option<String>)
    ensures
        r is None,
{
    None
}

/// The value a task file gives a missing `repeat_done` field.
pub fn return_default_repeat_done() -> (r: Option<bool>)
    ensures
        r is None,
{
    None
}

/// The value a task file gives a missing `repeat_original_date` field.
pub fn return_default_repeat_original_date() -> (r: Option<String>)
    ensures
        r is None,
{
    None
}

/// The value a task file gives a missing `repeat_original_time` field.
pub fn return_default_repeat_original_time() -> (r: Option<String>)
    ensures
        r is None,
{
    None
}

} // verus!

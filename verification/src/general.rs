//! Commands that act on several kinds of task at once.

use vstd::prelude::*;
use crate::errors::TaskError;
use crate::tasks::Tasks;

verus! {

/// Both lists of `t` are empty.
pub open spec fn both_empty(t: Tasks) -> bool {
    t.todo@.len() == 0 && t.done@.len() == 0
}

/// Empties both lists of `t`.
fn clear_both(t: &mut Tasks)
    ensures
        both_empty(*final(t)),
{
    t.todo.clear();
    t.done.clear();
}

/// Empties every list of the regular, deadline and repeating tasks; refused,
/// with nothing changed, when all six are already empty.
pub fn clear_all_lists(regular_tasks: &mut Tasks, deadline_tasks: &mut Tasks, repeating_tasks: &mut Tasks) -> (r: Result<(), TaskError>)
    ensures
        r is Err <==> both_empty(*old(regular_tasks)) && both_empty(*old(deadline_tasks))
            && both_empty(*old(repeating_tasks)),
        r matches Err(e) ==> e == TaskError::ListsEmpty,
        r is Err ==> *final(regular_tasks) == *old(regular_tasks) && *final(deadline_tasks) == *old(
            deadline_tasks,
        ) && *final(repeating_tasks) == *old(repeating_tasks),
        r is Ok ==> both_empty(*final(regular_tasks)) && both_empty(*final(deadline_tasks))
            && both_empty(*final(repeating_tasks)),
{
    if regular_tasks.todo.len() == 0 && regular_tasks.done.len() == 0 && deadline_tasks.todo.len()
        == 0 && deadline_tasks.done.len() == 0 && repeating_tasks.todo.len() == 0
        && repeating_tasks.done.len() == 0 {
        return Err(TaskError::ListsEmpty);
    }
    clear_both(regular_tasks);
    clear_both(deadline_tasks);
    clear_both(repeating_tasks);
    Ok(())
}

/// Empties both lists of `tasks`; refused, with nothing changed, when both
/// are already empty.
fn clear_one_kind(tasks: &mut Tasks) -> (r: Result<(), TaskError>)
    ensures
        r is Err <==> both_empty(*old(tasks)),
        r matches Err(e) ==> e == TaskError::ListsEmpty,
        r is Err ==> *final(tasks) == *old(tasks),
        r is Ok ==> both_empty(*final(tasks)),
{
    if tasks.todo.len() == 0 && tasks.done.len() == 0 {
        return Err(TaskError::ListsEmpty);
    }
    clear_both(tasks);
    Ok(())
}

/// Empties both lists of regular tasks; refused when both are empty.
pub fn clear_regular_tasks(regular_tasks: &mut Tasks) -> (r: Result<(), TaskError>)
    ensures
        r is Err <==> both_empty(*old(regular_tasks)),
        r matches Err(e) ==> e == TaskError::ListsEmpty,
        r is Err ==> *final(regular_tasks) == *old(regular_tasks),
        r is Ok ==> both_empty(*final(regular_tasks)),
{
    clear_one_kind(regular_tasks)
}

/// Empties both lists of deadline tasks; refused when both are empty.
pub fn clear_deadline_tasks(deadline_tasks: &mut Tasks) -> (r: Result<(), TaskError>)
    ensures
        r is Err <==> both_empty(*old(deadline_tasks)),
        r matches Err(e) ==> e == TaskError::ListsEmpty,
        r is Err ==> *final(deadline_tasks) == *old(deadline_tasks),
        r is Ok ==> both_empty(*final(deadline_tasks)),
{
    clear_one_kind(deadline_tasks)
}

/// Empties both lists of repeating tasks; refused when both are empty.
pub fn clear_repeating_tasks(repeating_tasks: &mut Tasks) -> (r: Result<(), TaskError>)
    ensures
        r is Err <==> both_empty(*old(repeating_tasks)),
        r matches Err(e) ==> e == TaskError::ListsEmpty,
        r is Err ==> *final(repeating_tasks) == *old(repeating_tasks),
        r is Ok ==> both_empty(*final(repeating_tasks)),
{
    clear_one_kind(repeating_tasks)
}

} // verus!

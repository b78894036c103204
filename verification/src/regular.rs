//! Commands on the regular tasks: tasks with nothing but a text.

use vstd::prelude::*;
use crate::errors::TaskError;
use crate::list_ops::{
    selection_error, outcome, selected, edit_target, move_selected, remove_selected,
    check_edit_target,
};
use crate::positions::{drop_positions, take_positions_desc};
use crate::tasks::{Task, Tasks, plain_task};

verus! {

/// Adds a regular todo task for every argument, in order.
pub fn regular_tasks_add_todo(regular_tasks: &mut Tasks, add_todo: Vec<String>)
    ensures
        final(regular_tasks).done@ == old(regular_tasks).done@,
        final(regular_tasks).todo@ == old(regular_tasks).todo@ + add_todo@.map_values(
            |s: String| plain_task(s),
        ),
{
    let ghost start = regular_tasks.todo@;
    let mut index: usize = 0;
    while index < add_todo.len()
        invariant
            index <= add_todo@.len(),
            regular_tasks.done@ == old(regular_tasks).done@,
            start == old(regular_tasks).todo@,
            regular_tasks.todo@ == start + add_todo@.take(index as int).map_values(
                |s: String| plain_task(s),
            ),
        decreases add_todo@.len() - index,
    {
        let new_task = Task::plain(add_todo[index].clone());
        regular_tasks.todo.push(new_task);
        assert(add_todo@.take(index + 1).map_values(|s: String| plain_task(s)) =~= add_todo@.take(
            index as int,
        ).map_values(|s: String| plain_task(s)).push(plain_task(add_todo@[index as int])));
        index = index + 1;
    }
    assert(add_todo@.take(index as int) =~= add_todo@);
}

/// Marks the regular todo tasks at the positions the arguments select (numbers
/// and ranges such as `2-4`) as done: they move to the end of the done list,
/// the highest position first.
pub fn regular_tasks_change_todo_to_done(regular_tasks: &mut Tasks, todo_to_done: Vec<String>) -> (r:
    Result<(), TaskError>)
    requires
        old(regular_tasks).todo@.len() < usize::MAX,
    ensures
        r == outcome(
            selection_error(
                old(regular_tasks).todo@.len(),
                selected(todo_to_done@, old(regular_tasks).todo@.len(), true),
            ),
        ),
        r is Err ==> final(regular_tasks).todo@ == old(regular_tasks).todo@ && final(regular_tasks).done@ == old(regular_tasks).done@,
        r is Ok ==> final(regular_tasks).todo@ == drop_positions(
            old(regular_tasks).todo@,
            selected(todo_to_done@, old(regular_tasks).todo@.len(), true),
        ) && final(regular_tasks).done@ == old(regular_tasks).done@ + take_positions_desc(
            old(regular_tasks).todo@,
            selected(todo_to_done@, old(regular_tasks).todo@.len(), true),
        ),
{
    move_selected(&mut regular_tasks.todo, &mut regular_tasks.done, todo_to_done, true)
}

/// Removes the regular todo tasks at the positions the arguments select
/// (numbers and ranges).
pub fn regular_tasks_remove_todo(regular_tasks: &mut Tasks, todo_to_remove: Vec<String>) -> (r:
    Result<(), TaskError>)
    requires
        old(regular_tasks).todo@.len() < usize::MAX,
    ensures
        r == outcome(
            selection_error(
                old(regular_tasks).todo@.len(),
                selected(todo_to_remove@, old(regular_tasks).todo@.len(), true),
            ),
        ),
        final(regular_tasks).done@ == old(regular_tasks).done@,
        r is Err ==> final(regular_tasks).todo@ == old(regular_tasks).todo@,
        r is Ok ==> final(regular_tasks).todo@ == drop_positions(
            old(regular_tasks).todo@,
            selected(todo_to_remove@, old(regular_tasks).todo@.len(), true),
        ),
{
    remove_selected(&mut regular_tasks.todo, todo_to_remove, true)
}

/// Empties the regular todo list; refused when it is already empty.
pub fn regular_tasks_clear_todo(regular_tasks: &mut Tasks) -> (r: Result<(), TaskError>)
    ensures
        r is Err <==> old(regular_tasks).todo@.len() == 0,
        r matches Err(e) ==> e == TaskError::EmptyList,
        final(regular_tasks).done@ == old(regular_tasks).done@,
        final(regular_tasks).todo@.len() == 0,
{
    if regular_tasks.todo.len() == 0 {
        return Err(TaskError::EmptyList);
    }
    regular_tasks.todo.clear();
    Ok(())
}

/// Marks every regular todo task as done. When the two lists together hold
/// more than 30 tasks, the done list is emptied first.
pub fn regular_tasks_change_all_todo_to_done(regular_tasks: &mut Tasks) -> (r: Result<
    (),
    TaskError,
>)
    ensures
        r is Err <==> old(regular_tasks).todo@.len() == 0,
        r matches Err(e) ==> e == TaskError::EmptyList,
        r is Err ==> final(regular_tasks).todo@ == old(regular_tasks).todo@ && final(regular_tasks).done@ == old(regular_tasks).done@,
        r is Ok ==> final(regular_tasks).todo@.len() == 0 && final(regular_tasks).done@ == (if old(regular_tasks).todo@.len() + old(regular_tasks).done@.len() > 30 {
            old(regular_tasks).todo@
        } else {
            old(regular_tasks).done@ + old(regular_tasks).todo@
        }),
{
    if regular_tasks.todo.len() == 0 {
        return Err(TaskError::EmptyList);
    }
    if regular_tasks.todo.len() > 30 || regular_tasks.done.len() > 30 - regular_tasks.todo.len() {
        regular_tasks.done.clear();
    }
    let ghost done_before = regular_tasks.done@;
    regular_tasks.done.append(&mut regular_tasks.todo);
    assert(done_before.len() == 0 ==> done_before + old(regular_tasks).todo@ =~= old(regular_tasks).todo@);
    Ok(())
}

/// Changes the text of one regular todo task: the arguments are its position
/// and the new text.
pub fn regular_tasks_edit_todo(regular_tasks: &mut Tasks, position_and_new: Vec<String>) -> (r:
    Result<(), TaskError>)
    ensures
        r matches Err(e) ==> edit_target(position_and_new@, old(regular_tasks).todo@.len(), 2)
            == Err::<nat, TaskError>(e),
        r is Ok ==> edit_target(position_and_new@, old(regular_tasks).todo@.len(), 2) is Ok,
        final(regular_tasks).done@ == old(regular_tasks).done@,
        r is Err ==> final(regular_tasks).todo@ == old(regular_tasks).todo@,
        r is Ok ==> ({
            let p = edit_target(position_and_new@, old(regular_tasks).todo@.len(), 2)->Ok_0;
            final(regular_tasks).todo@ == old(regular_tasks).todo@.update(
                p - 1,
                Task { task: position_and_new@[1], ..old(regular_tasks).todo@[p - 1] },
            )
        }),
{
    let position = match check_edit_target(&position_and_new, regular_tasks.todo.len(), 2) {
        Ok(p) => p,
        Err(e) => {
            return Err(e);
        },
    };
    let new_text = position_and_new[1].clone();
    regular_tasks.todo[position - 1].task = new_text;
    Ok(())
}

/// Empties the regular done list; refused when it is already empty.
pub fn regular_tasks_clear_done(regular_tasks: &mut Tasks) -> (r: Result<(), TaskError>)
    ensures
        r is Err <==> old(regular_tasks).done@.len() == 0,
        r matches Err(e) ==> e == TaskError::EmptyList,
        final(regular_tasks).todo@ == old(regular_tasks).todo@,
        final(regular_tasks).done@.len() == 0,
{
    if regular_tasks.done.len() == 0 {
        return Err(TaskError::EmptyList);
    }
    regular_tasks.done.clear();
    Ok(())
}

/// Moves every regular done task back to the end of the todo list, in order.
pub fn regular_tasks_reverse_all_dones(regular_tasks: &mut Tasks) -> (r: Result<(), TaskError>)
    ensures
        r is Err <==> old(regular_tasks).done@.len() == 0,
        r matches Err(e) ==> e == TaskError::EmptyList,
        r is Err ==> final(regular_tasks).todo@ == old(regular_tasks).todo@,
        r is Ok ==> final(regular_tasks).todo@ == old(regular_tasks).todo@ + old(regular_tasks).done@,
        final(regular_tasks).done@.len() == 0,
{
    if regular_tasks.done.len() == 0 {
        return Err(TaskError::EmptyList);
    }
    regular_tasks.todo.append(&mut regular_tasks.done);
    Ok(())
}

/// Removes the regular done tasks at the positions the arguments select
/// (numbers and ranges such as `5-8`), the highest position first.
pub fn regular_tasks_remove_done(regular_tasks: &mut Tasks, done_to_remove: Vec<String>) -> (r:
    Result<(), TaskError>)
    requires
        old(regular_tasks).done@.len() < usize::MAX,
    ensures
        r == outcome(
            selection_error(
                old(regular_tasks).done@.len(),
                selected(done_to_remove@, old(regular_tasks).done@.len(), true),
            ),
        ),
        final(regular_tasks).todo@ == old(regular_tasks).todo@,
        r is Err ==> final(regular_tasks).done@ == old(regular_tasks).done@,
        r is Ok ==> final(regular_tasks).done@ == drop_positions(
            old(regular_tasks).done@,
            selected(done_to_remove@, old(regular_tasks).done@.len(), true),
        ),
{
    remove_selected(&mut regular_tasks.done, done_to_remove, true)
}

/// Moves the regular done tasks at the positions the arguments select
/// (numbers and ranges) back to the end of the todo list, the highest
/// position first.
pub fn regular_tasks_not_done(regular_tasks: &mut Tasks, done_to_todo: Vec<String>) -> (r: Result<
    (),
    TaskError,
>)
    requires
        old(regular_tasks).done@.len() < usize::MAX,
    ensures
        r == outcome(
            selection_error(
                old(regular_tasks).done@.len(),
                selected(done_to_todo@, old(regular_tasks).done@.len(), true),
            ),
        ),
        r is Err ==> final(regular_tasks).todo@ == old(regular_tasks).todo@ && final(regular_tasks).done@ == old(regular_tasks).done@,
        r is Ok ==> final(regular_tasks).done@ == drop_positions(
            old(regular_tasks).done@,
            selected(done_to_todo@, old(regular_tasks).done@.len(), true),
        ) && final(regular_tasks).todo@ == old(regular_tasks).todo@ + take_positions_desc(
            old(regular_tasks).done@,
            selected(done_to_todo@, old(regular_tasks).done@.len(), true),
        ),
{
    move_selected(&mut regular_tasks.done, &mut regular_tasks.todo, done_to_todo, true)
}

} // verus!

//! The first commands on the plain todo and done lists, where an added item
//! may be up to 150 bytes long.

use vstd::prelude::*;
use crate::commands::{
    add_item_within, add_refusal, item_position, picked_item, position_check_fits, shown_lists,
    empty_todo,
};
use crate::errors::ListError;

verus! {

/// The text that shows the plain lists, each item with its position.
pub fn list(todo_buf: Vec<String>, done_buf: Vec<String>) -> (r: String)
    requires
        todo_buf@.len() <= i32::MAX,
        done_buf@.len() <= i32::MAX,
    ensures
        shown_lists(todo_buf@, done_buf@, r@),
{
    crate::commands::list(todo_buf, done_buf)
}

/// Adds `add_item` to the todo list; refused when it is empty, is the
/// separator line, or is longer than 150 bytes once trimmed.
pub fn add_todo_item(todo_buf: &mut Vec<String>, add_item: String) -> (r: Result<(), ListError>)
    ensures
        r == (match add_refusal(add_item@, 150) {
            Some(e) => Err(e),
            None => Ok(()),
        }),
        r is Err ==> final(todo_buf)@ == old(todo_buf)@,
        r is Ok ==> final(todo_buf)@ == old(todo_buf)@.push(add_item),
{
    add_item_within(todo_buf, add_item, 150)
}

/// Moves the todo item at `position` to the end of the done list and gives
/// it back; refused, with nothing changed, when `position` names no item.
pub fn change_todo_item_to_done(todo_buf: &mut Vec<String>, done_buf: &mut Vec<String>, position: String) -> (r: Result<String, ListError>)
    requires
        position_check_fits(position@, old(todo_buf)@.len()),
    ensures
        r == picked_item(old(todo_buf)@, position@),
        r is Err ==> final(todo_buf)@ == old(todo_buf)@ && final(done_buf)@ == old(done_buf)@,
        r matches Ok(item) ==> final(todo_buf)@ == old(todo_buf)@.remove(
            item_position(position@, old(todo_buf)@.len())->Ok_0 as int,
        ) && final(done_buf)@ == old(done_buf)@.push(item),
{
    crate::commands::change_todo_item_to_done(todo_buf, done_buf, position)
}

/// Removes the todo item at `position` and gives it back; refused, with
/// nothing changed, when `position` names no item.
pub fn remove_todo_item(todo_buf: &mut Vec<String>, position: String) -> (r: Result<String, ListError>)
    requires
        position_check_fits(position@, old(todo_buf)@.len()),
    ensures
        r == picked_item(old(todo_buf)@, position@),
        r is Err ==> final(todo_buf)@ == old(todo_buf)@,
        r is Ok ==> final(todo_buf)@ == old(todo_buf)@.remove(
            item_position(position@, old(todo_buf)@.len())->Ok_0 as int,
        ),
{
    crate::commands::remove_todo_item(todo_buf, position)
}

/// Empties the todo list down to its title line; refused when it has no items.
pub fn clear_todo_list(todo_buf: &mut Vec<String>) -> (r: Result<(), ListError>)
    ensures
        r is Err <==> old(todo_buf)@.len() == 1,
        r matches Err(e) ==> e == ListError::ListEmpty,
        r is Err ==> final(todo_buf)@ == old(todo_buf)@,
        r is Ok ==> final(todo_buf)@.len() == 1 && final(todo_buf)@[0]@ == empty_todo(),
{
    crate::commands::clear_todo_list(todo_buf)
}

} // verus!

//! Commands on the plain todo and done lists that take at most one
//! position. Each list is a title line followed by its items, so the item
//! at position `p` sits at index `p` of its list.

use vstd::prelude::*;
use vstd::string::*;
use crate::errors::ListError;
use crate::helpers::{items_of, separator, lists_text, numbered, add_positions_to_todo_and_done, lists_file_text};
use crate::listing::{trim_spec, trim};
use crate::text::{parse_unsigned, parse_decimal, utf8_len, utf8_len_exceeds, str_equal};

verus! {

/// The position an argument names in a list of `len` lines (the title line
/// included), or why it names none: it is empty, it is not a number from 0
/// to 255, the list has no items, it is 0, or it is past the last item.
pub open spec fn item_position(position: Seq<char>, len: nat) -> Result<nat, ListError> {
    if position.len() == 0 {
        Err(ListError::PositionMissing)
    } else {
        match parse_unsigned(position, 255) {
            None => Err(ListError::PositionNotANumber),
            Some(p) => if len == 1 {
                Err(ListError::ListEmpty)
            } else if p == 0 {
                Err(ListError::PositionZero)
            } else if p > len - 1 {
                Err(ListError::PositionTooLarge)
            } else {
                Ok(p)
            },
        }
    }
}

/// The checks of `item_position` can be made on a list of `len` lines: the
/// last two need a title line, and the last compares with the item count
/// as a byte.
pub open spec fn position_check_fits(position: Seq<char>, len: nat) -> bool {
    (position.len() > 0 && parse_unsigned(position, 255) is Some && len != 1) ==> (1 <= len && (
    parse_unsigned(position, 255)->Some_0 != 0 ==> len <= 256))
}

/// Whether the checks of `item_position` can be made on a list of `len` lines.
pub fn position_check_can_run(position: &String, len: usize) -> (b: bool)
    ensures
        b == position_check_fits(position@, len as nat),
{
    if position.unicode_len() == 0 || len == 1 {
        return true;
    }
    match parse_decimal(position.as_str(), 255) {
        None => true,
        Some(p) => 1 <= len && (p == 0 || len <= 256),
    }
}

/// Reads the position that `position` names in a list of `len` lines.
pub(crate) fn check_position(position: &String, len: usize) -> (r: Result<usize, ListError>)
    requires
        position_check_fits(position@, len as nat),
    ensures
        r matches Ok(p) ==> item_position(position@, len as nat) == Ok::<nat, ListError>(p as nat),
        r matches Err(e) ==> item_position(position@, len as nat) == Err::<nat, ListError>(e),
{
    if position.unicode_len() == 0 {
        return Err(ListError::PositionMissing);
    }
    let p = match parse_decimal(position.as_str(), 255) {
        None => {
            return Err(ListError::PositionNotANumber);
        },
        Some(p) => p,
    };
    if len == 1 {
        return Err(ListError::ListEmpty);
    }
    if p == 0 {
        return Err(ListError::PositionZero);
    }
    if p > len - 1 {
        return Err(ListError::PositionTooLarge);
    }
    Ok(p)
}

/// What a command that moves or removes the item at `position` of `src`
/// reports: the item, or why it refused.
pub open spec fn picked_item(src: Seq<String>, position: Seq<char>) -> Result<String, ListError> {
    match item_position(position, src.len()) {
        Ok(p) => Ok(src[p as int]),
        Err(e) => Err(e),
    }
}

/// Why adding `item` to a list whose items may be `limit` bytes long is
/// refused, if it is: it is empty, it is the separator line once trimmed, or
/// it is longer than `limit` bytes once trimmed.
pub open spec fn add_refusal(item: Seq<char>, limit: nat) -> Option<ListError> {
    if item.len() == 0 {
        Some(ListError::EmptyItem)
    } else if trim_spec(item) == separator() {
        Some(ListError::InvalidItem)
    } else if utf8_len(trim_spec(item)) > limit {
        Some(ListError::ItemTooLong)
    } else {
        None
    }
}

/// Adds `add_item` at the end of the todo list, unless it is refused.
pub(crate) fn add_item_within(todo_buf: &mut Vec<String>, add_item: String, limit: usize) -> (r: Result<(), ListError>)
    requires
        limit < usize::MAX - 4,
    ensures
        r == (match add_refusal(add_item@, limit as nat) {
            Some(e) => Err(e),
            None => Ok(()),
        }),
        r is Err ==> final(todo_buf)@ == old(todo_buf)@,
        r is Ok ==> final(todo_buf)@ == old(todo_buf)@.push(add_item),
{
    if add_item.unicode_len() == 0 {
        return Err(ListError::EmptyItem);
    }
    let trimmed = trim(add_item.as_str());
    if str_equal(trimmed.as_str(), "-----") {
        return Err(ListError::InvalidItem);
    }
    if utf8_len_exceeds(trimmed.as_str(), limit) {
        return Err(ListError::ItemTooLong);
    }
    todo_buf.push(add_item);
    Ok(())
}

/// The text the plain lists are shown with: both lists with their items
/// numbered, separated by the separator line.
pub open spec fn shown_lists(todo: Seq<String>, done: Seq<String>, text: Seq<char>) -> bool {
    exists|t: Seq<String>, d: Seq<String>|
        numbered(t, todo) && numbered(d, done) && text == #[trigger] lists_text(t, d)
}

/// The text that shows the plain lists, each item with its position.
pub fn list(todo_buf: Vec<String>, done_buf: Vec<String>) -> (r: String)
    requires
        todo_buf@.len() <= i32::MAX,
        done_buf@.len() <= i32::MAX,
    ensures
        shown_lists(todo_buf@, done_buf@, r@),
{
    let (t, d) = add_positions_to_todo_and_done(todo_buf, done_buf);
    let r = lists_file_text(&t, &d);
    assert(numbered(t@, todo_buf@) && numbered(d@, done_buf@) && r@ == lists_text(t@, d@));
    r
}

/// Adds `add_item` to the todo list; refused when it is empty, is the
/// separator line, or is longer than 50 bytes once trimmed.
pub fn add_todo_item(todo_buf: &mut Vec<String>, add_item: String) -> (r: Result<(), ListError>)
    ensures
        r == (match add_refusal(add_item@, 50) {
            Some(e) => Err(e),
            None => Ok(()),
        }),
        r is Err ==> final(todo_buf)@ == old(todo_buf)@,
        r is Ok ==> final(todo_buf)@ == old(todo_buf)@.push(add_item),
{
    add_item_within(todo_buf, add_item, 50)
}

/// Moves the todo item at `position` to the end of the done list and gives
/// it back; refused, with nothing changed, when `position` names no item.
pub fn change_todo_item_to_done(todo_buf: &mut Vec<String>, done_buf: &mut Vec<String>, position: String) -> (r: Result<String, ListError>)
    requires
        position_check_fits(position@, old(todo_buf)@.len()),
    ensures
        r == picked_item(old(todo_buf)@, position@),
        r is Err ==> final(todo_buf)@ == old(todo_buf)@ && final(done_buf)@ == old(done_buf)@,
        r matches Ok(item) ==> final(todo_buf)@ == old(todo_buf)@.remove(
            item_position(position@, old(todo_buf)@.len())->Ok_0 as int,
        ) && final(done_buf)@ == old(done_buf)@.push(item),
{
    let p = match check_position(&position, todo_buf.len()) {
        Ok(p) => p,
        Err(e) => {
            return Err(e);
        },
    };
    let item = todo_buf.remove(p);
    done_buf.push(item.clone());
    Ok(item)
}

/// Removes the item at `position` from `buf` and gives it back; refused,
/// with nothing changed, when `position` names no item.
pub(crate) fn remove_item_at(buf: &mut Vec<String>, position: String) -> (r: Result<String, ListError>)
    requires
        position_check_fits(position@, old(buf)@.len()),
    ensures
        r == picked_item(old(buf)@, position@),
        r is Err ==> final(buf)@ == old(buf)@,
        r is Ok ==> final(buf)@ == old(buf)@.remove(
            item_position(position@, old(buf)@.len())->Ok_0 as int,
        ),
{
    let p = match check_position(&position, buf.len()) {
        Ok(p) => p,
        Err(e) => {
            return Err(e);
        },
    };
    let item = buf.remove(p);
    Ok(item)
}

/// Removes the todo item at `position` and gives it back; refused, with
/// nothing changed, when `position` names no item.
pub fn remove_todo_item(todo_buf: &mut Vec<String>, position: String) -> (r: Result<String, ListError>)
    requires
        position_check_fits(position@, old(todo_buf)@.len()),
    ensures
        r == picked_item(old(todo_buf)@, position@),
        r is Err ==> final(todo_buf)@ == old(todo_buf)@,
        r is Ok ==> final(todo_buf)@ == old(todo_buf)@.remove(
            item_position(position@, old(todo_buf)@.len())->Ok_0 as int,
        ),
{
    remove_item_at(todo_buf, position)
}

/// The todo list's title line alone.
pub open spec fn empty_todo() -> Seq<char> {
    "CHARTODO"@
}

/// The done list's title line alone.
pub open spec fn empty_done() -> Seq<char> {
    "DONE"@
}

/// A list holding only the title line `title`.
pub(crate) fn titled(title: &str) -> (r: Vec<String>)
    ensures
        r@.len() == 1,
        r@[0]@ == title@,
{
    let mut v: Vec<String> = Vec::new();
    v.push(String::from_str(title));
    v
}

/// Empties the todo list down to its title line; refused when it has no items.
pub fn clear_todo_list(todo_buf: &mut Vec<String>) -> (r: Result<(), ListError>)
    ensures
        r is Err <==> old(todo_buf)@.len() == 1,
        r matches Err(e) ==> e == ListError::ListEmpty,
        r is Err ==> final(todo_buf)@ == old(todo_buf)@,
        r is Ok ==> final(todo_buf)@.len() == 1 && final(todo_buf)@[0]@ == empty_todo(),
{
    if todo_buf.len() == 1 {
        return Err(ListError::ListEmpty);
    }
    *todo_buf = titled("CHARTODO");
    Ok(())
}

/// Moves every todo item, in order, to the end of the done list; refused
/// when the todo list has no items.
pub fn change_all_todos_to_done(todo_buf: &mut Vec<String>, done_buf: &mut Vec<String>) -> (r: Result<(), ListError>)
    ensures
        r is Err <==> old(todo_buf)@.len() == 1,
        r matches Err(e) ==> e == ListError::ListEmpty,
        r is Err ==> final(todo_buf)@ == old(todo_buf)@ && final(done_buf)@ == old(done_buf)@,
        r is Ok ==> final(todo_buf)@.len() == 1 && final(todo_buf)@[0]@ == empty_todo()
            && final(done_buf)@ == old(done_buf)@ + items_of(old(todo_buf)@),
{
    if todo_buf.len() == 1 {
        return Err(ListError::ListEmpty);
    }
    let ghost d0 = done_buf@;
    let mut i: usize = 1;
    let ghost items = items_of(old(todo_buf)@);
    assert(items.take(0) =~= Seq::<String>::empty());
    assert(d0 + items.take(0) =~= d0);
    while i < todo_buf.len()
        invariant
            1 <= i,
            i <= todo_buf@.len() || i == 1,
            todo_buf@ == old(todo_buf)@,
            items == items_of(old(todo_buf)@),
            d0 == old(done_buf)@,
            done_buf@ == d0 + items.take(i - 1),
        decreases todo_buf@.len() - i,
    {
        done_buf.push(todo_buf[i].clone());
        assert(items.take(i as int) =~= items.take(i - 1).push(old(todo_buf)@[i as int]));
        i = i + 1;
    }
    proof {
        if old(todo_buf)@.len() == 0 {
            assert(items.take(0) =~= items);
        } else {
            assert(items.take(i - 1) =~= items);
        }
    }
    *todo_buf = titled("CHARTODO");
    Ok(())
}

/// Empties the done list down to its title line; refused when it has no items.
pub fn clear_done_list(done_buf: &mut Vec<String>) -> (r: Result<(), ListError>)
    ensures
        r is Err <==> old(done_buf)@.len() == 1,
        r matches Err(e) ==> e == ListError::ListEmpty,
        r is Err ==> final(done_buf)@ == old(done_buf)@,
        r is Ok ==> final(done_buf)@.len() == 1 && final(done_buf)@[0]@ == empty_done(),
{
    if done_buf.len() == 1 {
        return Err(ListError::ListEmpty);
    }
    *done_buf = titled("DONE");
    Ok(())
}

/// Empties both lists down to their title lines; refused when neither has items.
pub fn clear_both_lists(todo_buf: &mut Vec<String>, done_buf: &mut Vec<String>) -> (r: Result<(), ListError>)
    ensures
        r is Err <==> old(todo_buf)@.len() == 1 && old(done_buf)@.len() == 1,
        r matches Err(e) ==> e == ListError::ListsEmpty,
        r is Err ==> final(todo_buf)@ == old(todo_buf)@ && final(done_buf)@ == old(done_buf)@,
        r is Ok ==> final(todo_buf)@.len() == 1 && final(todo_buf)@[0]@ == empty_todo()
            && final(done_buf)@.len() == 1 && final(done_buf)@[0]@ == empty_done(),
{
    if todo_buf.len() == 1 && done_buf.len() == 1 {
        return Err(ListError::ListsEmpty);
    }
    *todo_buf = titled("CHARTODO");
    *done_buf = titled("DONE");
    Ok(())
}

/// Removes the done item at `position` and gives it back; refused, with
/// nothing changed, when `position` names no item.
pub fn remove_done_item(done_buf: &mut Vec<String>, position: String) -> (r: Result<String, ListError>)
    requires
        position_check_fits(position@, old(done_buf)@.len()),
    ensures
        r == picked_item(old(done_buf)@, position@),
        r is Err ==> final(done_buf)@ == old(done_buf)@,
        r is Ok ==> final(done_buf)@ == old(done_buf)@.remove(
            item_position(position@, old(done_buf)@.len())->Ok_0 as int,
        ),
{
    remove_item_at(done_buf, position)
}

/// Moves the done item at `position` back to the end of the todo list and
/// gives it back; refused, with nothing changed, when `position` names no item.
pub fn item_not_done(todo_buf: &mut Vec<String>, done_buf: &mut Vec<String>, position: String) -> (r: Result<String, ListError>)
    requires
        position_check_fits(position@, old(done_buf)@.len()),
    ensures
        r == picked_item(old(done_buf)@, position@),
        r is Err ==> final(todo_buf)@ == old(todo_buf)@ && final(done_buf)@ == old(done_buf)@,
        r matches Ok(item) ==> final(done_buf)@ == old(done_buf)@.remove(
            item_position(position@, old(done_buf)@.len())->Ok_0 as int,
        ) && final(todo_buf)@ == old(todo_buf)@.push(item),
{
    let item = remove_item_at(done_buf, position)?;
    todo_buf.push(item.clone());
    Ok(item)
}

/// Why editing the todo item at `position` to `new_item` is refused, if it
/// is: `position` names no item, the new text is empty, or it is longer
/// than 150 bytes.
pub open spec fn edit_refusal(todo: Seq<String>, position: Seq<char>, new_item: String) -> Option<ListError> {
    match item_position(position, todo.len()) {
        Err(e) => Some(e),
        Ok(_) => if new_item@.len() == 0 {
            Some(ListError::NewItemMissing)
        } else if utf8_len(new_item@) > 150 {
            Some(ListError::ItemTooLong)
        } else {
            None
        },
    }
}

/// Replaces the todo item at `position` by `new_todo_item` and gives back
/// the text it had; refused, with nothing changed, when `position` names no
/// item or the new text is empty or longer than 150 bytes.
pub fn edit_todo_item(todo_buf: &mut Vec<String>, position: String, new_todo_item: String) -> (r: Result<String, ListError>)
    requires
        position_check_fits(position@, old(todo_buf)@.len()),
    ensures
        r is Err <==> edit_refusal(old(todo_buf)@, position@, new_todo_item) is Some,
        r matches Err(e) ==> edit_refusal(old(todo_buf)@, position@, new_todo_item) == Some(e),
        r is Err ==> final(todo_buf)@ == old(todo_buf)@,
        r matches Ok(before) ==> before == old(todo_buf)@[item_position(position@, old(todo_buf)@.len())->Ok_0 as int]
            && final(todo_buf)@ == old(todo_buf)@.update(
            item_position(position@, old(todo_buf)@.len())->Ok_0 as int,
            new_todo_item,
        ),
{
    let p = check_position(&position, todo_buf.len())?;
    if new_todo_item.unicode_len() == 0 {
        return Err(ListError::NewItemMissing);
    }
    if utf8_len_exceeds(new_todo_item.as_str(), 150) {
        return Err(ListError::ItemTooLong);
    }
    let before = todo_buf[p].clone();
    todo_buf.set(p, new_todo_item);
    Ok(before)
}

} // verus!

//! Why a command refuses to change the lists.

use vstd::prelude::*;

verus! {

/// Why a command left the lists as they were.
#[derive(Debug, Clone, Copy, PartialEq, Eq, Structural)]
pub enum TaskError {
    /// The list the command works on is empty.
    EmptyList,
    /// None of the arguments is a position of the list.
    NoValidPositions,
    /// The arguments select every position of a list of more than five
    /// tasks; the command that works on the whole list should be used.
    WholeList,
    /// The command got this many arguments, which is not a number it takes.
    ArgumentCount(usize),
    /// The position argument is not a number.
    PositionNotANumber,
    /// The position argument is zero.
    PositionZero,
    /// The position argument exceeds the length of the list.
    PositionTooLarge,
    /// The date of this argument set (counted from 1) is not a valid `YYYY-MM-DD` date.
    InvalidDate(usize),
    /// The time of this argument set (counted from 1) is not a valid `HH:MM` time.
    InvalidTime(usize),
    /// Every list the command clears is already empty.
    ListsEmpty,
    /// The date and time of a repeating task that came due again do not read
    /// as `YYYY-MM-DD HH:MM`; the program stops here.
    DateTimeUnreadable,
    /// The next due date of a repeating task lies outside the dates that can
    /// be written; the program stops here.
    DateTimeOutOfRange,
}

/// Why a command on the plain todo and done lists (each headed by its
/// title line) left them as they were.
#[derive(Debug, Clone, Copy, PartialEq, Eq, Structural)]
pub enum ListError {
    /// No position was given.
    PositionMissing,
    /// The position is not a number from 0 to 255.
    PositionNotANumber,
    /// The list the command works on has no items.
    ListEmpty,
    /// The position is zero.
    PositionZero,
    /// The position is past the last item of the list.
    PositionTooLarge,
    /// The item to add is empty.
    EmptyItem,
    /// The item to add is the line that separates the two lists.
    InvalidItem,
    /// The item is longer than the list allows.
    ItemTooLong,
    /// No new text was given for the item being edited.
    NewItemMissing,
    /// Both lists are already empty.
    ListsEmpty,
    /// The positions given are at least as many as the done list has items.
    TooManyPositions,
    /// The todo list would hold more items than it may.
    TodoFull,
}

} // verus!

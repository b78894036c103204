//! The checks and list changes that the commands of every kind of task share.

use vstd::prelude::*;
use crate::errors::TaskError;
use crate::positions::{
    chosen_positions, candidates, covers_all, drop_positions, take_positions_desc, position_set,
    select_positions, lemma_count_covers_all,
};
use crate::text::{parse_usize, parse_usize_spec};

verus! {

/// Why a command that takes positions refuses a list of `len` tasks when the
/// arguments select the positions `p`: the list is empty, no argument is a
/// position, or every position of a list longer than five is selected.
pub open spec fn selection_error(len: nat, p: Set<int>) -> Option<TaskError> {
    if len == 0 {
        Some(TaskError::EmptyList)
    } else if p == Set::<int>::empty() {
        Some(TaskError::NoValidPositions)
    } else if len > 5 && covers_all(p, len) {
        Some(TaskError::WholeList)
    } else {
        None
    }
}

/// The result of a command that fails with `e`, if any.
pub open spec fn outcome(e: Option<TaskError>) -> Result<(), TaskError> {
    match e {
        Some(err) => Err(err),
        None => Ok(()),
    }
}

/// The positions of a list of `len` tasks that `args` select.
pub open spec fn selected(args: Seq<String>, len: nat, with_ranges: bool) -> Set<int> {
    chosen_positions(candidates(args, len, with_ranges), len)
}

/// Which task an edit command with `count` arguments changes in a list of
/// `len` tasks (its 1-based position, the first argument), or why it refuses.
pub open spec fn edit_target(args: Seq<String>, len: nat, count: nat) -> Result<nat, TaskError> {
    if len == 0 {
        Err(TaskError::EmptyList)
    } else if args.len() != count {
        Err(TaskError::ArgumentCount(args.len() as usize))
    } else {
        match parse_usize_spec(args[0]@) {
            None => Err(TaskError::PositionNotANumber),
            Some(p) => if p == 0 {
                Err(TaskError::PositionZero)
            } else if p > len {
                Err(TaskError::PositionTooLarge)
            } else {
                Ok(p)
            },
        }
    }
}

proof fn lemma_empty_selection(ps: Seq<usize>)
    ensures
        (ps.len() == 0) == (position_set(ps) == Set::<int>::empty()),
{
    if ps.len() > 0 {
        assert(position_set(ps).contains(ps[0] as int));
    } else {
        assert(position_set(ps) =~= Set::<int>::empty());
    }
}

/// Moves the tasks at the positions that `args` select from `src` to the end
/// of `dest`, the highest position first, unless the command is refused.
pub fn move_selected<A>(src: &mut Vec<A>, dest: &mut Vec<A>, args: Vec<String>, with_ranges: bool) -> (r:
    Result<(), TaskError>)
    requires
        old(src)@.len() < usize::MAX,
    ensures
        r == outcome(
            selection_error(old(src)@.len(), selected(args@, old(src)@.len(), with_ranges)),
        ),
        r is Err ==> final(src)@ == old(src)@ && final(dest)@ == old(dest)@,
        r is Ok ==> final(src)@ == drop_positions(
            old(src)@,
            selected(args@, old(src)@.len(), with_ranges),
        ) && final(dest)@ == old(dest)@ + take_positions_desc(
            old(src)@,
            selected(args@, old(src)@.len(), with_ranges),
        ),
{
    let len = src.len();
    if len == 0 {
        return Err(TaskError::EmptyList);
    }
    let ps = select_positions(args, len, with_ranges);
    proof {
        lemma_empty_selection(ps@);
        lemma_count_covers_all(ps@, len as nat);
    }
    if ps.len() == 0 {
        return Err(TaskError::NoValidPositions);
    }
    if ps.len() >= len && len > 5 {
        return Err(TaskError::WholeList);
    }
    crate::positions::move_positions(src, dest, &ps);
    Ok(())
}

/// Removes the tasks at the positions that `args` select from `list`,
/// unless the command is refused.
pub fn remove_selected<A>(list: &mut Vec<A>, args: Vec<String>, with_ranges: bool) -> (r: Result<
    (),
    TaskError,
>)
    requires
        old(list)@.len() < usize::MAX,
    ensures
        r == outcome(
            selection_error(old(list)@.len(), selected(args@, old(list)@.len(), with_ranges)),
        ),
        r is Err ==> final(list)@ == old(list)@,
        r is Ok ==> final(list)@ == drop_positions(
            old(list)@,
            selected(args@, old(list)@.len(), with_ranges),
        ),
{
    let len = list.len();
    if len == 0 {
        return Err(TaskError::EmptyList);
    }
    let ps = select_positions(args, len, with_ranges);
    proof {
        lemma_empty_selection(ps@);
        lemma_count_covers_all(ps@, len as nat);
    }
    if ps.len() == 0 {
        return Err(TaskError::NoValidPositions);
    }
    if ps.len() >= len && len > 5 {
        return Err(TaskError::WholeList);
    }
    crate::positions::remove_positions(list, &ps);
    Ok(())
}

/// Checks the arguments of an edit command that takes `count` arguments, the
/// first a position of a list of `len` tasks.
pub fn check_edit_target(args: &Vec<String>, len: usize, count: usize) -> (r: Result<
    usize,
    TaskError,
>)
    requires
        count >= 1,
    ensures
        r matches Ok(p) ==> edit_target(args@, len as nat, count as nat) == Ok::<nat, TaskError>(
            p as nat,
        ),
        r matches Err(e) ==> edit_target(args@, len as nat, count as nat) == Err::<nat, TaskError>(
            e,
        ),
{
    if len == 0 {
        return Err(TaskError::EmptyList);
    }
    if args.len() != count {
        return Err(TaskError::ArgumentCount(args.len()));
    }
    match parse_usize(args[0].as_str()) {
        None => Err(TaskError::PositionNotANumber),
        Some(p) => {
            if p == 0 {
                Err(TaskError::PositionZero)
            } else if p > len {
                Err(TaskError::PositionTooLarge)
            } else {
                Ok(p)
            }
        },
    }
}

} // verus!

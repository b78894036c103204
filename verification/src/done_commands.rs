//! Commands on the plain done list that take several positions at once.
//! The positions are read against the todo list's length, as they always
//! were, while the items are taken from the done list.

use vstd::prelude::*;
use crate::commands::{empty_done, titled};
use crate::errors::ListError;
use crate::helpers::items_of;
use crate::list_ops::selected;
use crate::positions::{
    drop_positions, take_positions_desc, position_set, select_positions, remove_positions,
    move_positions, lemma_position_set_len,
};
use crate::text::parse_usize_spec;

verus! {

/// The highest position the arguments may name: the todo list's item count.
pub open spec fn todo_bound(todo_len: nat) -> nat {
    if todo_len == 0 {
        0
    } else {
        (todo_len - 1) as nat
    }
}

/// The positions the arguments name: numbers from 1 to the todo list's item count.
pub open spec fn named_positions(args: Seq<String>, todo_len: nat) -> Set<int> {
    selected(args, todo_bound(todo_len), false)
}

/// Every argument that reads as a number reads as one of at most 255.
pub open spec fn numbers_fit_a_byte(args: Seq<String>) -> bool {
    forall|i: int|
        0 <= i < args.len() ==> (#[trigger] parse_usize_spec(args[i]@) matches Some(v) ==> v <= 255)
}

/// Once the count check passes, every named position is an item of the done list.
pub open spec fn positions_reach_done_items(p: Set<int>, done_len: nat) -> bool {
    p.len() < done_len - 1 ==> forall|q: int| #[trigger] p.contains(q) ==> q <= done_len - 1
}

/// Removes the done items at the positions the arguments name; refused
/// when they name at least as many positions as the done list has items.
pub fn remove_done_item(todo_buf: &Vec<String>, done_buf: &mut Vec<String>, dones_to_remove: Vec<String>) -> (r: Result<(), ListError>)
    requires
        numbers_fit_a_byte(dones_to_remove@),
        old(done_buf)@.len() >= 1,
        positions_reach_done_items(
            named_positions(dones_to_remove@, todo_buf@.len()),
            old(done_buf)@.len(),
        ),
    ensures
        r is Err <==> named_positions(dones_to_remove@, todo_buf@.len()).len() >= old(done_buf)@.len() - 1,
        r matches Err(e) ==> e == ListError::TooManyPositions,
        r is Err ==> final(done_buf)@ == old(done_buf)@,
        r is Ok ==> final(done_buf)@ == old(done_buf)@.take(1) + drop_positions(
            items_of(old(done_buf)@),
            named_positions(dones_to_remove@, todo_buf@.len()),
        ),
{
    let ghost sel = named_positions(dones_to_remove@, todo_buf@.len());
    let bound = if todo_buf.len() == 0 {
        0
    } else {
        todo_buf.len() - 1
    };
    let ps = select_positions(dones_to_remove, bound, false);
    proof {
        lemma_position_set_len(ps@);
    }
    if ps.len() >= done_buf.len() - 1 {
        return Err(ListError::TooManyPositions);
    }
    let ghost d = done_buf@;
    let header = done_buf.remove(0);
    assert(done_buf@ =~= items_of(d));
    assert forall|j: int| 0 <= j < ps@.len() implies 1 <= #[trigger] ps@[j] <= done_buf@.len() by {
        assert(position_set(ps@).contains(ps@[j] as int));
    }
    remove_positions(done_buf, &ps);
    done_buf.insert(0, header);
    assert(done_buf@ =~= d.take(1) + drop_positions(items_of(d), sel));
    Ok(())
}

/// Moves the done items at the positions the arguments name back to the
/// end of the todo list, the highest position first; refused when they name
/// at least as many positions as the done list has items, or when the todo
/// list would then hold more than 15 items.
pub fn item_not_done(todo_buf: &mut Vec<String>, done_buf: &mut Vec<String>, dones_to_todos: Vec<String>) -> (r: Result<(), ListError>)
    requires
        numbers_fit_a_byte(dones_to_todos@),
        old(done_buf)@.len() >= 1,
        positions_reach_done_items(
            named_positions(dones_to_todos@, old(todo_buf)@.len()),
            old(done_buf)@.len(),
        ),
        named_positions(dones_to_todos@, old(todo_buf)@.len()).len() < old(done_buf)@.len() - 1
            ==> old(todo_buf)@.len() >= 1,
    ensures
        ({
            let p = named_positions(dones_to_todos@, old(todo_buf)@.len());
            &&& r == (if p.len() >= old(done_buf)@.len() - 1 {
                Err(ListError::TooManyPositions)
            } else if p.len() + (old(todo_buf)@.len() - 1) > 15 {
                Err(ListError::TodoFull)
            } else {
                Ok(())
            })
            &&& r is Err ==> final(todo_buf)@ == old(todo_buf)@ && final(done_buf)@ == old(done_buf)@
            &&& r is Ok ==> final(done_buf)@ == old(done_buf)@.take(1) + drop_positions(
                items_of(old(done_buf)@),
                p,
            ) && final(todo_buf)@ == old(todo_buf)@ + take_positions_desc(items_of(old(done_buf)@), p)
        }),
{
    let ghost sel = named_positions(dones_to_todos@, todo_buf@.len());
    let bound = if todo_buf.len() == 0 {
        0
    } else {
        todo_buf.len() - 1
    };
    let ps = select_positions(dones_to_todos, bound, false);
    proof {
        lemma_position_set_len(ps@);
    }
    if ps.len() >= done_buf.len() - 1 {
        return Err(ListError::TooManyPositions);
    }
    if ps.len() > 15 || todo_buf.len() - 1 > 15 - ps.len() {
        return Err(ListError::TodoFull);
    }
    let ghost d = done_buf@;
    let header = done_buf.remove(0);
    assert(done_buf@ =~= items_of(d));
    assert forall|j: int| 0 <= j < ps@.len() implies 1 <= #[trigger] ps@[j] <= done_buf@.len() by {
        assert(position_set(ps@).contains(ps@[j] as int));
    }
    move_positions(done_buf, todo_buf, &ps);
    done_buf.insert(0, header);
    assert(done_buf@ =~= d.take(1) + drop_positions(items_of(d), sel));
    Ok(())
}

/// Empties the done list down to its title line; refused when it has no items.
pub fn clear_done_list(done_buf: &mut Vec<String>) -> (r: Result<(), ListError>)
    ensures
        r is Err <==> old(done_buf)@.len() == 1,
        r matches Err(e) ==> e == ListError::ListEmpty,
        r is Err ==> final(done_buf)@ == old(done_buf)@,
        r is Ok ==> final(done_buf)@.len() == 1 && final(done_buf)@[0]@ == empty_done(),
{
    crate::commands::clear_done_list(done_buf)
}

/// Moves every done item, in order, back to the end of the todo list;
/// refused when the done list has no items or the todo list would then hold
/// more than 15 items.
pub fn reverse_all_done_items_to_todo(todo_buf: &mut Vec<String>, done_buf: &mut Vec<String>) -> (r: Result<(), ListError>)
    requires
        old(done_buf)@.len() != 1 ==> old(todo_buf)@.len() >= 1 && old(done_buf)@.len() >= 1,
    ensures
        r == (if old(done_buf)@.len() == 1 {
            Err(ListError::ListEmpty)
        } else if (old(todo_buf)@.len() - 1) + (old(done_buf)@.len() - 1) > 15 {
            Err(ListError::TodoFull)
        } else {
            Ok(())
        }),
        r is Err ==> final(todo_buf)@ == old(todo_buf)@ && final(done_buf)@ == old(done_buf)@,
        r is Ok ==> final(todo_buf)@ == old(todo_buf)@ + items_of(old(done_buf)@)
            && final(done_buf)@.len() == 1 && final(done_buf)@[0]@ == empty_done(),
{
    if done_buf.len() == 1 {
        return Err(ListError::ListEmpty);
    }
    if todo_buf.len() - 1 > 15 || done_buf.len() - 1 > 15 - (todo_buf.len() - 1) {
        return Err(ListError::TodoFull);
    }
    let ghost t0 = todo_buf@;
    let ghost items = items_of(done_buf@);
    let mut i: usize = 1;
    assert(t0 + items.take(0) =~= t0);
    while i < done_buf.len()
        invariant
            1 <= i <= done_buf@.len(),
            done_buf@ == old(done_buf)@,
            items == items_of(old(done_buf)@),
            t0 == old(todo_buf)@,
            todo_buf@ == t0 + items.take(i - 1),
        decreases done_buf@.len() - i,
    {
        todo_buf.push(done_buf[i].clone());
        assert(items.take(i as int) =~= items.take(i - 1).push(old(done_buf)@[i as int]));
        i = i + 1;
    }
    assert(items.take(i - 1) =~= items);
    *done_buf = titled("DONE");
    Ok(())
}

/// A copy of a list of strings.
fn copy_strings(v: &Vec<String>) -> (r: Vec<String>)
    ensures
        r@ == v@,
{
    let mut out: Vec<String> = Vec::new();
    let mut i: usize = 0;
    while i < v.len()
        invariant
            i <= v@.len(),
            out@ == v@.take(i as int),
        decreases v@.len() - i,
    {
        out.push(v[i].clone());
        assert(v@.take(i + 1) =~= v@.take(i as int).push(v@[i as int]));
        i = i + 1;
    }
    assert(v@.take(i as int) =~= v@);
    out
}

/// Whether `remove_done_item` (or, when `moving` holds, `item_not_done`) can
/// run on these lists and arguments.
pub fn done_positions_can_run(todo_buf: &Vec<String>, done_buf: &Vec<String>, args: &Vec<String>, moving: bool) -> (b: bool)
    ensures
        b == (numbers_fit_a_byte(args@) && done_buf@.len() >= 1 && positions_reach_done_items(
            named_positions(args@, todo_buf@.len()),
            done_buf@.len(),
        ) && (moving ==> (named_positions(args@, todo_buf@.len()).len() < done_buf@.len() - 1
            ==> todo_buf@.len() >= 1))),
{
    let mut i: usize = 0;
    while i < args.len()
        invariant
            i <= args@.len(),
            forall|j: int|
                0 <= j < i ==> (#[trigger] parse_usize_spec(args@[j]@) matches Some(v) ==> v <= 255),
        decreases args@.len() - i,
    {
        match crate::text::parse_usize(args[i].as_str()) {
            Some(v) => {
                if v > 255 {
                    return false;
                }
            },
            None => {},
        }
        i = i + 1;
    }
    if done_buf.len() == 0 {
        return false;
    }
    let ghost sel = named_positions(args@, todo_buf@.len());
    let bound = if todo_buf.len() == 0 {
        0
    } else {
        todo_buf.len() - 1
    };
    let ps = select_positions(copy_strings(args), bound, false);
    proof {
        lemma_position_set_len(ps@);
    }
    if ps.len() >= done_buf.len() - 1 {
        return true;
    }
    let mut j: usize = 0;
    while j < ps.len()
        invariant
            j <= ps@.len(),
            done_buf@.len() >= 1,
            ps@.len() < done_buf@.len() - 1,
            position_set(ps@) == sel,
            sel.len() == ps@.len(),
            sel == named_positions(args@, todo_buf@.len()),
            forall|k: int| 0 <= k < j ==> #[trigger] ps@[k] <= done_buf@.len() - 1,
        decreases ps@.len() - j,
    {
        if ps[j] > done_buf.len() - 1 {
            assert(position_set(ps@).contains(ps@[j as int] as int));
            return false;
        }
        j = j + 1;
    }
    assert forall|q: int| #[trigger] sel.contains(q) implies q <= done_buf@.len() - 1 by {
        assert(position_set(ps@).contains(q));
        let k = choose|k: int| 0 <= k < ps@.len() && ps@[k] as int == q;
        assert(ps@[k] <= done_buf@.len() - 1);
    }
    !moving || todo_buf.len() >= 1
}

} // verus!

//! Commands on the deadline tasks: tasks with a date (`YYYY-MM-DD`) and a
//! time (`HH:MM`) by which they are due.

use vstd::prelude::*;
use crate::datetime::{chrono_accepts_date, chrono_accepts_time, date_is_valid, time_is_valid, local_now};
use crate::errors::TaskError;
use crate::list_ops::{
    selection_error, outcome, selected, edit_target, move_selected, remove_selected,
    check_edit_target,
};
use crate::positions::{drop_positions, take_positions_desc};
use crate::tasks::{Task, Tasks};

verus! {

/// `t` is a deadline task with these characters as text, date and time, and
/// no repeat fields.
pub open spec fn deadline_fields(t: Task, text: Seq<char>, date: Seq<char>, time: Seq<char>) -> bool {
    &&& t.task@ == text
    &&& t.date matches Some(d) && d@ == date
    &&& t.time matches Some(tm) && tm@ == time
    &&& t.repeat_number is None
    &&& t.repeat_unit is None
    &&& t.repeat_done is None
    &&& t.repeat_original_date is None
    &&& t.repeat_original_time is None
}

/// Why the argument set `c` (from 0) of a `deadline-add` command (text, date,
/// time) is refused, if it is: its time is checked before its date.
pub open spec fn add_set_error(args: Seq<String>, c: int) -> Option<TaskError> {
    if !chrono_accepts_time(args[3 * c + 2]@) {
        Some(TaskError::InvalidTime((c + 1) as usize))
    } else if !chrono_accepts_date(args[3 * c + 1]@) {
        Some(TaskError::InvalidDate((c + 1) as usize))
    } else {
        None
    }
}

/// The first refusal among the first `k` argument sets of `deadline-add`.
pub open spec fn first_add_error(args: Seq<String>, k: nat) -> Option<TaskError>
    decreases k,
{
    if k == 0 {
        None
    } else {
        match first_add_error(args, (k - 1) as nat) {
            Some(e) => Some(e),
            None => add_set_error(args, k - 1),
        }
    }
}

/// Why `deadline-add` refuses its arguments, if it does: their number is no
/// multiple of three, or a set has a wrong time or date.
pub open spec fn deadline_add_error(args: Seq<String>) -> Option<TaskError> {
    if args.len() % 3 != 0 {
        Some(TaskError::ArgumentCount(args.len() as usize))
    } else {
        first_add_error(args, args.len() / 3)
    }
}

/// Why the argument set `c` (from 0) of a two-argument add command is
/// refused: `date_not_time` says whether its second argument is a date.
pub open spec fn pair_set_error(args: Seq<String>, c: int, date_not_time: bool) -> Option<TaskError> {
    if date_not_time {
        if !chrono_accepts_date(args[2 * c + 1]@) {
            Some(TaskError::InvalidDate((c + 1) as usize))
        } else {
            None
        }
    } else {
        if !chrono_accepts_time(args[2 * c + 1]@) {
            Some(TaskError::InvalidTime((c + 1) as usize))
        } else {
            None
        }
    }
}

/// The first refusal among the first `k` argument sets of a two-argument add command.
pub open spec fn first_pair_error(args: Seq<String>, k: nat, date_not_time: bool) -> Option<
    TaskError,
>
    decreases k,
{
    if k == 0 {
        None
    } else {
        match first_pair_error(args, (k - 1) as nat, date_not_time) {
            Some(e) => Some(e),
            None => pair_set_error(args, k - 1, date_not_time),
        }
    }
}

/// Why a two-argument add command refuses its arguments, if it does.
pub open spec fn pair_add_error(args: Seq<String>, date_not_time: bool) -> Option<TaskError> {
    if args.len() % 2 != 0 {
        Some(TaskError::ArgumentCount(args.len() as usize))
    } else {
        first_pair_error(args, args.len() / 2, date_not_time)
    }
}

proof fn lemma_first_add_error_stays(args: Seq<String>, k: nat, m: nat)
    requires
        k < m,
        first_add_error(args, k) is None,
        add_set_error(args, k as int) is Some,
    ensures
        first_add_error(args, m) == add_set_error(args, k as int),
    decreases m,
{
    if m > k + 1 {
        lemma_first_add_error_stays(args, k, (m - 1) as nat);
    }
}

proof fn lemma_first_pair_error_stays(args: Seq<String>, k: nat, m: nat, date_not_time: bool)
    requires
        k < m,
        first_pair_error(args, k, date_not_time) is None,
        pair_set_error(args, k as int, date_not_time) is Some,
    ensures
        first_pair_error(args, m, date_not_time) == pair_set_error(args, k as int, date_not_time),
    decreases m,
{
    if m > k + 1 {
        lemma_first_pair_error_stays(args, k, (m - 1) as nat, date_not_time);
    }
}

proof fn lemma_first_add_error_ok(args: Seq<String>, k: nat)
    requires
        first_add_error(args, k) is None,
    ensures
        forall|c: int| 0 <= c < k ==> #[trigger] add_set_error(args, c) is None,
    decreases k,
{
    if k > 0 {
        lemma_first_add_error_ok(args, (k - 1) as nat);
    }
}

proof fn lemma_first_pair_error_ok(args: Seq<String>, k: nat, date_not_time: bool)
    requires
        first_pair_error(args, k, date_not_time) is None,
    ensures
        forall|c: int| 0 <= c < k ==> #[trigger] pair_set_error(args, c, date_not_time) is None,
    decreases k,
{
    if k > 0 {
        lemma_first_pair_error_ok(args, (k - 1) as nat, date_not_time);
    }
}

/// Adds a deadline todo task for every argument set of a text, a date and a
/// time, in order; refuses all of them when their number is no multiple of
/// three or a set has a time or date that chrono does not read.
pub fn deadline_tasks_add(deadline_tasks: &mut Tasks, add: Vec<String>) -> (r: Result<(), TaskError>)
    ensures
        r == outcome(deadline_add_error(add@)),
        final(deadline_tasks).done@ == old(deadline_tasks).done@,
        r is Err ==> final(deadline_tasks).todo@ == old(deadline_tasks).todo@,
        r is Ok ==> final(deadline_tasks).todo@.len() == old(deadline_tasks).todo@.len() + add@.len()
            / 3,
        r is Ok ==> final(deadline_tasks).todo@.take(old(deadline_tasks).todo@.len() as int) == old(deadline_tasks).todo@,
        r is Ok ==> forall|c: int|
            0 <= c < add@.len() / 3 ==> deadline_fields(
                #[trigger] final(deadline_tasks).todo@[old(deadline_tasks).todo@.len() + c],
                add@[3 * c]@,
                add@[3 * c + 1]@,
                add@[3 * c + 2]@,
            ),
{
    let n = add.len();
    if n % 3 != 0 {
        return Err(TaskError::ArgumentCount(n));
    }
    let sets = n / 3;
    let mut new_tasks: Vec<Task> = Vec::new();
    let mut counter: usize = 0;
    while counter < sets
        invariant
            counter <= sets,
            sets == n / 3,
            n == add@.len(),
            n % 3 == 0,
            first_add_error(add@, counter as nat) is None,
            new_tasks@.len() == counter,
            forall|c: int|
                0 <= c < counter ==> deadline_fields(
                    #[trigger] new_tasks@[c],
                    add@[3 * c]@,
                    add@[3 * c + 1]@,
                    add@[3 * c + 2]@,
                ),
        decreases sets - counter,
    {
        let base = counter * 3;
        if !time_is_valid(add[base + 2].as_str()) {
            proof {
                lemma_first_add_error_stays(add@, counter as nat, sets as nat);
            }
            return Err(TaskError::InvalidTime(counter + 1));
        }
        if !date_is_valid(add[base + 1].as_str()) {
            proof {
                lemma_first_add_error_stays(add@, counter as nat, sets as nat);
            }
            return Err(TaskError::InvalidDate(counter + 1));
        }
        let t = Task::with_deadline(add[base].clone(), add[base + 1].clone(), add[base + 2].clone());
        new_tasks.push(t);
        counter = counter + 1;
    }
    let ghost before = deadline_tasks.todo@;
    let ghost added = new_tasks@;
    deadline_tasks.todo.append(&mut new_tasks);
    assert(deadline_tasks.todo@.take(before.len() as int) =~= before);
    assert forall|c: int| 0 <= c < add@.len() / 3 implies deadline_fields(
        #[trigger] deadline_tasks.todo@[before.len() + c],
        add@[3 * c]@,
        add@[3 * c + 1]@,
        add@[3 * c + 2]@,
    ) by {
        assert(deadline_tasks.todo@[before.len() + c] == added[c]);
    }
    Ok(())
}

/// Adds deadline todo tasks from pairs of a text and a date (`date_not_time`)
/// or a text and a time; the missing time or date is `fill`.
fn add_pairs(deadline_tasks: &mut Tasks, args: Vec<String>, date_not_time: bool, fill: &String) -> (r:
    Result<(), TaskError>)
    ensures
        r == outcome(pair_add_error(args@, date_not_time)),
        final(deadline_tasks).done@ == old(deadline_tasks).done@,
        r is Err ==> final(deadline_tasks).todo@ == old(deadline_tasks).todo@,
        r is Ok ==> final(deadline_tasks).todo@.len() == old(deadline_tasks).todo@.len() + args@.len()
            / 2,
        r is Ok ==> final(deadline_tasks).todo@.take(old(deadline_tasks).todo@.len() as int) == old(deadline_tasks).todo@,
        r is Ok ==> forall|c: int|
            0 <= c < args@.len() / 2 ==> deadline_fields(
                #[trigger] final(deadline_tasks).todo@[old(deadline_tasks).todo@.len() + c],
                args@[2 * c]@,
                if date_not_time {
                    args@[2 * c + 1]@
                } else {
                    fill@
                },
                if date_not_time {
                    fill@
                } else {
                    args@[2 * c + 1]@
                },
            ),
{
    let n = args.len();
    if n % 2 != 0 {
        return Err(TaskError::ArgumentCount(n));
    }
    let sets = n / 2;
    let mut new_tasks: Vec<Task> = Vec::new();
    let mut counter: usize = 0;
    while counter < sets
        invariant
            counter <= sets,
            sets == n / 2,
            n == args@.len(),
            n % 2 == 0,
            first_pair_error(args@, counter as nat, date_not_time) is None,
            new_tasks@.len() == counter,
            forall|c: int|
                0 <= c < counter ==> deadline_fields(
                    #[trigger] new_tasks@[c],
                    args@[2 * c]@,
                    if date_not_time {
                        args@[2 * c + 1]@
                    } else {
                        fill@
                    },
                    if date_not_time {
                        fill@
                    } else {
                        args@[2 * c + 1]@
                    },
                ),
        decreases sets - counter,
    {
        let base = counter * 2;
        let t = if date_not_time {
            if !date_is_valid(args[base + 1].as_str()) {
                proof {
                    lemma_first_pair_error_stays(args@, counter as nat, sets as nat, date_not_time);
                }
                return Err(TaskError::InvalidDate(counter + 1));
            }
            Task::with_deadline(args[base].clone(), args[base + 1].clone(), fill.clone())
        } else {
            if !time_is_valid(args[base + 1].as_str()) {
                proof {
                    lemma_first_pair_error_stays(args@, counter as nat, sets as nat, date_not_time);
                }
                return Err(TaskError::InvalidTime(counter + 1));
            }
            Task::with_deadline(args[base].clone(), fill.clone(), args[base + 1].clone())
        };
        new_tasks.push(t);
        counter = counter + 1;
    }
    let ghost before = deadline_tasks.todo@;
    let ghost added = new_tasks@;
    deadline_tasks.todo.append(&mut new_tasks);
    assert(deadline_tasks.todo@.take(before.len() as int) =~= before);
    assert forall|c: int| 0 <= c < args@.len() / 2 implies deadline_fields(
        #[trigger] deadline_tasks.todo@[before.len() + c],
        args@[2 * c]@,
        if date_not_time {
            args@[2 * c + 1]@
        } else {
            fill@
        },
        if date_not_time {
            fill@
        } else {
            args@[2 * c + 1]@
        },
    ) by {
        assert(deadline_tasks.todo@[before.len() + c] == added[c]);
    }
    Ok(())
}

/// Adds a deadline todo task for every pair of a text and a date; the time is `00:00`.
pub fn deadline_tasks_add_no_time(deadline_tasks: &mut Tasks, add_no_time: Vec<String>) -> (r:
    Result<(), TaskError>)
    ensures
        r == outcome(pair_add_error(add_no_time@, true)),
        final(deadline_tasks).done@ == old(deadline_tasks).done@,
        r is Err ==> final(deadline_tasks).todo@ == old(deadline_tasks).todo@,
        r is Ok ==> final(deadline_tasks).todo@.len() == old(deadline_tasks).todo@.len()
            + add_no_time@.len() / 2,
        r is Ok ==> final(deadline_tasks).todo@.take(old(deadline_tasks).todo@.len() as int) == old(deadline_tasks).todo@,
        r is Ok ==> forall|c: int|
            0 <= c < add_no_time@.len() / 2 ==> deadline_fields(
                #[trigger] final(deadline_tasks).todo@[old(deadline_tasks).todo@.len() + c],
                add_no_time@[2 * c]@,
                add_no_time@[2 * c + 1]@,
                "00:00"@,
            ),
{
    let midnight = String::from_str("00:00");
    add_pairs(deadline_tasks, add_no_time, true, &midnight)
}

/// Adds a deadline todo task for every pair of a text and a time, due on the
/// day `today`.
pub fn deadline_tasks_add_no_date_on(deadline_tasks: &mut Tasks, add_no_date: Vec<String>, today: &String) -> (r:
    Result<(), TaskError>)
    ensures
        r == outcome(pair_add_error(add_no_date@, false)),
        final(deadline_tasks).done@ == old(deadline_tasks).done@,
        r is Err ==> final(deadline_tasks).todo@ == old(deadline_tasks).todo@,
        r is Ok ==> final(deadline_tasks).todo@.len() == old(deadline_tasks).todo@.len()
            + add_no_date@.len() / 2,
        r is Ok ==> final(deadline_tasks).todo@.take(old(deadline_tasks).todo@.len() as int) == old(deadline_tasks).todo@,
        r is Ok ==> forall|c: int|
            0 <= c < add_no_date@.len() / 2 ==> deadline_fields(
                #[trigger] final(deadline_tasks).todo@[old(deadline_tasks).todo@.len() + c],
                add_no_date@[2 * c]@,
                today@,
                add_no_date@[2 * c + 1]@,
            ),
{
    add_pairs(deadline_tasks, add_no_date, false, today)
}

/// Adds a deadline todo task for every pair of a text and a time, due today
/// (the local date when the command runs).
pub fn deadline_tasks_add_no_date(deadline_tasks: &mut Tasks, add_no_date: Vec<String>) -> (r:
    Result<(), TaskError>)
    ensures
        r == outcome(pair_add_error(add_no_date@, false)),
        final(deadline_tasks).done@ == old(deadline_tasks).done@,
        r is Err ==> final(deadline_tasks).todo@ == old(deadline_tasks).todo@,
        r is Ok ==> final(deadline_tasks).todo@.len() == old(deadline_tasks).todo@.len()
            + add_no_date@.len() / 2,
        r is Ok ==> final(deadline_tasks).todo@.take(old(deadline_tasks).todo@.len() as int) == old(deadline_tasks).todo@,
        r is Ok ==> forall|c: int|
            0 <= c < add_no_date@.len() / 2 ==> deadline_fields(
                #[trigger] final(deadline_tasks).todo@[old(deadline_tasks).todo@.len() + c],
                add_no_date@[2 * c]@,
                final(deadline_tasks).todo@[old(deadline_tasks).todo@.len() as int].date->Some_0@,
                add_no_date@[2 * c + 1]@,
            ),
{
    let (today, _now_time) = local_now();
    let ghost args = add_no_date@;
    let ghost old_len = deadline_tasks.todo@.len();
    let r = deadline_tasks_add_no_date_on(deadline_tasks, add_no_date, &today);
    proof {
        if r is Ok && args.len() / 2 > 0 {
            assert(deadline_fields(
                deadline_tasks.todo@[old_len + 0int],
                args[2 * 0int]@,
                today@,
                args[2 * 0int + 1]@,
            ));
        }
    }
    r
}

/// Marks the deadline todo tasks at the positions the arguments select
/// (numbers and ranges such as `2-4`) as done: they move to the end of the
/// done list, the highest position first.
pub fn deadline_tasks_done(deadline_tasks: &mut Tasks, done: Vec<String>) -> (r: Result<
    (),
    TaskError,
>)
    requires
        old(deadline_tasks).todo@.len() < usize::MAX,
    ensures
        r == outcome(
            selection_error(
                old(deadline_tasks).todo@.len(),
                selected(done@, old(deadline_tasks).todo@.len(), true),
            ),
        ),
        r is Err ==> final(deadline_tasks).todo@ == old(deadline_tasks).todo@ && final(deadline_tasks).done@ == old(deadline_tasks).done@,
        r is Ok ==> final(deadline_tasks).todo@ == drop_positions(
            old(deadline_tasks).todo@,
            selected(done@, old(deadline_tasks).todo@.len(), true),
        ) && final(deadline_tasks).done@ == old(deadline_tasks).done@ + take_positions_desc(
            old(deadline_tasks).todo@,
            selected(done@, old(deadline_tasks).todo@.len(), true),
        ),
{
    move_selected(&mut deadline_tasks.todo, &mut deadline_tasks.done, done, true)
}

/// Removes the deadline todo tasks at the positions the arguments select
/// (numbers and ranges).
pub fn deadline_tasks_rmtodo(deadline_tasks: &mut Tasks, rmtodo: Vec<String>) -> (r: Result<
    (),
    TaskError,
>)
    requires
        old(deadline_tasks).todo@.len() < usize::MAX,
    ensures
        r == outcome(
            selection_error(
                old(deadline_tasks).todo@.len(),
                selected(rmtodo@, old(deadline_tasks).todo@.len(), true),
            ),
        ),
        final(deadline_tasks).done@ == old(deadline_tasks).done@,
        r is Err ==> final(deadline_tasks).todo@ == old(deadline_tasks).todo@,
        r is Ok ==> final(deadline_tasks).todo@ == drop_positions(
            old(deadline_tasks).todo@,
            selected(rmtodo@, old(deadline_tasks).todo@.len(), true),
        ),
{
    remove_selected(&mut deadline_tasks.todo, rmtodo, true)
}

/// Empties the deadline todo list; refused when it is already empty.
pub fn deadline_tasks_clear_todo(deadline_tasks: &mut Tasks) -> (r: Result<(), TaskError>)
    ensures
        r is Err <==> old(deadline_tasks).todo@.len() == 0,
        r matches Err(e) ==> e == TaskError::EmptyList,
        final(deadline_tasks).done@ == old(deadline_tasks).done@,
        final(deadline_tasks).todo@.len() == 0,
{
    if deadline_tasks.todo.len() == 0 {
        return Err(TaskError::EmptyList);
    }
    deadline_tasks.todo.clear();
    Ok(())
}

/// Marks every deadline todo task as done, in order.
pub fn deadline_tasks_done_all(deadline_tasks: &mut Tasks) -> (r: Result<(), TaskError>)
    ensures
        r is Err <==> old(deadline_tasks).todo@.len() == 0,
        r matches Err(e) ==> e == TaskError::EmptyList,
        r is Err ==> final(deadline_tasks).done@ == old(deadline_tasks).done@,
        r is Ok ==> final(deadline_tasks).done@ == old(deadline_tasks).done@ + old(deadline_tasks).todo@,
        final(deadline_tasks).todo@.len() == 0,
{
    if deadline_tasks.todo.len() == 0 {
        return Err(TaskError::EmptyList);
    }
    deadline_tasks.done.append(&mut deadline_tasks.todo);
    Ok(())
}

/// Which deadline todo task an edit with `count` arguments changes in a
/// list of `len` tasks, after the checks of its position and of the date and
/// time arguments it has (`date_at`, `time_at`: their indices, if any), or
/// why it refuses.
pub open spec fn deadline_edit_target(
    len: nat,
    args: Seq<String>,
    count: nat,
    date_at: Option<int>,
    time_at: Option<int>,
) -> Result<nat, TaskError> {
    match edit_target(args, len, count) {
        Err(e) => Err(e),
        Ok(p) => if date_at matches Some(d) && !chrono_accepts_date(args[d]@) {
            Err(TaskError::InvalidDate(1))
        } else if time_at matches Some(t) && !chrono_accepts_time(args[t]@) {
            Err(TaskError::InvalidTime(1))
        } else {
            Ok(p)
        },
    }
}

/// The checks shared by the deadline edit commands.
fn check_deadline_edit(
    todo_len: usize,
    args: &Vec<String>,
    count: usize,
    date_at: Option<usize>,
    time_at: Option<usize>,
) -> (r: Result<usize, TaskError>)
    requires
        count >= 1,
        date_at matches Some(d) ==> d < count,
        time_at matches Some(t) ==> t < count,
    ensures
        r matches Ok(p) ==> 1 <= p <= todo_len && args@.len() == count && deadline_edit_target(
            todo_len as nat,
            args@,
            count as nat,
            opt_int(date_at),
            opt_int(time_at),
        ) == Ok::<nat, TaskError>(p as nat),
        r matches Err(e) ==> deadline_edit_target(
            todo_len as nat,
            args@,
            count as nat,
            opt_int(date_at),
            opt_int(time_at),
        ) == Err::<nat, TaskError>(e),
{
    let p = match check_edit_target(args, todo_len, count) {
        Ok(p) => p,
        Err(e) => {
            return Err(e);
        },
    };
    if let Some(d) = date_at {
        if !date_is_valid(args[d].as_str()) {
            return Err(TaskError::InvalidDate(1));
        }
    }
    if let Some(t) = time_at {
        if !time_is_valid(args[t].as_str()) {
            return Err(TaskError::InvalidTime(1));
        }
    }
    Ok(p)
}

/// An optional index as an integer.
pub open spec fn opt_int(i: Option<usize>) -> Option<int> {
    match i {
        Some(v) => Some(v as int),
        None => None,
    }
}

/// Changes every field a deadline task is made of: the arguments are its
/// position, the new text, date and time.
pub fn deadline_tasks_edit_all(deadline_tasks: &mut Tasks, position_task_date_time: Vec<String>) -> (r:
    Result<(), TaskError>)
    ensures
        r matches Err(e) ==> deadline_edit_target(
            old(deadline_tasks).todo@.len(),
            position_task_date_time@,
            4,
            Some(2),
            Some(3),
        ) == Err::<nat, TaskError>(e),
        r is Ok ==> deadline_edit_target(
            old(deadline_tasks).todo@.len(),
            position_task_date_time@,
            4,
            Some(2),
            Some(3),
        ) is Ok,
        final(deadline_tasks).done@ == old(deadline_tasks).done@,
        r is Err ==> final(deadline_tasks).todo@ == old(deadline_tasks).todo@,
        r is Ok ==> ({
            let p = deadline_edit_target(
                old(deadline_tasks).todo@.len(),
                position_task_date_time@,
                4,
                Some(2),
                Some(3),
            )->Ok_0;
            let args = position_task_date_time@;
            final(deadline_tasks).todo@ == old(deadline_tasks).todo@.update(
                p - 1,
                Task {
                    task: args[1],
                    date: Some(args[2]),
                    time: Some(args[3]),
                    ..old(deadline_tasks).todo@[p - 1]
                },
            )
        }),
{
    let p = match check_deadline_edit(
        deadline_tasks.todo.len(),
        &position_task_date_time,
        4,
        Some(2),
        Some(3),
    ) {
        Ok(p) => p,
        Err(e) => {
            return Err(e);
        },
    };
    let text = position_task_date_time[1].clone();
    let date = position_task_date_time[2].clone();
    let time = position_task_date_time[3].clone();
    deadline_tasks.todo[p - 1].task = text;
    deadline_tasks.todo[p - 1].date = Some(date);
    deadline_tasks.todo[p - 1].time = Some(time);
    Ok(())
}

/// Changes the text of a deadline task: the arguments are its position and
/// the new text.
pub fn deadline_tasks_edit_task(deadline_tasks: &mut Tasks, position_task: Vec<String>) -> (r:
    Result<(), TaskError>)
    ensures
        r matches Err(e) ==> deadline_edit_target(
            old(deadline_tasks).todo@.len(),
            position_task@,
            2,
            None,
            None,
        ) == Err::<nat, TaskError>(e),
        r is Ok ==> deadline_edit_target(
            old(deadline_tasks).todo@.len(),
            position_task@,
            2,
            None,
            None,
        ) is Ok,
        final(deadline_tasks).done@ == old(deadline_tasks).done@,
        r is Err ==> final(deadline_tasks).todo@ == old(deadline_tasks).todo@,
        r is Ok ==> ({
            let p = deadline_edit_target(
                old(deadline_tasks).todo@.len(),
                position_task@,
                2,
                None,
                None,
            )->Ok_0;
            final(deadline_tasks).todo@ == old(deadline_tasks).todo@.update(
                p - 1,
                Task { task: position_task@[1], ..old(deadline_tasks).todo@[p - 1] },
            )
        }),
{
    let p = match check_deadline_edit(deadline_tasks.todo.len(), &position_task, 2, None, None) {
        Ok(p) => p,
        Err(e) => {
            return Err(e);
        },
    };
    let text = position_task[1].clone();
    deadline_tasks.todo[p - 1].task = text;
    Ok(())
}

/// Changes the date of a deadline task: the arguments are its position and
/// the new date.
pub fn deadline_tasks_edit_date(deadline_tasks: &mut Tasks, position_date: Vec<String>) -> (r:
    Result<(), TaskError>)
    ensures
        r matches Err(e) ==> deadline_edit_target(
            old(deadline_tasks).todo@.len(),
            position_date@,
            2,
            Some(1),
            None,
        ) == Err::<nat, TaskError>(e),
        r is Ok ==> deadline_edit_target(
            old(deadline_tasks).todo@.len(),
            position_date@,
            2,
            Some(1),
            None,
        ) is Ok,
        final(deadline_tasks).done@ == old(deadline_tasks).done@,
        r is Err ==> final(deadline_tasks).todo@ == old(deadline_tasks).todo@,
        r is Ok ==> ({
            let p = deadline_edit_target(
                old(deadline_tasks).todo@.len(),
                position_date@,
                2,
                Some(1),
                None,
            )->Ok_0;
            final(deadline_tasks).todo@ == old(deadline_tasks).todo@.update(
                p - 1,
                Task { date: Some(position_date@[1]), ..old(deadline_tasks).todo@[p - 1] },
            )
        }),
{
    let p = match check_deadline_edit(
        deadline_tasks.todo.len(),
        &position_date,
        2,
        Some(1),
        None,
    ) {
        Ok(p) => p,
        Err(e) => {
            return Err(e);
        },
    };
    let date = position_date[1].clone();
    deadline_tasks.todo[p - 1].date = Some(date);
    Ok(())
}

/// Changes the time of a deadline task: the arguments are its position and
/// the new time.
pub fn deadline_tasks_edit_time(deadline_tasks: &mut Tasks, position_time: Vec<String>) -> (r:
    Result<(), TaskError>)
    ensures
        r matches Err(e) ==> deadline_edit_target(
            old(deadline_tasks).todo@.len(),
            position_time@,
            2,
            None,
            Some(1),
        ) == Err::<nat, TaskError>(e),
        r is Ok ==> deadline_edit_target(
            old(deadline_tasks).todo@.len(),
            position_time@,
            2,
            None,
            Some(1),
        ) is Ok,
        final(deadline_tasks).done@ == old(deadline_tasks).done@,
        r is Err ==> final(deadline_tasks).todo@ == old(deadline_tasks).todo@,
        r is Ok ==> ({
            let p = deadline_edit_target(
                old(deadline_tasks).todo@.len(),
                position_time@,
                2,
                None,
                Some(1),
            )->Ok_0;
            final(deadline_tasks).todo@ == old(deadline_tasks).todo@.update(
                p - 1,
                Task { time: Some(position_time@[1]), ..old(deadline_tasks).todo@[p - 1] },
            )
        }),
{
    let p = match check_deadline_edit(
        deadline_tasks.todo.len(),
        &position_time,
        2,
        None,
        Some(1),
    ) {
        Ok(p) => p,
        Err(e) => {
            return Err(e);
        },
    };
    let time = position_time[1].clone();
    deadline_tasks.todo[p - 1].time = Some(time);
    Ok(())
}

/// Changes the date and time of a deadline task: the arguments are its
/// position, the new date and the new time.
pub fn deadline_tasks_edit_datetime(deadline_tasks: &mut Tasks, edit_date_time: Vec<String>) -> (r:
    Result<(), TaskError>)
    ensures
        r matches Err(e) ==> deadline_edit_target(
            old(deadline_tasks).todo@.len(),
            edit_date_time@,
            3,
            Some(1),
            Some(2),
        ) == Err::<nat, TaskError>(e),
        r is Ok ==> deadline_edit_target(
            old(deadline_tasks).todo@.len(),
            edit_date_time@,
            3,
            Some(1),
            Some(2),
        ) is Ok,
        final(deadline_tasks).done@ == old(deadline_tasks).done@,
        r is Err ==> final(deadline_tasks).todo@ == old(deadline_tasks).todo@,
        r is Ok ==> ({
            let p = deadline_edit_target(
                old(deadline_tasks).todo@.len(),
                edit_date_time@,
                3,
                Some(1),
                Some(2),
            )->Ok_0;
            final(deadline_tasks).todo@ == old(deadline_tasks).todo@.update(
                p - 1,
                Task {
                    date: Some(edit_date_time@[1]),
                    time: Some(edit_date_time@[2]),
                    ..old(deadline_tasks).todo@[p - 1]
                },
            )
        }),
{
    let p = match check_deadline_edit(
        deadline_tasks.todo.len(),
        &edit_date_time,
        3,
        Some(1),
        Some(2),
    ) {
        Ok(p) => p,
        Err(e) => {
            return Err(e);
        },
    };
    let date = edit_date_time[1].clone();
    let time = edit_date_time[2].clone();
    deadline_tasks.todo[p - 1].date = Some(date);
    deadline_tasks.todo[p - 1].time = Some(time);
    Ok(())
}

/// Removes the deadline done tasks at the positions the arguments select
/// (numbers and ranges).
pub fn deadline_tasks_rmdone(deadline_tasks: &mut Tasks, done_remove: Vec<String>) -> (r: Result<
    (),
    TaskError,
>)
    requires
        old(deadline_tasks).done@.len() < usize::MAX,
    ensures
        r == outcome(
            selection_error(
                old(deadline_tasks).done@.len(),
                selected(done_remove@, old(deadline_tasks).done@.len(), true),
            ),
        ),
        final(deadline_tasks).todo@ == old(deadline_tasks).todo@,
        r is Err ==> final(deadline_tasks).done@ == old(deadline_tasks).done@,
        r is Ok ==> final(deadline_tasks).done@ == drop_positions(
            old(deadline_tasks).done@,
            selected(done_remove@, old(deadline_tasks).done@.len(), true),
        ),
{
    remove_selected(&mut deadline_tasks.done, done_remove, true)
}

/// Moves the deadline done tasks at the positions the arguments select
/// (numbers and ranges) back to the end of the todo list, the highest
/// position first.
pub fn deadline_tasks_not_done(deadline_tasks: &mut Tasks, not_done: Vec<String>) -> (r: Result<
    (),
    TaskError,
>)
    requires
        old(deadline_tasks).done@.len() < usize::MAX,
    ensures
        r == outcome(
            selection_error(
                old(deadline_tasks).done@.len(),
                selected(not_done@, old(deadline_tasks).done@.len(), true),
            ),
        ),
        r is Err ==> final(deadline_tasks).todo@ == old(deadline_tasks).todo@ && final(deadline_tasks).done@ == old(deadline_tasks).done@,
        r is Ok ==> final(deadline_tasks).done@ == drop_positions(
            old(deadline_tasks).done@,
            selected(not_done@, old(deadline_tasks).done@.len(), true),
        ) && final(deadline_tasks).todo@ == old(deadline_tasks).todo@ + take_positions_desc(
            old(deadline_tasks).done@,
            selected(not_done@, old(deadline_tasks).done@.len(), true),
        ),
{
    move_selected(&mut deadline_tasks.done, &mut deadline_tasks.todo, not_done, true)
}

/// Empties the deadline done list; refused when it is already empty.
pub fn deadline_tasks_clear_done(deadline_tasks: &mut Tasks) -> (r: Result<(), TaskError>)
    ensures
        r is Err <==> old(deadline_tasks).done@.len() == 0,
        r matches Err(e) ==> e == TaskError::EmptyList,
        final(deadline_tasks).todo@ == old(deadline_tasks).todo@,
        final(deadline_tasks).done@.len() == 0,
{
    if deadline_tasks.done.len() == 0 {
        return Err(TaskError::EmptyList);
    }
    deadline_tasks.done.clear();
    Ok(())
}

/// Moves every deadline done task back to the end of the todo list, in order.
pub fn deadline_tasks_notdoneall(deadline_tasks: &mut Tasks) -> (r: Result<(), TaskError>)
    ensures
        r is Err <==> old(deadline_tasks).done@.len() == 0,
        r matches Err(e) ==> e == TaskError::EmptyList,
        r is Err ==> final(deadline_tasks).todo@ == old(deadline_tasks).todo@,
        r is Ok ==> final(deadline_tasks).todo@ == old(deadline_tasks).todo@ + old(deadline_tasks).done@,
        final(deadline_tasks).done@.len() == 0,
{
    if deadline_tasks.done.len() == 0 {
        return Err(TaskError::EmptyList);
    }
    deadline_tasks.todo.append(&mut deadline_tasks.done);
    Ok(())
}

} // verus!

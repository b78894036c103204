//! Listing the repeating tasks. A repeating task that was marked done comes
//! back to the todo list once its due date and time have passed, due again
//! one interval later; the lists are then sorted by due date and time.

use vstd::prelude::*;
use vstd::string::*;
use vstd::multiset::Multiset;
use crate::datetime::{
    chrono_accepts_datetime, chrono_plus_minutes, chrono_plus_hours, chrono_plus_days,
    chrono_plus_months, datetime_is_valid, shift_minutes, shift_hours, shift_days, shift_months,
    local_now,
};
use crate::errors::TaskError;
use crate::listing::{
    counter_label, joined_lines, due_word, trim_end_spec, with_done_heading, trim_end,
    check_if_due_or_not_at,
};
use crate::tasks::{Task, Tasks};
use crate::text::{decimal_chars, push_decimal, str_lt, str_le, str_less, str_equal};
use crate::text_sort::{lemma_str_lt_transitive, lemma_str_lt_irreflexive, lemma_str_lt_total};

verus! {

/// Every task has a date, a time, an interval and a time unit, and every
/// done task says whether it is done.
pub open spec fn repeating_well_formed(tasks: Tasks) -> bool {
    &&& forall|i: int| 0 <= i < tasks.todo@.len() ==> #[trigger] has_repeat_fields(tasks.todo@[i])
    &&& forall|i: int|
        0 <= i < tasks.done@.len() ==> #[trigger] has_repeat_fields(tasks.done@[i])
            && tasks.done@[i].repeat_done is Some
}

/// `t` has every field a repeating task needs on the todo list, or, when
/// `done` holds, on the done list.
pub open spec fn repeat_ready(t: Task, done: bool) -> bool {
    has_repeat_fields(t) && (done ==> t.repeat_done is Some)
}

/// Whether every task of `ts` has the fields of a repeating task on the todo
/// list, or, when `done` holds, on the done list.
fn all_have_repeat_fields(ts: &Vec<Task>, done: bool) -> (b: bool)
    ensures
        b == forall|i: int| 0 <= i < ts@.len() ==> #[trigger] repeat_ready(ts@[i], done),
{
    let mut i: usize = 0;
    while i < ts.len()
        invariant
            i <= ts@.len(),
            forall|j: int| 0 <= j < i ==> #[trigger] repeat_ready(ts@[j], done),
        decreases ts@.len() - i,
    {
        let t = &ts[i];
        if t.date.is_none() || t.time.is_none() || t.repeat_number.is_none() || t.repeat_unit.is_none()
            || (done && t.repeat_done.is_none()) {
            assert(!repeat_ready(ts@[i as int], done));
            return false;
        }
        assert(repeat_ready(ts@[i as int], done));
        i = i + 1;
    }
    true
}

/// Whether the repeating tasks have every field that listing them reads.
pub fn repeating_tasks_well_formed(tasks: &Tasks) -> (b: bool)
    ensures
        b == repeating_well_formed(*tasks),
{
    let todo_ok = all_have_repeat_fields(&tasks.todo, false);
    let done_ok = all_have_repeat_fields(&tasks.done, true);
    proof {
        if !todo_ok {
            let i = choose|i: int| 0 <= i < tasks.todo@.len() && !#[trigger] repeat_ready(tasks.todo@[i], false);
            assert(!has_repeat_fields(tasks.todo@[i]));
        } else {
            assert forall|i: int| 0 <= i < tasks.todo@.len() implies #[trigger] has_repeat_fields(tasks.todo@[i]) by {
                assert(repeat_ready(tasks.todo@[i], false));
            }
        }
        if !done_ok {
            let i = choose|i: int| 0 <= i < tasks.done@.len() && !#[trigger] repeat_ready(tasks.done@[i], true);
            assert(!(has_repeat_fields(tasks.done@[i]) && tasks.done@[i].repeat_done is Some));
        } else {
            assert forall|i: int| 0 <= i < tasks.done@.len() implies #[trigger] has_repeat_fields(tasks.done@[i])
                && tasks.done@[i].repeat_done is Some by {
                assert(repeat_ready(tasks.done@[i], true));
            }
        }
    }
    todo_ok && done_ok
}

/// `t` has a date, a time, an interval and a time unit.
pub open spec fn has_repeat_fields(t: Task) -> bool {
    &&& t.date is Some
    &&& t.time is Some
    &&& t.repeat_number is Some
    &&& t.repeat_unit is Some
}

/// The done task `t` has come due again at the moment `today`, `now`.
pub open spec fn due_again(t: Task, today: Seq<char>, now: Seq<char>) -> bool {
    &&& t.repeat_done->Some_0
    &&& (str_lt(t.date->Some_0@, today) || (t.date->Some_0@ == today && str_lt(
        t.time->Some_0@,
        now,
    )))
}

/// The date and time `t` is next due, one interval after its due date and
/// time, as chrono computes and writes it; for a unit that is none of
/// minutes, hours, days, weeks, months, years (singular or plural) it is the
/// same moment, as chrono writes it back.
pub open spec fn next_due(t: Task) -> Result<(Seq<char>, Seq<char>), TaskError> {
    let date = t.date->Some_0@;
    let time = t.time->Some_0@;
    let dt = date + " "@ + time;
    let unit = t.repeat_unit->Some_0@;
    let n = t.repeat_number->Some_0;
    if !chrono_accepts_datetime(dt) {
        Err(TaskError::DateTimeUnreadable)
    } else {
        let shifted = if unit == "minutes"@ || unit == "minute"@ {
            chrono_plus_minutes(dt, n)
        } else if unit == "hours"@ || unit == "hour"@ {
            chrono_plus_hours(dt, n)
        } else if unit == "days"@ || unit == "day"@ {
            chrono_plus_days(dt, n as u64)
        } else if unit == "weeks"@ || unit == "week"@ {
            chrono_plus_days(dt, (n * 7) as u64)
        } else if unit == "months"@ || unit == "month"@ {
            chrono_plus_months(dt, n)
        } else if unit == "years"@ || unit == "year"@ {
            if n * 12 <= u32::MAX {
                chrono_plus_months(dt, (n * 12) as u32)
            } else {
                None
            }
        } else {
            chrono_plus_minutes(dt, 0)
        };
        match shifted {
            Some(p) => Ok(p),
            None => Err(TaskError::DateTimeOutOfRange),
        }
    }
}

/// `n` is the todo task that the done task `t` turns into when it is due
/// again at `date`, `time`: the same text and interval, not done, and the old
/// due date and time kept as where the new interval started.
pub open spec fn renewed(n: Task, t: Task, date: Seq<char>, time: Seq<char>) -> bool {
    &&& n.task == t.task
    &&& n.date matches Some(d) && d@ == date
    &&& n.time matches Some(tm) && tm@ == time
    &&& n.repeat_number == t.repeat_number
    &&& n.repeat_unit == t.repeat_unit
    &&& n.repeat_done == Some(false)
    &&& n.repeat_original_date == t.date
    &&& n.repeat_original_time == t.time
}

/// Goes through the done tasks in order: those due again at `today`, `now`
/// are renewed (`moved`, in order) and the others kept (`kept`, in order);
/// fails at the first task whose next due date cannot be computed.
pub open spec fn refresh_done(done: Seq<Task>, today: Seq<char>, now: Seq<char>) -> Result<
    (Seq<(Task, Seq<char>, Seq<char>)>, Seq<Task>),
    TaskError,
>
    decreases done.len(),
{
    if done.len() == 0 {
        Ok((Seq::empty(), Seq::empty()))
    } else {
        match refresh_done(done.drop_last(), today, now) {
            Err(e) => Err(e),
            Ok((moved, kept)) => {
                let t = done.last();
                if due_again(t, today, now) {
                    match next_due(t) {
                        Err(e) => Err(e),
                        Ok(p) => Ok((moved.push((t, p.0, p.1)), kept)),
                    }
                } else {
                    Ok((moved, kept.push(t)))
                }
            },
        }
    }
}

/// `a` is due no later than `b`: dates compare first, then times, as text.
pub open spec fn due_le(a: Task, b: Task) -> bool {
    str_lt(a.date->Some_0@, b.date->Some_0@) || (a.date->Some_0@ == b.date->Some_0@ && str_le(
        a.time->Some_0@,
        b.time->Some_0@,
    ))
}

/// `s` with `x` placed after every task due no later than `x`, and before the rest.
pub open spec fn insert_by_due(s: Seq<Task>, x: Task) -> Seq<Task>
    decreases s.len(),
{
    if s.len() == 0 {
        seq![x]
    } else if due_le(s.last(), x) {
        s.push(x)
    } else {
        insert_by_due(s.drop_last(), x).push(s.last())
    }
}

/// `s` sorted by due date and time, tasks due at the same moment keeping
/// their order (`sort_by` on date, then time).
pub open spec fn sort_by_due(s: Seq<Task>) -> Seq<Task>
    decreases s.len(),
{
    if s.len() == 0 {
        s
    } else {
        insert_by_due(sort_by_due(s.drop_last()), s.last())
    }
}

/// Every task of `s` is due no later than the ones after it.
pub open spec fn sorted_by_due(s: Seq<Task>) -> bool {
    forall|i: int, j: int| 0 <= i < j < s.len() ==> due_le(#[trigger] s[i], #[trigger] s[j])
}

/// The entry of a repeating todo task: text, interval, and whether it is due
/// or missed with its date and time.
pub open spec fn repeating_todo_line(today: Seq<char>, now: Seq<char>) -> spec_fn(int, Task) -> Seq<
    char,
> {
    |i: int, t: Task|
        counter_label(i) + ": "@ + t.task@ + "\n   interval: "@ + decimal_chars(
            t.repeat_number->Some_0 as nat,
        ) + " "@ + t.repeat_unit->Some_0@ + "\n   "@ + due_word(
            t.date->Some_0@,
            t.time->Some_0@,
            today,
            now,
        ) + ": "@ + t.date->Some_0@ + " "@ + t.time->Some_0@ + "\n"@
}

/// The entry of a repeating done task: text, interval, date and time.
pub open spec fn repeating_done_line(i: int, t: Task) -> Seq<char> {
    counter_label(i) + ": "@ + t.task@ + "\n   interval: "@ + decimal_chars(
        t.repeat_number->Some_0 as nat,
    ) + " "@ + t.repeat_unit->Some_0@ + "\n   done: "@ + t.date->Some_0@ + " "@ + t.time->Some_0@
        + "\n"@
}

proof fn lemma_due_le_total(a: Task, b: Task)
    ensures
        due_le(a, b) || due_le(b, a),
{
    let (da, db) = (a.date->Some_0@, b.date->Some_0@);
    let (ta, tb) = (a.time->Some_0@, b.time->Some_0@);
    if da != db {
        lemma_str_lt_total(da, db);
    } else if ta != tb {
        lemma_str_lt_total(ta, tb);
    }
}

proof fn lemma_due_le_transitive(a: Task, b: Task, c: Task)
    requires
        due_le(a, b),
        due_le(b, c),
    ensures
        due_le(a, c),
{
    let (da, db, dc) = (a.date->Some_0@, b.date->Some_0@, c.date->Some_0@);
    let (ta, tb, tc) = (a.time->Some_0@, b.time->Some_0@, c.time->Some_0@);
    if str_lt(da, db) && str_lt(db, dc) {
        lemma_str_lt_transitive(da, db, dc);
    }
    if da == db && db == dc && str_lt(ta, tb) && str_lt(tb, tc) {
        lemma_str_lt_transitive(ta, tb, tc);
    }
}

proof fn lemma_insert_by_due_props(s: Seq<Task>, x: Task)
    requires
        sorted_by_due(s),
    ensures
        sorted_by_due(insert_by_due(s, x)),
        insert_by_due(s, x).to_multiset() == s.to_multiset().insert(x),
        insert_by_due(s, x).len() == s.len() + 1,
    decreases s.len(),
{
    broadcast use vstd::seq_lib::to_multiset_build;

    if s.len() == 0 {
        assert(seq![x] =~= Seq::<Task>::empty().push(x));
        assert(Seq::<Task>::empty().to_multiset() =~= Multiset::<Task>::empty()) by {
            Seq::<Task>::empty().to_multiset_ensures();
        }
        assert(s =~= Seq::<Task>::empty());
        assert(insert_by_due(s, x).to_multiset() =~= s.to_multiset().insert(x));
    } else if due_le(s.last(), x) {
        let r = s.push(x);
        assert forall|i: int, j: int| 0 <= i < j < r.len() implies due_le(
            #[trigger] r[i],
            #[trigger] r[j],
        ) by {
            if j == s.len() {
                if i < s.len() - 1 {
                    lemma_due_le_transitive(s[i], s.last(), x);
                }
            }
        }
    } else {
        let s1 = s.drop_last();
        assert(sorted_by_due(s1));
        lemma_insert_by_due_props(s1, x);
        let m = insert_by_due(s1, x);
        let r = m.push(s.last());
        lemma_due_le_total(s.last(), x);
        assert forall|i: int, j: int| 0 <= i < j < r.len() implies due_le(
            #[trigger] r[i],
            #[trigger] r[j],
        ) by {
            if j == m.len() {
                // every task of `m` is `x` or a task of `s1`, all due no later than `s.last()`
                assert(m.to_multiset().contains(m[i])) by {
                    m.to_multiset_ensures();
                }
                assert(s1.to_multiset().insert(x).contains(m[i]));
                if m[i] != x {
                    assert(s1.to_multiset().contains(m[i]));
                    assert(s1.contains(m[i])) by {
                        s1.to_multiset_ensures();
                    }
                    let k = choose|k: int| 0 <= k < s1.len() && s1[k] == m[i];
                    assert(s[k] == m[i]);
                }
            }
        }
        assert(s1.push(s.last()) =~= s);
        assert(r.to_multiset() =~= s.to_multiset().insert(x));
    }
}

/// Sorting by due date and time puts the tasks in due order and keeps every
/// task, as many times as it occurs.
pub proof fn lemma_sort_by_due_props(s: Seq<Task>)
    ensures
        sorted_by_due(sort_by_due(s)),
        sort_by_due(s).to_multiset() == s.to_multiset(),
        sort_by_due(s).len() == s.len(),
    decreases s.len(),
{
    broadcast use vstd::seq_lib::to_multiset_build;

    if s.len() > 0 {
        lemma_sort_by_due_props(s.drop_last());
        lemma_insert_by_due_props(sort_by_due(s.drop_last()), s.last());
        assert(s.drop_last().push(s.last()) =~= s);
    }
}

/// Whether `a` is due no later than `b`.
fn due_le_exec(a: &Task, b: &Task) -> (r: bool)
    requires
        a.date is Some && a.time is Some,
        b.date is Some && b.time is Some,
    ensures
        r == due_le(*a, *b),
{
    let da = a.date.as_ref().unwrap();
    let db = b.date.as_ref().unwrap();
    let ta = a.time.as_ref().unwrap();
    let tb = b.time.as_ref().unwrap();
    str_less(da.as_str(), db.as_str()) || (str_equal(da.as_str(), db.as_str()) && (str_less(
        ta.as_str(),
        tb.as_str(),
    ) || str_equal(ta.as_str(), tb.as_str())))
}

/// Sorts tasks by due date and time, keeping the order of tasks due at the
/// same moment.
pub fn sort_tasks_by_due(tasks: Vec<Task>) -> (r: Vec<Task>)
    requires
        forall|i: int|
            0 <= i < tasks@.len() ==> (#[trigger] tasks@[i]).date is Some && tasks@[i].time is Some,
    ensures
        r@ == sort_by_due(tasks@),
        sorted_by_due(r@),
        r@.to_multiset() == tasks@.to_multiset(),
{
    let ghost orig = tasks@;
    let mut rest = tasks;
    let mut out: Vec<Task> = Vec::new();
    let n = rest.len();
    let mut i: usize = 0;
    while i < n
        invariant
            i <= n,
            n == orig.len(),
            rest@ == orig.skip(i as int),
            out@ == sort_by_due(orig.take(i as int)),
            forall|j: int|
                0 <= j < orig.len() ==> (#[trigger] orig[j]).date is Some && orig[j].time is Some,
        decreases n - i,
    {
        let x = rest.remove(0);
        assert(x == orig[i as int]);
        proof {
            lemma_sort_by_due_props(orig.take(i as int));
            assert forall|j: int| 0 <= j < out@.len() implies (#[trigger] out@[j]).date is Some
                && out@[j].time is Some by {
                assert(out@.to_multiset().count(out@[j]) > 0) by {
                    out@.to_multiset_ensures();
                }
                assert(orig.take(i as int).contains(out@[j])) by {
                    orig.take(i as int).to_multiset_ensures();
                }
            }
        }
        let ghost s = out@;
        let mut k = out.len();
        assert(s.take(k as int) =~= s);
        assert(s.skip(k as int) =~= Seq::<Task>::empty());
        while k > 0 && !due_le_exec(&out[k - 1], &x)
            invariant
                k <= s.len(),
                out@ == s,
                x.date is Some && x.time is Some,
                forall|j: int|
                    0 <= j < s.len() ==> (#[trigger] s[j]).date is Some && s[j].time is Some,
                insert_by_due(s, x) == insert_by_due(s.take(k as int), x) + s.skip(k as int),
            decreases k,
        {
            assert(s.take(k as int).drop_last() =~= s.take(k - 1));
            assert(s.take(k as int).last() == s[k - 1]);
            assert(s.skip(k - 1) =~= seq![s[k - 1]] + s.skip(k as int));
            assert(insert_by_due(s.take(k - 1), x).push(s[k - 1]) + s.skip(k as int)
                =~= insert_by_due(s.take(k - 1), x) + s.skip(k - 1));
            k = k - 1;
        }
        proof {
            if k == 0 {
                assert(s.take(0) =~= Seq::<Task>::empty());
                assert(insert_by_due(s, x) =~= s.insert(0, x));
            } else {
                assert(s.take(k as int).last() == s[k - 1]);
                assert(insert_by_due(s, x) =~= s.insert(k as int, x));
            }
        }
        out.insert(k, x);
        proof {
            assert(orig.take(i + 1).drop_last() =~= orig.take(i as int));
            assert(orig.take(i + 1).last() == x);
            lemma_sort_by_due_props(orig.take(i + 1));
            lemma_sort_by_due_props(orig.take(i as int));
            assert(orig.skip(i + 1) =~= orig.skip(i as int).remove(0));
        }
        i = i + 1;
    }
    assert(orig.take(n as int) =~= orig);
    proof {
        lemma_sort_by_due_props(orig);
    }
    out
}

/// `final_todo`, `final_done` are the lists after listing the repeating
/// tasks `todo`, `done` at the moment `today`, `now`, given that every
/// renewed task can be computed.
pub open spec fn refreshed_lists(
    todo: Seq<Task>,
    done: Seq<Task>,
    final_todo: Seq<Task>,
    final_done: Seq<Task>,
    today: Seq<char>,
    now: Seq<char>,
) -> bool {
    match refresh_done(done, today, now) {
        Err(_) => false,
        Ok((moved, kept)) => if moved.len() == 0 {
            final_todo == todo && final_done == done
        } else {
            exists|new: Seq<Task>|
                #[trigger] renewed_all(new, moved) && final_todo == sort_by_due(todo + new)
                    && final_done == sort_by_due(kept)
        },
    }
}

/// Each task of `new` is the renewal of the corresponding done task of `moved`.
pub open spec fn renewed_all(new: Seq<Task>, moved: Seq<(Task, Seq<char>, Seq<char>)>) -> bool {
    &&& new.len() == moved.len()
    &&& forall|k: int|
        0 <= k < new.len() ==> renewed(#[trigger] new[k], moved[k].0, moved[k].1, moved[k].2)
}

/// What listing the repeating tasks at the moment `today`, `now` does: on
/// success the lists become the refreshed ones, the flag tells whether they
/// changed, and the texts list them; on failure nothing changes.
pub open spec fn repeating_list_outcome(
    before: Tasks,
    after: Tasks,
    r: Result<(String, String, bool), TaskError>,
    today: Seq<char>,
    now: Seq<char>,
) -> bool {
    match r {
        Err(e) => refresh_done(before.done@, today, now) == Err::<
            (Seq<(Task, Seq<char>, Seq<char>)>, Seq<Task>),
            TaskError,
        >(e) && after.todo@ == before.todo@ && after.done@ == before.done@,
        Ok((todo_text, done_text, changed)) => {
            &&& refreshed_lists(before.todo@, before.done@, after.todo@, after.done@, today, now)
            &&& changed == (refresh_done(before.done@, today, now)->Ok_0.0.len() > 0)
            &&& todo_text@ == trim_end_spec(
                joined_lines(after.todo@, repeating_todo_line(today, now)),
            )
            &&& done_text@ == with_done_heading(
                trim_end_spec(joined_lines(after.done@, |i: int, t: Task| repeating_done_line(i, t))),
            )
        },
    }
}

/// A copy of an optional string.
fn copy_opt(o: &Option<String>) -> (r: Option<String>)
    ensures
        r == *o,
{
    match o {
        Some(s) => Some(s.clone()),
        None => None,
    }
}

/// A copy of a task.
fn copy_task(t: &Task) -> (r: Task)
    ensures
        r == *t,
{
    Task {
        task: t.task.clone(),
        date: copy_opt(&t.date),
        time: copy_opt(&t.time),
        repeat_number: t.repeat_number,
        repeat_unit: copy_opt(&t.repeat_unit),
        repeat_done: t.repeat_done,
        repeat_original_date: copy_opt(&t.repeat_original_date),
        repeat_original_time: copy_opt(&t.repeat_original_time),
    }
}

/// The date and time a repeating task is next due.
fn next_due_exec(t: &Task) -> (r: Result<(String, String), TaskError>)
    requires
        has_repeat_fields(*t),
    ensures
        r matches Ok(p) ==> next_due(*t) == Ok::<(Seq<char>, Seq<char>), TaskError>((p.0@, p.1@)),
        r matches Err(e) ==> next_due(*t) == Err::<(Seq<char>, Seq<char>), TaskError>(e),
{
    let date = t.date.as_ref().unwrap();
    let time = t.time.as_ref().unwrap();
    let mut dt = String::from_str(date.as_str());
    dt.append(" ");
    dt.append(time.as_str());
    if !datetime_is_valid(dt.as_str()) {
        return Err(TaskError::DateTimeUnreadable);
    }
    let unit = t.repeat_unit.as_ref().unwrap().as_str();
    let n = t.repeat_number.unwrap();
    let shifted = if str_equal(unit, "minutes") || str_equal(unit, "minute") {
        shift_minutes(dt.as_str(), n)
    } else if str_equal(unit, "hours") || str_equal(unit, "hour") {
        shift_hours(dt.as_str(), n)
    } else if str_equal(unit, "days") || str_equal(unit, "day") {
        shift_days(dt.as_str(), n as u64)
    } else if str_equal(unit, "weeks") || str_equal(unit, "week") {
        shift_days(dt.as_str(), (n as u64) * 7)
    } else if str_equal(unit, "months") || str_equal(unit, "month") {
        shift_months(dt.as_str(), n)
    } else if str_equal(unit, "years") || str_equal(unit, "year") {
        match n.checked_mul(12) {
            Some(m) => shift_months(dt.as_str(), m),
            None => None,
        }
    } else {
        shift_minutes(dt.as_str(), 0)
    };
    match shifted {
        Some(p) => Ok(p),
        None => Err(TaskError::DateTimeOutOfRange),
    }
}

/// The todo task that the done repeating task `t` turns into when it is
/// next due at `date`, `time`: the same text and interval, not done, and its
/// old due date and time kept as where the new interval started.
pub fn renew_task(t: &Task, date: String, time: String) -> (r: Task)
    ensures
        renewed(r, *t, date@, time@),
{
    Task {
        task: t.task.clone(),
        date: Some(date),
        time: Some(time),
        repeat_number: t.repeat_number,
        repeat_unit: copy_opt(&t.repeat_unit),
        repeat_done: Some(false),
        repeat_original_date: copy_opt(&t.date),
        repeat_original_time: copy_opt(&t.time),
    }
}

/// Whether the done task `t` has come due again at the moment `today`, `now`.
fn due_again_exec(t: &Task, today: &String, now: &String) -> (r: bool)
    requires
        has_repeat_fields(*t),
        t.repeat_done is Some,
    ensures
        r == due_again(*t, today@, now@),
{
    let date = t.date.as_ref().unwrap();
    let time = t.time.as_ref().unwrap();
    t.repeat_done.unwrap() && (str_less(date.as_str(), today.as_str()) || (str_equal(
        date.as_str(),
        today.as_str(),
    ) && str_less(time.as_str(), now.as_str())))
}

/// Takes the done tasks that have come due again at `today`, `now` out of
/// the done list and gives back their renewals, in order.
fn renew_due_tasks(repeating_tasks: &mut Tasks, today: &String, now: &String) -> (r: Result<
    Vec<Task>,
    TaskError,
>)
    requires
        repeating_well_formed(*old(repeating_tasks)),
    ensures
        final(repeating_tasks).todo@ == old(repeating_tasks).todo@,
        r matches Err(e) ==> refresh_done(old(repeating_tasks).done@, today@, now@) == Err::<
            (Seq<(Task, Seq<char>, Seq<char>)>, Seq<Task>),
            TaskError,
        >(e) && final(repeating_tasks).done@ == old(repeating_tasks).done@,
        r matches Ok(new) ==> refresh_done(old(repeating_tasks).done@, today@, now@) is Ok
            && renewed_all(new@, refresh_done(old(repeating_tasks).done@, today@, now@)->Ok_0.0)
            && final(repeating_tasks).done@ == refresh_done(
            old(repeating_tasks).done@,
            today@,
            now@,
        )->Ok_0.1,
{
    let ghost done = repeating_tasks.done@;
    let n = repeating_tasks.done.len();
    let mut new_tasks: Vec<Task> = Vec::new();
    let mut kept: Vec<Task> = Vec::new();
    let mut i: usize = 0;
    assert(done.take(0) =~= Seq::<Task>::empty());
    while i < n
        invariant
            i <= n,
            n == done.len(),
            done == repeating_tasks.done@,
            repeating_tasks.todo@ == old(repeating_tasks).todo@,
            done == old(repeating_tasks).done@,
            repeating_well_formed(*old(repeating_tasks)),
            refresh_done(done.take(i as int), today@, now@) is Ok,
            renewed_all(new_tasks@, refresh_done(done.take(i as int), today@, now@)->Ok_0.0),
            kept@ == refresh_done(done.take(i as int), today@, now@)->Ok_0.1,
        decreases n - i,
    {
        let t = &repeating_tasks.done[i];
        assert(has_repeat_fields(*t) && t.repeat_done is Some);
        assert(done.take(i + 1).drop_last() =~= done.take(i as int));
        assert(done.take(i + 1).last() == *t);
        let ghost prev = refresh_done(done.take(i as int), today@, now@)->Ok_0;
        if due_again_exec(t, today, now) {
            match next_due_exec(t) {
                Err(e) => {
                    proof {
                        assert(refresh_done(done.take(i + 1), today@, now@) == Err::<
                            (Seq<(Task, Seq<char>, Seq<char>)>, Seq<Task>),
                            TaskError,
                        >(e));
                        lemma_refresh_done_err_stays(done, (i + 1) as nat, n as nat, today@, now@);
                        assert(done.take(n as int) =~= done);
                    }
                    return Err(e);
                },
                Ok((d, tm)) => {
                    let renewed_task = renew_task(t, d, tm);
                    let ghost before_new = new_tasks@;
                    new_tasks.push(renewed_task);
                    assert forall|k: int| 0 <= k < new_tasks@.len() implies renewed(
                        #[trigger] new_tasks@[k],
                        refresh_done(done.take(i + 1), today@, now@)->Ok_0.0[k].0,
                        refresh_done(done.take(i + 1), today@, now@)->Ok_0.0[k].1,
                        refresh_done(done.take(i + 1), today@, now@)->Ok_0.0[k].2,
                    ) by {
                        if k < before_new.len() {
                            assert(new_tasks@[k] == before_new[k]);
                        }
                    }
                },
            }
        } else {
            let c = copy_task(t);
            kept.push(c);
        }
        i = i + 1;
    }
    assert(done.take(n as int) =~= done);
    repeating_tasks.done = kept;
    Ok(new_tasks)
}

proof fn lemma_refresh_done_err_stays(done: Seq<Task>, k: nat, m: nat, today: Seq<char>, now: Seq<char>)
    requires
        k <= m <= done.len(),
        refresh_done(done.take(k as int), today, now) is Err,
    ensures
        refresh_done(done.take(m as int), today, now) == refresh_done(done.take(k as int), today, now),
    decreases m,
{
    if m > k {
        lemma_refresh_done_err_stays(done, k, (m - 1) as nat, today, now);
        assert(done.take(m as int).drop_last() =~= done.take(m - 1));
    }
}

/// Every renewed and every kept task is one of the done tasks, and when no
/// task is renewed all of them are kept.
proof fn lemma_refresh_done_parts(done: Seq<Task>, today: Seq<char>, now: Seq<char>)
    requires
        refresh_done(done, today, now) is Ok,
    ensures
        forall|k: int|
            0 <= k < refresh_done(done, today, now)->Ok_0.0.len() ==> done.contains(
                #[trigger] refresh_done(done, today, now)->Ok_0.0[k].0,
            ),
        forall|k: int|
            0 <= k < refresh_done(done, today, now)->Ok_0.1.len() ==> done.contains(
                #[trigger] refresh_done(done, today, now)->Ok_0.1[k],
            ),
        refresh_done(done, today, now)->Ok_0.0.len() == 0 ==> refresh_done(done, today, now)->Ok_0.1
            == done,
    decreases done.len(),
{
    if done.len() > 0 {
        let d = done.drop_last();
        lemma_refresh_done_parts(d, today, now);
        let (m0, k0) = refresh_done(d, today, now)->Ok_0;
        let (m, k) = refresh_done(done, today, now)->Ok_0;
        assert forall|x: Task| d.contains(x) implies done.contains(x) by {
            let j = choose|j: int| 0 <= j < d.len() && d[j] == x;
            assert(done[j] == x);
        }
        assert(done.contains(done.last())) by {
            assert(done[done.len() - 1] == done.last());
        }
        assert forall|j: int| 0 <= j < m.len() implies done.contains(#[trigger] m[j].0) by {
            if j < m0.len() {
                assert(m[j] == m0[j]);
                assert(d.contains(m0[j].0));
            }
        }
        assert forall|j: int| 0 <= j < k.len() implies done.contains(#[trigger] k[j]) by {
            if j < k0.len() {
                assert(k[j] == k0[j]);
                assert(d.contains(k0[j]));
            }
        }
        if m.len() == 0 {
            assert(d.push(done.last()) =~= done);
        }
    } else {
        assert(refresh_done(done, today, now)->Ok_0.1 =~= done);
    }
}

/// Sorting by due date and time only rearranges the tasks.
proof fn lemma_sort_by_due_members(s: Seq<Task>)
    ensures
        forall|i: int| 0 <= i < sort_by_due(s).len() ==> s.contains(#[trigger] sort_by_due(s)[i]),
{
    lemma_sort_by_due_props(s);
    let r = sort_by_due(s);
    assert forall|i: int| 0 <= i < r.len() implies s.contains(#[trigger] r[i]) by {
        r.to_multiset_ensures();
        s.to_multiset_ensures();
        assert(r.to_multiset().count(r[i]) > 0);
    }
}

/// The entries of the repeating todo tasks `ts` at the moment `today`, `now`.
#[verifier::spinoff_prover]
#[verifier::rlimit(30)]
fn repeating_todo_lines(ts: &Vec<Task>, today: &String, now: &String) -> (r: String)
    requires
        forall|i: int| 0 <= i < ts@.len() ==> #[trigger] has_repeat_fields(ts@[i]),
    ensures
        r@ == joined_lines(ts@, repeating_todo_line(today@, now@)),
{
    let mut out = String::new();
    let mut i: usize = 0;
    let ghost line = repeating_todo_line(today@, now@);
    assert(out@ =~= joined_lines(ts@.take(0), line));
    while i < ts.len()
        invariant
            i <= ts@.len(),
            forall|i: int| 0 <= i < ts@.len() ==> #[trigger] has_repeat_fields(ts@[i]),
            out@ == joined_lines(ts@.take(i as int), line),
            line == repeating_todo_line(today@, now@),
        decreases ts@.len() - i,
    {
        let ghost before = out@;
        let t = &ts[i];
        assert(has_repeat_fields(*t));
        let date = t.date.as_ref().unwrap();
        let time = t.time.as_ref().unwrap();
        let unit = t.repeat_unit.as_ref().unwrap();
        let word = check_if_due_or_not_at(date, time, today, now);
        crate::listing::push_counter(&mut out, i);
        out.append(": ");
        out.append(t.task.as_str());
        out.append("\n   interval: ");
        push_decimal(&mut out, t.repeat_number.unwrap() as usize);
        out.append(" ");
        out.append(unit.as_str());
        out.append("\n   ");
        out.append(word.as_str());
        out.append(": ");
        out.append(date.as_str());
        out.append(" ");
        out.append(time.as_str());
        out.append("\n");
        assert(ts@.take(i + 1).drop_last() =~= ts@.take(i as int));
        assert(out@ =~= before + line(i as int, ts@[i as int]));
        i = i + 1;
    }
    assert(ts@.take(i as int) =~= ts@);
    out
}

/// The entries of the repeating done tasks `ts`.
#[verifier::spinoff_prover]
#[verifier::rlimit(30)]
fn repeating_done_lines(ts: &Vec<Task>) -> (r: String)
    requires
        forall|i: int| 0 <= i < ts@.len() ==> #[trigger] has_repeat_fields(ts@[i]),
    ensures
        r@ == joined_lines(ts@, |i: int, t: Task| repeating_done_line(i, t)),
{
    let mut out = String::new();
    let mut i: usize = 0;
    let ghost line = |i: int, t: Task| repeating_done_line(i, t);
    assert(out@ =~= joined_lines(ts@.take(0), line));
    while i < ts.len()
        invariant
            i <= ts@.len(),
            forall|i: int| 0 <= i < ts@.len() ==> #[trigger] has_repeat_fields(ts@[i]),
            out@ == joined_lines(ts@.take(i as int), line),
            line == (|i: int, t: Task| repeating_done_line(i, t)),
        decreases ts@.len() - i,
    {
        let ghost before = out@;
        let t = &ts[i];
        assert(has_repeat_fields(*t));
        let date = t.date.as_ref().unwrap();
        let time = t.time.as_ref().unwrap();
        let unit = t.repeat_unit.as_ref().unwrap();
        crate::listing::push_counter(&mut out, i);
        out.append(": ");
        out.append(t.task.as_str());
        out.append("\n   interval: ");
        push_decimal(&mut out, t.repeat_number.unwrap() as usize);
        out.append(" ");
        out.append(unit.as_str());
        out.append("\n   done: ");
        out.append(date.as_str());
        out.append(" ");
        out.append(time.as_str());
        out.append("\n");
        assert(ts@.take(i + 1).drop_last() =~= ts@.take(i as int));
        assert(out@ =~= before + line(i as int, ts@[i as int]));
        i = i + 1;
    }
    assert(ts@.take(i as int) =~= ts@);
    out
}

/// Lists the repeating tasks at the moment `today`, `now`. Done tasks that
/// have come due again are first renewed into the todo list, and then both
/// lists are sorted by due date and time; the flag says whether the lists
/// changed, in which case they are to be saved.
pub fn repeating_tasks_list_at(repeating_tasks: &mut Tasks, today: &String, now: &String) -> (r:
    Result<(String, String, bool), TaskError>)
    requires
        repeating_well_formed(*old(repeating_tasks)),
    ensures
        repeating_list_outcome(*old(repeating_tasks), *final(repeating_tasks), r, today@, now@),
{
    let ghost before = *repeating_tasks;
    let mut new_tasks = match renew_due_tasks(repeating_tasks, today, now) {
        Ok(v) => v,
        Err(e) => {
            return Err(e);
        },
    };
    let ghost res = refresh_done(before.done@, today@, now@)->Ok_0;
    let ghost new_v = new_tasks@;
    let changed = new_tasks.len() > 0;
    proof {
        lemma_refresh_done_parts(before.done@, today@, now@);
        assert forall|k: int| 0 <= k < new_v.len() implies #[trigger] has_repeat_fields(new_v[k]) by {
            assert(renewed(new_v[k], res.0[k].0, res.0[k].1, res.0[k].2));
            assert(before.done@.contains(res.0[k].0));
            let j = choose|j: int| 0 <= j < before.done@.len() && before.done@[j] == res.0[k].0;
            assert(has_repeat_fields(before.done@[j]));
        }
        assert forall|k: int| 0 <= k < res.1.len() implies #[trigger] has_repeat_fields(res.1[k]) by {
            assert(before.done@.contains(res.1[k]));
            let j = choose|j: int| 0 <= j < before.done@.len() && before.done@[j] == res.1[k];
            assert(has_repeat_fields(before.done@[j]));
        }
    }
    if changed {
        let mut todo: Vec<Task> = Vec::new();
        std::mem::swap(&mut todo, &mut repeating_tasks.todo);
        todo.append(&mut new_tasks);
        let ghost joined = todo@;
        assert forall|i: int| 0 <= i < joined.len() implies #[trigger] has_repeat_fields(joined[i]) by {
            if i < before.todo@.len() {
                assert(has_repeat_fields(before.todo@[i]));
            } else {
                assert(joined[i] == new_v[i - before.todo@.len()]);
                assert(has_repeat_fields(new_v[i - before.todo@.len()]));
            }
        }
        assert forall|i: int| 0 <= i < joined.len() implies (#[trigger] joined[i]).date is Some
            && joined[i].time is Some by {
            assert(has_repeat_fields(joined[i]));
        }
        let sorted_todo = sort_tasks_by_due(todo);
        let mut done: Vec<Task> = Vec::new();
        std::mem::swap(&mut done, &mut repeating_tasks.done);
        assert(done@ == res.1);
        assert forall|i: int| 0 <= i < res.1.len() implies (#[trigger] res.1[i]).date is Some
            && res.1[i].time is Some by {
            assert(has_repeat_fields(res.1[i]));
        }
        let sorted_done = sort_tasks_by_due(done);
        repeating_tasks.todo = sorted_todo;
        repeating_tasks.done = sorted_done;
        assert(renewed_all(new_v, res.0));
        assert(repeating_tasks.todo@ == sort_by_due(before.todo@ + new_v));
        proof {
            lemma_sort_by_due_members(joined);
            lemma_sort_by_due_members(res.1);
            assert forall|i: int| 0 <= i < repeating_tasks.todo@.len() implies #[trigger] has_repeat_fields(
                repeating_tasks.todo@[i],
            ) by {
                assert(joined.contains(repeating_tasks.todo@[i]));
            }
            assert forall|i: int| 0 <= i < repeating_tasks.done@.len() implies #[trigger] has_repeat_fields(
                repeating_tasks.done@[i],
            ) by {
                assert(res.1.contains(repeating_tasks.done@[i]));
            }
        }
    }
    let todo_text = repeating_todo_lines(&repeating_tasks.todo, today, now);
    let done_text = repeating_done_lines(&repeating_tasks.done);
    let todo_text = trim_end(todo_text.as_str());
    let done_text = trim_end(done_text.as_str());
    let done_text = crate::listing::add_done_heading(done_text);
    Ok((todo_text, done_text, changed))
}

/// Lists the repeating tasks now, by the local clock: done tasks that have
/// come due again are renewed into the todo list and both lists are then
/// sorted by due date and time; the flag says whether the lists changed, in
/// which case they are to be saved.
pub fn repeating_tasks_list(repeating_tasks: &mut Tasks) -> (r: Result<(String, String, bool), TaskError>)
    requires
        repeating_well_formed(*old(repeating_tasks)),
    ensures
        exists|today: Seq<char>, now: Seq<char>|
            #[trigger] repeating_list_outcome(*old(repeating_tasks), *final(repeating_tasks), r, today, now),
{
    let (today, now) = local_now();
    repeating_tasks_list_at(repeating_tasks, &today, &now)
}

} // verus!

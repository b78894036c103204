//! The text that lists the tasks: one numbered entry per task, the done list
//! under a `DONE` heading.

use vstd::prelude::*;
use vstd::string::*;
use crate::datetime::local_now;
use crate::tasks::{Task, Tasks};
use crate::text::{decimal_chars, push_decimal, str_lt, str_less, str_equal};

verus! {

/// `c` has the Unicode `White_Space` property (`char::is_whitespace`).
pub open spec fn is_white_space(c: char) -> bool {
    let v = c as u32;
    ||| 9 <= v <= 13
    ||| v == 32
    ||| v == 0x85
    ||| v == 0xA0
    ||| v == 0x1680
    ||| 0x2000 <= v <= 0x200A
    ||| v == 0x2028
    ||| v == 0x2029
    ||| v == 0x202F
    ||| v == 0x205F
    ||| v == 0x3000
}

/// `s` without the white space at its end (`str::trim_end`).
pub open spec fn trim_end_spec(s: Seq<char>) -> Seq<char>
    decreases s.len(),
{
    if s.len() > 0 && is_white_space(s.last()) {
        trim_end_spec(s.drop_last())
    } else {
        s
    }
}

/// `s` without the white space at its start (`str::trim_start`).
pub open spec fn trim_start_spec(s: Seq<char>) -> Seq<char>
    decreases s.len(),
{
    if s.len() > 0 && is_white_space(s[0]) {
        trim_start_spec(s.drop_first())
    } else {
        s
    }
}

/// `s` without the white space at either end (`str::trim`).
pub open spec fn trim_spec(s: Seq<char>) -> Seq<char> {
    trim_start_spec(trim_end_spec(s))
}

/// The number in front of the task at index `i`: its position, counted from 1.
pub open spec fn counter_label(i: int) -> Seq<char> {
    decimal_chars((i + 1) as nat)
}

/// The entries of the tasks `ts`, one after the other.
pub open spec fn joined_lines(ts: Seq<Task>, line: spec_fn(int, Task) -> Seq<char>) -> Seq<char>
    decreases ts.len(),
{
    if ts.len() == 0 {
        Seq::empty()
    } else {
        joined_lines(ts.drop_last(), line) + line(ts.len() - 1, ts.last())
    }
}

/// The done list's text under its heading, or nothing when it is empty.
pub open spec fn with_done_heading(s: Seq<char>) -> Seq<char> {
    if s.len() == 0 {
        s
    } else {
        "DONE\n---\n"@ + s
    }
}

/// The entry of a regular task: `position: text`.
pub open spec fn regular_line(i: int, t: Task) -> Seq<char> {
    counter_label(i) + ": "@ + t.task@ + "\n"@
}

/// Whether a deadline due at `date` and `time` has passed at the moment
/// `today`, `now`: `MISSED` if it has, else `due`. Dates and times compare as text.
pub open spec fn due_word(date: Seq<char>, time: Seq<char>, today: Seq<char>, now: Seq<char>) -> Seq<
    char,
> {
    if str_lt(date, today) || (date == today && str_lt(time, now)) {
        "MISSED"@
    } else {
        "due"@
    }
}

/// The entry of a deadline todo task: its text, and whether it is due or
/// missed with its date and time.
pub open spec fn deadline_todo_line(today: Seq<char>, now: Seq<char>) -> spec_fn(int, Task) -> Seq<
    char,
> {
    |i: int, t: Task|
        counter_label(i) + ": "@ + t.task@ + "\n   "@ + due_word(
            t.date->Some_0@,
            t.time->Some_0@,
            today,
            now,
        ) + ": "@ + t.date->Some_0@ + " "@ + t.time->Some_0@ + "\n"@
}

/// The entry of a deadline done task: its text, and its date and time.
pub open spec fn deadline_done_line(i: int, t: Task) -> Seq<char> {
    counter_label(i) + ": "@ + t.task@ + "\n   done: "@ + t.date->Some_0@ + " "@ + t.time->Some_0@
        + "\n"@
}

/// Every task of `ts` has a date and a time.
pub open spec fn all_dated(ts: Seq<Task>) -> bool {
    forall|i: int| 0 <= i < ts.len() ==> (#[trigger] ts[i]).date is Some && ts[i].time is Some
}

/// Whether every task of `ts` has a date and a time.
pub fn all_dated_tasks(ts: &Vec<Task>) -> (b: bool)
    ensures
        b == all_dated(ts@),
{
    let mut i: usize = 0;
    while i < ts.len()
        invariant
            i <= ts@.len(),
            forall|j: int| 0 <= j < i ==> (#[trigger] ts@[j]).date is Some && ts@[j].time is Some,
        decreases ts@.len() - i,
    {
        if ts[i].date.is_none() || ts[i].time.is_none() {
            return false;
        }
        i = i + 1;
    }
    true
}

/// Whether `c` is white space.
pub fn is_white_space_char(c: char) -> (b: bool)
    ensures
        b == is_white_space(c),
{
    let v = c as u32;
    (9 <= v && v <= 13) || v == 32 || v == 0x85 || v == 0xA0 || v == 0x1680 || (0x2000 <= v && v
        <= 0x200A) || v == 0x2028 || v == 0x2029 || v == 0x202F || v == 0x205F || v == 0x3000
}

/// `s` without the white space at its end.
pub fn trim_end(s: &str) -> (r: String)
    ensures
        r@ == trim_end_spec(s@),
{
    let n = s.unicode_len();
    let mut k = n;
    assert(s@.take(n as int) =~= s@);
    while k > 0 && is_white_space_char(s.get_char(k - 1))
        invariant
            k <= n,
            n == s@.len(),
            trim_end_spec(s@) == trim_end_spec(s@.take(k as int)),
        decreases k,
    {
        assert(s@.take(k as int).drop_last() =~= s@.take(k - 1));
        assert(s@.take(k as int).last() == s@[k - 1]);
        k = k - 1;
    }
    proof {
        if k > 0 {
            assert(s@.take(k as int).last() == s@[k - 1]);
        }
    }
    let part = s.substring_char(0, k);
    assert(part@ =~= s@.take(k as int));
    String::from_str(part)
}

/// `s` without the white space at either end.
pub fn trim(s: &str) -> (r: String)
    ensures
        r@ == trim_spec(s@),
{
    let t = trim_end(s);
    let ts = t.as_str();
    let n = ts.unicode_len();
    let mut k: usize = 0;
    assert(ts@.skip(0) =~= ts@);
    while k < n && is_white_space_char(ts.get_char(k))
        invariant
            k <= n,
            n == ts@.len(),
            trim_start_spec(ts@) == trim_start_spec(ts@.skip(k as int)),
        decreases n - k,
    {
        assert(ts@.skip(k as int).drop_first() =~= ts@.skip(k + 1));
        assert(ts@.skip(k as int)[0] == ts@[k as int]);
        k = k + 1;
    }
    proof {
        if k < n {
            assert(ts@.skip(k as int)[0] == ts@[k as int]);
        }
    }
    let part = ts.substring_char(k, n);
    assert(part@ =~= ts@.skip(k as int));
    String::from_str(part)
}

/// Appends the number in front of the task at index `i`.
pub(crate) fn push_counter(out: &mut String, i: usize)
    requires
        i < usize::MAX,
    ensures
        final(out)@ == old(out)@ + counter_label(i as int),
{
    push_decimal(out, i + 1);
}

/// The entries of the regular tasks `ts`.
fn regular_lines(ts: &Vec<Task>) -> (r: String)
    ensures
        r@ == joined_lines(ts@, |i: int, t: Task| regular_line(i, t)),
{
    let mut out = String::new();
    let mut i: usize = 0;
    let ghost line = |i: int, t: Task| regular_line(i, t);
    assert(out@ =~= joined_lines(ts@.take(0), line));
    while i < ts.len()
        invariant
            i <= ts@.len(),
            out@ == joined_lines(ts@.take(i as int), line),
            line == (|i: int, t: Task| regular_line(i, t)),
        decreases ts@.len() - i,
    {
        let ghost before = out@;
        push_counter(&mut out, i);
        out.append(": ");
        out.append(ts[i].task.as_str());
        out.append("\n");
        assert(ts@.take(i + 1).drop_last() =~= ts@.take(i as int));
        assert(out@ =~= before + regular_line(i as int, ts@[i as int]));
        i = i + 1;
    }
    assert(ts@.take(i as int) =~= ts@);
    out
}

/// Puts the `DONE` heading in front of a non-empty done list's text.
pub(crate) fn add_done_heading(s: String) -> (r: String)
    ensures
        r@ == with_done_heading(s@),
{
    if s.unicode_len() == 0 {
        s
    } else {
        let mut out = String::from_str("DONE\n---\n");
        out.append(s.as_str());
        out
    }
}

/// The texts that list the regular todo tasks and the regular done tasks.
pub fn regular_tasks_list(regular_tasks: Tasks) -> (r: (String, String))
    ensures
        r.0@ == trim_end_spec(joined_lines(regular_tasks.todo@, |i: int, t: Task| regular_line(i, t))),
        r.1@ == with_done_heading(
            trim_end_spec(joined_lines(regular_tasks.done@, |i: int, t: Task| regular_line(i, t))),
        ),
{
    let todo = regular_lines(&regular_tasks.todo);
    let done = regular_lines(&regular_tasks.done);
    let todo = trim_end(todo.as_str());
    let done = trim_end(done.as_str());
    (todo, add_done_heading(done))
}

/// `MISSED` when the deadline `date`, `time` lies before the moment `today`,
/// `now`, else `due`.
pub fn check_if_due_or_not_at(date: &String, time: &String, today: &String, now: &String) -> (r: String)
    ensures
        r@ == due_word(date@, time@, today@, now@),
{
    if str_less(date.as_str(), today.as_str()) || (str_equal(date.as_str(), today.as_str())
        && str_less(time.as_str(), now.as_str())) {
        String::from_str("MISSED")
    } else {
        String::from_str("due")
    }
}

/// `MISSED` when the deadline `date`, `time` has passed, else `due`.
pub fn check_if_due_or_not(date: &String, time: &String) -> (r: String)
    ensures
        exists|today: Seq<char>, now: Seq<char>| r@ == #[trigger] due_word(date@, time@, today, now),
{
    let (today, now) = local_now();
    check_if_due_or_not_at(date, time, &today, &now)
}

/// The entries of the deadline todo tasks `ts` at the moment `today`, `now`.
fn deadline_todo_lines(ts: &Vec<Task>, today: &String, now: &String) -> (r: String)
    requires
        all_dated(ts@),
    ensures
        r@ == joined_lines(ts@, deadline_todo_line(today@, now@)),
{
    let mut out = String::new();
    let mut i: usize = 0;
    let ghost line = deadline_todo_line(today@, now@);
    assert(out@ =~= joined_lines(ts@.take(0), line));
    while i < ts.len()
        invariant
            i <= ts@.len(),
            all_dated(ts@),
            out@ == joined_lines(ts@.take(i as int), line),
            line == deadline_todo_line(today@, now@),
        decreases ts@.len() - i,
    {
        let ghost before = out@;
        let t = &ts[i];
        assert(t.date is Some && t.time is Some);
        let date = t.date.as_ref().unwrap();
        let time = t.time.as_ref().unwrap();
        let word = check_if_due_or_not_at(date, time, today, now);
        push_counter(&mut out, i);
        out.append(": ");
        out.append(t.task.as_str());
        out.append("\n   ");
        out.append(word.as_str());
        out.append(": ");
        out.append(date.as_str());
        out.append(" ");
        out.append(time.as_str());
        out.append("\n");
        assert(ts@.take(i + 1).drop_last() =~= ts@.take(i as int));
        assert(out@ =~= before + line(i as int, ts@[i as int]));
        i = i + 1;
    }
    assert(ts@.take(i as int) =~= ts@);
    out
}

/// The entries of the deadline done tasks `ts`.
fn deadline_done_lines(ts: &Vec<Task>) -> (r: String)
    requires
        all_dated(ts@),
    ensures
        r@ == joined_lines(ts@, |i: int, t: Task| deadline_done_line(i, t)),
{
    let mut out = String::new();
    let mut i: usize = 0;
    let ghost line = |i: int, t: Task| deadline_done_line(i, t);
    assert(out@ =~= joined_lines(ts@.take(0), line));
    while i < ts.len()
        invariant
            i <= ts@.len(),
            all_dated(ts@),
            out@ == joined_lines(ts@.take(i as int), line),
            line == (|i: int, t: Task| deadline_done_line(i, t)),
        decreases ts@.len() - i,
    {
        let ghost before = out@;
        let t = &ts[i];
        assert(t.date is Some && t.time is Some);
        let date = t.date.as_ref().unwrap();
        let time = t.time.as_ref().unwrap();
        push_counter(&mut out, i);
        out.append(": ");
        out.append(t.task.as_str());
        out.append("\n   done: ");
        out.append(date.as_str());
        out.append(" ");
        out.append(time.as_str());
        out.append("\n");
        assert(ts@.take(i + 1).drop_last() =~= ts@.take(i as int));
        assert(out@ =~= before + line(i as int, ts@[i as int]));
        i = i + 1;
    }
    assert(ts@.take(i as int) =~= ts@);
    out
}

/// The texts that list the deadline todo tasks (each due or missed at the
/// moment `today`, `now`) and the deadline done tasks.
pub fn deadline_tasks_list_at(deadline_tasks: Tasks, today: &String, now: &String) -> (r: (
    String,
    String,
))
    requires
        all_dated(deadline_tasks.todo@),
        all_dated(deadline_tasks.done@),
    ensures
        r.0@ == trim_end_spec(joined_lines(deadline_tasks.todo@, deadline_todo_line(today@, now@))),
        r.1@ == with_done_heading(
            trim_end_spec(
                joined_lines(deadline_tasks.done@, |i: int, t: Task| deadline_done_line(i, t)),
            ),
        ),
{
    let todo = deadline_todo_lines(&deadline_tasks.todo, today, now);
    let done = deadline_done_lines(&deadline_tasks.done);
    let todo = trim_end(todo.as_str());
    let done = trim_end(done.as_str());
    (todo, add_done_heading(done))
}

/// The texts that list the deadline todo tasks (each due or missed now) and
/// the deadline done tasks.
pub fn deadline_tasks_list(deadline_tasks: Tasks) -> (r: (String, String))
    requires
        all_dated(deadline_tasks.todo@),
        all_dated(deadline_tasks.done@),
    ensures
        exists|today: Seq<char>, now: Seq<char>|
            r.0@ == trim_end_spec(
                joined_lines(deadline_tasks.todo@, #[trigger] deadline_todo_line(today, now)),
            ),
        r.1@ == with_done_heading(
            trim_end_spec(
                joined_lines(deadline_tasks.done@, |i: int, t: Task| deadline_done_line(i, t)),
            ),
        ),
{
    let (today, now) = local_now();
    deadline_tasks_list_at(deadline_tasks, &today, &now)
}

} // verus!

//! Properties that hold across the commands of the library.

use vstd::prelude::*;
use vstd::string::*;
use crate::filtering::{views, position_ok, position_of, strictly_increasing, is_parsed_from};
use crate::text::{decimal_chars, lemma_parse_decimal_chars, parse_usize_spec};
use crate::list_ops::selected;
use crate::helpers::{separated_lists, separator, lists_text, lines_text, lines_of, scan_lines, strip_cr};
use crate::positions::{candidates, drop_positions, take_positions_desc};
use crate::repeating::{refresh_done, due_again, has_repeat_fields, renewed_all};
use crate::datetime::{
    chrono_accepts_datetime, chrono_plus_minutes, chrono_plus_hours, chrono_plus_days, chrono_plus_months,
};
use crate::errors::TaskError;
use crate::tasks::Task;

verus! {

/// Moving the tasks at some positions from one list to the end of another
/// (marking done, or not done) loses and invents no task: the two lists hold,
/// together, the same tasks before and after.
pub proof fn law_moving_keeps_every_task<A>(src: Seq<A>, dest: Seq<A>, p: Set<int>)
    ensures
        (drop_positions(src, p) + (dest + take_positions_desc(src, p))).to_multiset() == (src
            + dest).to_multiset(),
    decreases src.len(),
{
    broadcast use vstd::seq_lib::group_to_multiset_ensures;

    lemma_split_keeps_every_item(src, p);
    vstd::seq_lib::lemma_multiset_commutative(drop_positions(src, p), dest + take_positions_desc(src, p));
    vstd::seq_lib::lemma_multiset_commutative(dest, take_positions_desc(src, p));
    vstd::seq_lib::lemma_multiset_commutative(drop_positions(src, p), take_positions_desc(src, p));
    vstd::seq_lib::lemma_multiset_commutative(src, dest);
    vstd::seq_lib::lemma_multiset_commutative(dest + take_positions_desc(src, p), drop_positions(src, p));
    assert((dest + take_positions_desc(src, p)) + drop_positions(src, p) =~= dest + (
    take_positions_desc(src, p) + drop_positions(src, p)));
    vstd::seq_lib::lemma_multiset_commutative(dest, take_positions_desc(src, p) + drop_positions(src, p));
    vstd::seq_lib::lemma_multiset_commutative(take_positions_desc(src, p), drop_positions(src, p));
}

proof fn lemma_split_keeps_every_item<A>(s: Seq<A>, p: Set<int>)
    ensures
        (drop_positions(s, p) + take_positions_desc(s, p)).to_multiset() == s.to_multiset(),
    decreases s.len(),
{
    broadcast use vstd::seq_lib::group_to_multiset_ensures;

    if s.len() > 0 {
        let s1 = s.drop_last();
        lemma_split_keeps_every_item(s1, p);
        let d = drop_positions(s1, p);
        let t = take_positions_desc(s1, p);
        vstd::seq_lib::lemma_multiset_commutative(d, t);
        vstd::seq_lib::lemma_multiset_commutative(s1, seq![s.last()]);
        assert(s1 + seq![s.last()] =~= s);
        if p.contains(s.len() as int) {
            vstd::seq_lib::lemma_multiset_commutative(d, seq![s.last()] + t);
            vstd::seq_lib::lemma_multiset_commutative(seq![s.last()], t);
        } else {
            assert(d.push(s.last()) + t =~= d + (seq![s.last()] + t));
            vstd::seq_lib::lemma_multiset_commutative(d, seq![s.last()] + t);
            vstd::seq_lib::lemma_multiset_commutative(seq![s.last()], t);
            vstd::seq_lib::lemma_multiset_commutative(d.push(s.last()), t);
        }
    }
}

/// A line that the list file can hold as it is: no newline in it, and no
/// carriage return at its end.
pub open spec fn one_line(l: Seq<char>) -> bool {
    &&& forall|i: int| 0 <= i < l.len() ==> l[i] != '\n'
    &&& !(l.len() > 0 && l.last() == '\r')
}

/// An item the list file keeps as it is when read: one line, not the
/// separator, of at most 50 characters.
pub open spec fn keepable(l: Seq<char>) -> bool {
    one_line(l) && l != separator() && l.len() <= 50
}

/// Lines that read as `todo`, a separator line, then `done`, are read back
/// as those two lists when the todo list has at most 15 lines, the done list
/// at most 30, and every line is kept:
/// what the list file holds after a write is what the next read gives.
pub proof fn law_plain_lists_read_back(lines: Seq<String>, todo: Seq<String>, done: Seq<String>)
    requires
        views(lines) == views(todo) + seq![separator()] + views(done),
        todo.len() <= 15,
        done.len() <= 30,
        forall|i: int| 0 <= i < todo.len() ==> #[trigger] keepable(todo[i]@),
        forall|i: int| 0 <= i < done.len() ==> #[trigger] keepable(done[i]@),
    ensures
        views(separated_lists(lines).0) == views(todo),
        views(separated_lists(lines).1) == views(done),
        separated_lists(lines).2,
{
    let k = todo.len();
    assert(lines.len() == k + 1 + done.len()) by {
        assert(views(lines).len() == lines.len());
    }
    lemma_read_todo_part(lines, todo, done, k);
    lemma_read_done_part(lines, todo, done, done.len());
    assert(lines.take(lines.len() as int) =~= lines);
    assert(todo.take(k as int) =~= todo);
    assert(done.take(done.len() as int) =~= done);
}

proof fn lemma_line_at(lines: Seq<String>, todo: Seq<String>, done: Seq<String>, i: int)
    requires
        views(lines) == views(todo) + seq![separator()] + views(done),
        0 <= i < lines.len(),
    ensures
        i < todo.len() ==> lines[i]@ == todo[i]@,
        i == todo.len() ==> lines[i]@ == separator(),
        i > todo.len() ==> lines[i]@ == done[i - todo.len() - 1]@,
{
    assert(lines.len() == todo.len() + 1 + done.len()) by {
        assert(views(lines).len() == lines.len());
    }
    assert(views(lines)[i] == lines[i]@);
    if i < todo.len() {
        assert(views(todo)[i] == todo[i]@);
    } else if i > todo.len() {
        assert(views(done)[i - todo.len() - 1] == done[i - todo.len() - 1]@);
    }
}

proof fn lemma_read_todo_part(lines: Seq<String>, todo: Seq<String>, done: Seq<String>, k: nat)
    requires
        views(lines) == views(todo) + seq![separator()] + views(done),
        k <= todo.len() <= 15,
        forall|i: int| 0 <= i < todo.len() ==> #[trigger] keepable(todo[i]@),
    ensures
        views(separated_lists(lines.take(k as int)).0) == views(todo.take(k as int)),
        separated_lists(lines.take(k as int)).0.len() == k,
        separated_lists(lines.take(k as int)).1.len() == 0,
        !separated_lists(lines.take(k as int)).2,
    decreases k,
{
    assert(lines.len() == todo.len() + 1 + done.len()) by {
        assert(views(lines).len() == lines.len());
    }
    if k > 0 {
        lemma_read_todo_part(lines, todo, done, (k - 1) as nat);
        lemma_line_at(lines, todo, done, k - 1);
        assert(keepable(todo[k - 1]@));
        assert(lines.take(k as int).drop_last() =~= lines.take(k - 1));
        assert(lines.take(k as int).last() == lines[k - 1]);
        let prev = separated_lists(lines.take(k - 1)).0;
        assert(views(prev.push(lines[k - 1])) =~= views(prev).push(lines[k - 1]@));
        assert(views(todo.take(k as int)) =~= views(todo.take(k - 1)).push(todo[k - 1]@));
    } else {
        assert(lines.take(0) =~= Seq::<String>::empty());
        assert(views(todo.take(0)) =~= Seq::<Seq<char>>::empty());
        assert(views(Seq::<String>::empty()) =~= Seq::<Seq<char>>::empty());
    }
}

proof fn lemma_read_done_part(lines: Seq<String>, todo: Seq<String>, done: Seq<String>, j: nat)
    requires
        views(lines) == views(todo) + seq![separator()] + views(done),
        todo.len() <= 15,
        j <= done.len() <= 30,
        forall|i: int| 0 <= i < todo.len() ==> #[trigger] keepable(todo[i]@),
        forall|i: int| 0 <= i < done.len() ==> #[trigger] keepable(done[i]@),
    ensures
        views(separated_lists(lines.take((todo.len() + 1 + j) as int)).0) == views(todo),
        views(separated_lists(lines.take((todo.len() + 1 + j) as int)).1) == views(done.take(j as int)),
        separated_lists(lines.take((todo.len() + 1 + j) as int)).1.len() == j,
        separated_lists(lines.take((todo.len() + 1 + j) as int)).2,
    decreases j,
{
    let k = todo.len();
    assert(lines.len() == k + 1 + done.len()) by {
        assert(views(lines).len() == lines.len());
    }
    if j > 0 {
        lemma_read_done_part(lines, todo, done, (j - 1) as nat);
        let m = (k + 1 + j) as int;
        lemma_line_at(lines, todo, done, m - 1);
        assert(keepable(done[j - 1]@));
        assert(lines.take(m).drop_last() =~= lines.take(m - 1));
        assert(lines.take(m).last() == lines[m - 1]);
        let prev = separated_lists(lines.take(m - 1)).1;
        assert(views(prev.push(lines[m - 1])) =~= views(prev).push(lines[m - 1]@));
        assert(views(done.take(j as int)) =~= views(done.take(j - 1)).push(done[j - 1]@));
    } else {
        lemma_read_todo_part(lines, todo, done, k);
        lemma_line_at(lines, todo, done, k as int);
        assert(lines.take(k + 1int).drop_last() =~= lines.take(k as int));
        assert(lines.take(k + 1int).last() == lines[k as int]);
        assert(todo.take(k as int) =~= todo);
        assert(views(done.take(0)) =~= Seq::<Seq<char>>::empty());
        assert(views(Seq::<String>::empty()) =~= Seq::<Seq<char>>::empty());
    }
}

proof fn lemma_scan_append(a: Seq<char>, b: Seq<char>)
    requires
        scan_lines(a).1.len() == 0,
    ensures
        scan_lines(a + b) == (scan_lines(a).0 + scan_lines(b).0, scan_lines(b).1),
    decreases b.len(),
{
    if b.len() == 0 {
        assert(a + b =~= a);
        assert(scan_lines(a).0 + Seq::<Seq<char>>::empty() =~= scan_lines(a).0);
        assert(scan_lines(a).1 =~= Seq::<char>::empty());
    } else {
        lemma_scan_append(a, b.drop_last());
        assert((a + b).drop_last() =~= a + b.drop_last());
        assert((a + b).last() == b.last());
        let (e0, _c0) = scan_lines(b.drop_last());
        let (e1, c1) = scan_lines(b.drop_last());
        assert((scan_lines(a).0 + e1).push(strip_cr(c1)) =~= scan_lines(a).0 + e1.push(strip_cr(c1)));
    }
}

proof fn lemma_scan_plain(l: Seq<char>)
    requires
        forall|i: int| 0 <= i < l.len() ==> l[i] != '\n',
    ensures
        scan_lines(l) == (Seq::<Seq<char>>::empty(), l),
    decreases l.len(),
{
    if l.len() > 0 {
        lemma_scan_plain(l.drop_last());
        assert(l.drop_last().push(l.last()) =~= l);
    } else {
        assert(l =~= Seq::<char>::empty());
    }
}

proof fn lemma_scan_one_line(l: Seq<char>)
    requires
        one_line(l),
    ensures
        scan_lines(l + "\n"@) == (seq![l], Seq::<char>::empty()),
{
    reveal_strlit("\n");
    lemma_scan_plain(l);
    assert((l + "\n"@).drop_last() =~= l);
    assert((l + "\n"@).last() == '\n');
    assert(Seq::<Seq<char>>::empty().push(l) =~= seq![l]);
}

proof fn lemma_scan_lines_text(ls: Seq<String>)
    requires
        forall|i: int| 0 <= i < ls.len() ==> #[trigger] one_line(ls[i]@),
    ensures
        scan_lines(lines_text(ls)) == (views(ls), Seq::<char>::empty()),
    decreases ls.len(),
{
    if ls.len() == 0 {
        assert(views(ls) =~= Seq::<Seq<char>>::empty());
    } else {
        let rest = ls.drop_last();
        assert forall|i: int| 0 <= i < rest.len() implies #[trigger] one_line(rest[i]@) by {
            assert(one_line(ls[i]@));
        }
        lemma_scan_lines_text(rest);
        assert(one_line(ls[ls.len() - 1]@));
        lemma_scan_one_line(ls.last()@);
        assert(lines_text(ls) =~= lines_text(rest) + (ls.last()@ + "\n"@));
        lemma_scan_append(lines_text(rest), ls.last()@ + "\n"@);
        assert(views(rest) + seq![ls.last()@] =~= views(ls));
    }
}

/// What the list file holds after the two lists are written is read back as
/// the same two lists, when the todo list has at most 15 items and the done
/// list at most 30, and every item is one line, not the separator, and at most
/// 50 characters long.
pub proof fn law_plain_list_file_round_trip(todo: Seq<String>, done: Seq<String>, lines: Seq<String>)
    requires
        views(lines) == lines_of(lists_text(todo, done)),
        todo.len() <= 15,
        done.len() <= 30,
        forall|i: int| 0 <= i < todo.len() ==> #[trigger] keepable(todo[i]@),
        forall|i: int| 0 <= i < done.len() ==> #[trigger] keepable(done[i]@),
    ensures
        views(separated_lists(lines).0) == views(todo),
        views(separated_lists(lines).1) == views(done),
{
    reveal_strlit("-----");
    assert forall|i: int| 0 <= i < todo.len() implies #[trigger] one_line(todo[i]@) by {
        assert(keepable(todo[i]@));
    }
    assert forall|i: int| 0 <= i < done.len() implies #[trigger] one_line(done[i]@) by {
        assert(keepable(done[i]@));
    }
    lemma_scan_lines_text(todo);
    lemma_scan_lines_text(done);
    assert(one_line(separator()));
    lemma_scan_one_line(separator());
    let a = lines_text(todo);
    let b = separator() + "\n"@;
    lemma_scan_append(a, b);
    assert(scan_lines(a + b) == (views(todo).push(separator()), Seq::<char>::empty()));
    lemma_scan_append(a + b, lines_text(done));
    assert(lists_text(todo, done) =~= (a + b) + lines_text(done));
    assert(views(lines) =~= views(todo) + seq![separator()] + views(done));
    law_plain_lists_read_back(lines, todo, done);
}

/// After the repeating tasks are listed, no done task is due again: every
/// done task that had come due was renewed into the todo list.
pub proof fn law_listing_leaves_nothing_due(done: Seq<Task>, today: Seq<char>, now: Seq<char>)
    requires
        refresh_done(done, today, now) is Ok,
    ensures
        forall|k: int|
            0 <= k < refresh_done(done, today, now)->Ok_0.1.len() ==> !due_again(
                #[trigger] refresh_done(done, today, now)->Ok_0.1[k],
                today,
                now,
            ),
    decreases done.len(),
{
    if done.len() > 0 {
        law_listing_leaves_nothing_due(done.drop_last(), today, now);
    }
}

/// Arguments that are not numbers, that are 0, or that exceed the list's
/// length select nothing: every selected position is a position of the list.
pub proof fn law_selected_positions_are_in_the_list(args: Seq<String>, len: nat, with_ranges: bool)
    ensures
        forall|q: int| #[trigger] selected(args, len, with_ranges).contains(q) ==> 1 <= q <= len,
{
    assert forall|q: int| #[trigger] selected(args, len, with_ranges).contains(q) implies 1 <= q <= len by {
        let c = candidates(args, len, with_ranges);
        let i = choose|i: int| 0 <= i < c.len() && position_ok(c[i], len) && position_of(c[i]) == q;
        assert(position_ok(c[i], len));
    }
}

proof fn lemma_increasing_same_numbers(a: Seq<usize>, b: Seq<usize>)
    requires
        strictly_increasing(a),
        strictly_increasing(b),
        forall|x: usize| #[trigger] a.contains(x) <==> b.contains(x),
    ensures
        a == b,
    decreases a.len(),
{
    if a.len() == 0 {
        if b.len() > 0 {
            assert(b.contains(b[0]));
            assert(a.contains(b[0]));
        }
        assert(a =~= b);
    } else {
        assert(a.contains(a[0]));
        assert(b.len() > 0);
        assert(b.contains(b[0]));
        assert(a.contains(b[0]));
        assert(b.contains(a[0]));
        let j = choose|j: int| 0 <= j < b.len() && b[j] == a[0];
        let k = choose|k: int| 0 <= k < a.len() && a[k] == b[0];
        if k > 0 {
            assert(a[0] < a[k]);
        }
        if j > 0 {
            assert(b[0] < b[j]);
        }
        assert(a[0] == b[0]);
        let (a1, b1) = (a.drop_first(), b.drop_first());
        assert forall|x: usize| #[trigger] a1.contains(x) <==> b1.contains(x) by {
            if a1.contains(x) {
                let i = choose|i: int| 0 <= i < a1.len() && a1[i] == x;
                assert(a[i + 1] == x && a[0] < a[i + 1]);
                assert(a.contains(x));
                assert(b.contains(x));
                let m = choose|m: int| 0 <= m < b.len() && b[m] == x;
                assert(m != 0);
                assert(b1[m - 1] == x);
            }
            if b1.contains(x) {
                let i = choose|i: int| 0 <= i < b1.len() && b1[i] == x;
                assert(b[i + 1] == x && b[0] < b[i + 1]);
                assert(b.contains(x));
                assert(a.contains(x));
                let m = choose|m: int| 0 <= m < a.len() && a[m] == x;
                assert(m != 0);
                assert(a1[m - 1] == x);
            }
        }
        lemma_increasing_same_numbers(a1, b1);
        assert(a =~= seq![a[0]] + a1);
        assert(b =~= seq![b[0]] + b1);
    }
}

/// Sorting without repeats positions that were already sorted without
/// repeats, after writing them back in decimal, gives the same positions.
pub proof fn law_sorting_written_positions_again(v: Seq<usize>, args: Seq<String>, w: Seq<usize>)
    requires
        strictly_increasing(v),
        args.len() == v.len(),
        forall|i: int| 0 <= i < args.len() ==> (#[trigger] args[i])@ == decimal_chars(v[i] as nat),
        strictly_increasing(w),
        forall|x: usize| #[trigger] w.contains(x) <==> is_parsed_from(args, x as nat),
    ensures
        w == v,
{
    assert forall|x: usize| #[trigger] v.contains(x) <==> w.contains(x) by {
        if v.contains(x) {
            let i = choose|i: int| 0 <= i < v.len() && v[i] == x;
            lemma_parse_decimal_chars(x as nat, usize::MAX as nat);
            assert(parse_usize_spec(args[i]@) == Some(x as nat));
            assert(is_parsed_from(args, x as nat));
        }
        if w.contains(x) {
            assert(is_parsed_from(args, x as nat));
            let i = choose|i: int| 0 <= i < args.len() && parse_usize_spec(#[trigger] args[i]@) == Some(x as nat);
            lemma_parse_decimal_chars(v[i] as nat, usize::MAX as nat);
            assert(v[i] == x);
            assert(v.contains(v[i]));
        }
    }
    lemma_increasing_same_numbers(v, w);
}

proof fn lemma_unit_words()
    ensures
        "minute"@.len() == 6 && "minute"@[5] == 'e',
        "minutes"@.len() == 7 && "minutes"@[0] == 'm',
        "hour"@.len() == 4 && "hour"@[0] == 'h',
        "hours"@.len() == 5 && "hours"@[0] == 'h',
        "day"@.len() == 3 && "day"@[0] == 'd',
        "days"@.len() == 4 && "days"@[0] == 'd',
        "week"@.len() == 4 && "week"@[0] == 'w',
        "weeks"@.len() == 5 && "weeks"@[0] == 'w',
        "month"@.len() == 5 && "month"@[0] == 'm',
        "months"@.len() == 6 && "months"@[0] == 'm' && "months"@[5] == 's',
        "year"@.len() == 4 && "year"@[0] == 'y',
        "years"@.len() == 5 && "years"@[0] == 'y',
        "minute"@[0] == 'm',
{
    reveal_strlit("minute");
    reveal_strlit("minutes");
    reveal_strlit("hour");
    reveal_strlit("hours");
    reveal_strlit("day");
    reveal_strlit("days");
    reveal_strlit("week");
    reveal_strlit("weeks");
    reveal_strlit("month");
    reveal_strlit("months");
    reveal_strlit("year");
    reveal_strlit("years");
}

/// What listing gives for the single done task `t` that came due, when
/// chrono's answer for its next due date and time is `shifted`: the task
/// renewed to that date and time, or the error that the date is out of range.
pub open spec fn listing_of_one(t: Task, shifted: Option<(Seq<char>, Seq<char>)>) -> Result<
    (Seq<(Task, Seq<char>, Seq<char>)>, Seq<Task>),
    TaskError,
> {
    match shifted {
        Some(p) => Ok((seq![(t, p.0, p.1)], Seq::<Task>::empty())),
        None => Err(TaskError::DateTimeOutOfRange),
    }
}

/// A done repeating task that has come due is renewed one interval after
/// its due date and time, the interval counted in its unit, singular or
/// plural alike: `n` minutes, `n` hours, `n` days, `7 n` days for weeks, `n`
/// months, and `12 n` months for years (out of range when that overflows);
/// any other unit keeps the moment, as chrono writes it back.
pub proof fn law_renewal_adds_one_interval(t: Task, today: Seq<char>, now: Seq<char>)
    requires
        has_repeat_fields(t),
        due_again(t, today, now),
        chrono_accepts_datetime(t.date->Some_0@ + " "@ + t.time->Some_0@),
    ensures
        ({
            let dt = t.date->Some_0@ + " "@ + t.time->Some_0@;
            let n = t.repeat_number->Some_0;
            let u = t.repeat_unit->Some_0@;
            let got = refresh_done(seq![t], today, now);
            &&& (u == "minute"@ || u == "minutes"@) ==> got == listing_of_one(t, chrono_plus_minutes(dt, n))
            &&& (u == "hour"@ || u == "hours"@) ==> got == listing_of_one(t, chrono_plus_hours(dt, n))
            &&& (u == "day"@ || u == "days"@) ==> got == listing_of_one(t, chrono_plus_days(dt, n as u64))
            &&& (u == "week"@ || u == "weeks"@) ==> got == listing_of_one(
                t,
                chrono_plus_days(dt, (7 * n) as u64),
            )
            &&& (u == "month"@ || u == "months"@) ==> got == listing_of_one(t, chrono_plus_months(dt, n))
            &&& (u == "year"@ || u == "years"@) && 12 * n <= u32::MAX ==> got == listing_of_one(
                t,
                chrono_plus_months(dt, (12 * n) as u32),
            )
            &&& (u == "year"@ || u == "years"@) && 12 * n > u32::MAX ==> got == Err::<
                (Seq<(Task, Seq<char>, Seq<char>)>, Seq<Task>),
                TaskError,
            >(TaskError::DateTimeOutOfRange)
            &&& !(u == "minute"@ || u == "minutes"@ || u == "hour"@ || u == "hours"@ || u == "day"@
                || u == "days"@ || u == "week"@ || u == "weeks"@ || u == "month"@ || u == "months"@
                || u == "year"@ || u == "years"@) ==> got == listing_of_one(t, chrono_plus_minutes(dt, 0))
        }),
{
    lemma_unit_words();
    let one = seq![t];
    assert(one.drop_last() =~= Seq::<Task>::empty());
    assert(one.last() == t);
    assert(refresh_done(one.drop_last(), today, now) == Ok::<
        (Seq<(Task, Seq<char>, Seq<char>)>, Seq<Task>),
        TaskError,
    >((Seq::empty(), Seq::empty())));
    assert(Seq::<(Task, Seq<char>, Seq<char>)>::empty().push((t, t.date->Some_0@, t.time->Some_0@))
        =~= seq![(t, t.date->Some_0@, t.time->Some_0@)]);
    let u = t.repeat_unit->Some_0@;
    let dt = t.date->Some_0@ + " "@ + t.time->Some_0@;
    let n = t.repeat_number->Some_0;
    match crate::repeating::next_due(t) {
        Ok(p) => {
            assert(Seq::<(Task, Seq<char>, Seq<char>)>::empty().push((t, p.0, p.1)) =~= seq![(t, p.0, p.1)]);
            assert(refresh_done(one, today, now) == listing_of_one(t, Some(p)));
        },
        Err(e) => {
            assert(refresh_done(one, today, now) == Err::<(Seq<(Task, Seq<char>, Seq<char>)>, Seq<Task>), TaskError>(e));
        },
    }
    assert(n * 7 == 7 * n);
    assert(n * 12 == 12 * n);
}

/// The singular and plural of a unit renew a task to the same date and time.
pub proof fn law_singular_and_plural_units_agree(a: Task, b: Task)
    requires
        has_repeat_fields(a),
        b == (Task { repeat_unit: b.repeat_unit, ..a }),
        b.repeat_unit is Some,
        ({
            let (ua, ub) = (a.repeat_unit->Some_0@, b.repeat_unit->Some_0@);
            ||| ua == "minute"@ && ub == "minutes"@
            ||| ua == "hour"@ && ub == "hours"@
            ||| ua == "day"@ && ub == "days"@
            ||| ua == "week"@ && ub == "weeks"@
            ||| ua == "month"@ && ub == "months"@
            ||| ua == "year"@ && ub == "years"@
        }),
    ensures
        crate::repeating::next_due(a) == crate::repeating::next_due(b),
{
    lemma_unit_words();
}

/// A renewed task is back on the todo list not done, with the text,
/// interval and unit it had, its new due date and time, and the due date and
/// time it had as the start of its new interval.
pub proof fn law_renewed_tasks_start_afresh(new: Seq<Task>, moved: Seq<(Task, Seq<char>, Seq<char>)>)
    requires
        renewed_all(new, moved),
    ensures
        new.len() == moved.len(),
        forall|k: int|
            0 <= k < new.len() ==> {
                let (old, date, time) = moved[k];
                &&& (#[trigger] new[k]).repeat_done == Some(false)
                &&& new[k].task == old.task
                &&& new[k].repeat_number == old.repeat_number
                &&& new[k].repeat_unit == old.repeat_unit
                &&& new[k].date is Some && new[k].date->Some_0@ == date
                &&& new[k].time is Some && new[k].time->Some_0@ == time
                &&& new[k].repeat_original_date == old.date
                &&& new[k].repeat_original_time == old.time
            },
{
    assert forall|k: int| 0 <= k < new.len() implies {
        let (old, date, time) = moved[k];
        &&& (#[trigger] new[k]).repeat_done == Some(false)
        &&& new[k].task == old.task
        &&& new[k].repeat_number == old.repeat_number
        &&& new[k].repeat_unit == old.repeat_unit
        &&& new[k].date is Some && new[k].date->Some_0@ == date
        &&& new[k].time is Some && new[k].time->Some_0@ == time
        &&& new[k].repeat_original_date == old.date
        &&& new[k].repeat_original_time == old.time
    } by {
        assert(crate::repeating::renewed(new[k], moved[k].0, moved[k].1, moved[k].2));
    }
}

} // verus!

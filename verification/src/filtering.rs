//! Turning the position arguments of a command into list positions: ranges
//! such as `3-7` are spelled out, arguments that are no position of the list
//! are dropped, and what remains is sorted without repeats.

use vstd::prelude::*;
use crate::text::{decimal_chars, decimal_string, parse_usize, parse_usize_spec, push_char};

verus! {

/// The characters of every string of `v`.
pub open spec fn views(v: Seq<String>) -> Seq<Seq<char>> {
    v.map_values(|s: String| s@)
}

/// `s` has a dash at index `i`.
pub open spec fn dash_at(s: Seq<char>, i: int) -> bool {
    0 <= i < s.len() && s[i] == '-'
}

/// `s` holds more than one dash.
pub open spec fn two_dashes(s: Seq<char>) -> bool {
    exists|i: int, j: int| i < j && #[trigger] dash_at(s, i) && #[trigger] dash_at(s, j)
}

/// The text before and after the only dash of `s`, if `s` holds exactly one dash.
pub open spec fn range_parts(s: Seq<char>) -> Option<(Seq<char>, Seq<char>)> {
    if two_dashes(s) || !(exists|i: int| dash_at(s, i)) {
        None
    } else {
        let i = choose|i: int| dash_at(s, i);
        Some((s.take(i), s.skip(i + 1)))
    }
}

/// How a range argument `a-b` is judged against a list of `len` items: it is
/// a range when it holds one dash between two numbers with `a < b <= len`, and
/// then the answer is `(false, a, b)`; in every other case it is `(true, 1, 1)`.
pub open spec fn range_check(s: Seq<char>, len: nat) -> (bool, nat, nat) {
    match range_parts(s) {
        Some((a, b)) => match (parse_usize_spec(a), parse_usize_spec(b)) {
            (Some(x), Some(y)) => if x < y && y <= len {
                (false, x, y)
            } else {
                (true, 1, 1)
            },
            _ => (true, 1, 1),
        },
        None => (true, 1, 1),
    }
}

/// The numbers `a, a + 1, ..., b` (none when `a > b`).
pub open spec fn inclusive_range(a: nat, b: nat) -> Seq<nat> {
    Seq::new(if a <= b { (b - a + 1) as nat } else { 0 }, |k: int| (a + k) as nat)
}

/// The positions that a range argument spells out, each written in decimal;
/// nothing for an argument that is no range.
pub open spec fn range_expansion(s: Seq<char>, len: nat) -> Seq<Seq<char>> {
    let (err, a, b) = range_check(s, len);
    if err {
        Seq::empty()
    } else {
        inclusive_range(a, b).map_values(|n: nat| decimal_chars(n))
    }
}

/// The expansions of all range arguments, the last argument's first.
pub open spec fn ranged_extra(args: Seq<Seq<char>>, len: nat) -> Seq<Seq<char>>
    decreases args.len(),
{
    if args.len() == 0 {
        Seq::empty()
    } else {
        range_expansion(args.last(), len) + ranged_extra(args.drop_last(), len)
    }
}

/// `s` reads as a position of a list of `len` items: a number from 1 to `len`.
pub open spec fn position_ok(s: Seq<char>, len: nat) -> bool {
    match parse_usize_spec(s) {
        Some(v) => 1 <= v && v <= len,
        None => false,
    }
}

/// The position that an accepted argument stands for.
pub open spec fn position_of(s: Seq<char>) -> nat {
    parse_usize_spec(s).unwrap()
}

/// One step of the filter: the argument at `i` is dropped by moving the last
/// argument into its place (`Vec::swap_remove`) unless it is a position.
pub open spec fn filter_step(v: Seq<String>, i: int, len: nat) -> Seq<String> {
    if position_ok(v[i]@, len) {
        v
    } else {
        v.update(i, v.last()).drop_last()
    }
}

/// The filter over the arguments at indices `k - 1` down to `0`.
pub open spec fn swap_filter(v: Seq<String>, k: nat, len: nat) -> Seq<String>
    decreases k,
{
    if k == 0 || k > v.len() {
        v
    } else {
        swap_filter(filter_step(v, k - 1, len), (k - 1) as nat, len)
    }
}

/// `v` is strictly increasing.
pub open spec fn strictly_increasing(v: Seq<usize>) -> bool {
    forall|i: int, j: int| 0 <= i < j < v.len() ==> v[i] < v[j]
}

/// `x` is the number some argument of `args` reads as.
pub open spec fn is_parsed_from(args: Seq<String>, x: nat) -> bool {
    exists|i: int| 0 <= i < args.len() && parse_usize_spec(#[trigger] args[i]@) == Some(x)
}

/// Judges a range argument such as `6-10` against a list of `list_len` items.
pub fn check_if_range_positioning(range: String, list_len: usize) -> (r: (bool, usize, usize))
    ensures
        r.0 == range_check(range@, list_len as nat).0,
        r.1 as nat == range_check(range@, list_len as nat).1,
        r.2 as nat == range_check(range@, list_len as nat).2,
{
    let s = range.as_str();
    let n = s.unicode_len();
    let mut passed_line: bool = false;
    let mut first_bound = String::new();
    let mut second_bound = String::new();
    let mut line_counter: u8 = 0;
    let ghost mut dpos: int = 0;
    let mut i: usize = 0;
    while i < n
        invariant
            n == range@.len(),
            s@ == range@,
            i <= n,
            line_counter <= 1,
            passed_line == (line_counter == 1),
            !passed_line ==> first_bound@ == range@.take(i as int) && second_bound@
                == Seq::<char>::empty() && forall|k: int| 0 <= k < i ==> !dash_at(range@, k),
            passed_line ==> 0 <= dpos < i && dash_at(range@, dpos) && first_bound@ == range@.take(
                dpos,
            ) && second_bound@ == range@.subrange(dpos + 1, i as int) && forall|k: int|
                0 <= k < i && k != dpos ==> !dash_at(range@, k),
        decreases n - i,
    {
        let c = s.get_char(i);
        if (c as u32) == 45 {
            if passed_line {
                assert(dash_at(range@, dpos) && dash_at(range@, i as int));
                assert(two_dashes(range@));
                return (true, 1, 1);
            }
            line_counter = line_counter + 1;
            passed_line = true;
            proof {
                dpos = i as int;
            }
            assert(range@.subrange(dpos + 1, i + 1) =~= Seq::<char>::empty());
        } else {
            if !passed_line {
                push_char(&mut first_bound, c);
                assert(range@.take(i + 1) =~= range@.take(i as int).push(c));
            } else {
                push_char(&mut second_bound, c);
                assert(range@.subrange(dpos + 1, i + 1) =~= range@.subrange(
                    dpos + 1,
                    i as int,
                ).push(c));
            }
        }
        i = i + 1;
    }
    proof {
        if !passed_line {
            assert(!(exists|k: int| dash_at(range@, k)));
        } else {
            assert(!two_dashes(range@));
            assert(exists|k: int| dash_at(range@, k));
            let k = choose|k: int| dash_at(range@, k);
            assert(k == dpos);
            assert(range@.skip(dpos + 1) =~= range@.subrange(dpos + 1, n as int));
        }
    }
    let first = parse_usize(first_bound.as_str());
    let second = parse_usize(second_bound.as_str());
    if first.is_none() || second.is_none() {
        proof {
            if !passed_line {
                assert(parse_usize_spec(second_bound@) is None);
            }
        }
        return (true, 1, 1);
    }
    let first = first.unwrap();
    let second = second.unwrap();
    if first >= second {
        return (true, 1, 1);
    }
    if second > list_len {
        return (true, 1, 1);
    }
    (false, first, second)
}

/// The numbers from `bound1` to `bound2`, both included.
pub fn unwrap_range_positioning(bound1: usize, bound2: usize) -> (r: Vec<usize>)
    requires
        bound1 > bound2 || bound2 < usize::MAX,
    ensures
        r@.len() == inclusive_range(bound1 as nat, bound2 as nat).len(),
        forall|k: int| 0 <= k < r@.len() ==> r@[k] as nat == inclusive_range(
            bound1 as nat,
            bound2 as nat,
        )[k],
{
    let mut unwrap_bounds: Vec<usize> = Vec::new();
    let mut b = bound1;
    while b <= bound2
        invariant
            bound1 <= b || bound1 > bound2,
            bound1 <= bound2 ==> b <= bound2 + 1,
            bound1 > bound2 ==> b == bound1,
            bound1 > bound2 || bound2 < usize::MAX,
            bound1 <= bound2 ==> unwrap_bounds@.len() == b - bound1,
            bound1 > bound2 ==> unwrap_bounds@.len() == 0,
            forall|k: int| 0 <= k < unwrap_bounds@.len() ==> unwrap_bounds@[k] == bound1 + k,
        decreases bound2 + 1 - b,
    {
        unwrap_bounds.push(b);
        b = b + 1;
    }
    unwrap_bounds
}

proof fn lemma_ranged_extra_prepend(a: Seq<char>, y: Seq<Seq<char>>, len: nat)
    ensures
        ranged_extra(seq![a] + y, len) == ranged_extra(y, len) + range_expansion(a, len),
    decreases y.len(),
{
    if y.len() == 0 {
        assert((seq![a] + y).drop_last() =~= Seq::<Seq<char>>::empty());
        assert((seq![a] + y).last() == a);
        assert(ranged_extra(Seq::<Seq<char>>::empty(), len) == Seq::<Seq<char>>::empty());
        assert(ranged_extra(seq![a] + y, len) =~= range_expansion(a, len) + Seq::<
            Seq<char>,
        >::empty());
        assert(ranged_extra(y, len) + range_expansion(a, len) =~= range_expansion(a, len));
    } else {
        lemma_ranged_extra_prepend(a, y.drop_last(), len);
        assert((seq![a] + y).drop_last() =~= seq![a] + y.drop_last());
        assert((seq![a] + y).last() == y.last());
        assert(ranged_extra(seq![a] + y, len) =~= range_expansion(y.last(), len) + (ranged_extra(
            y.drop_last(),
            len,
        ) + range_expansion(a, len)));
    }
}

/// Appends, for every argument that is a range (`a-b` with `a < b <=
/// task_list_len`), the positions `a` to `b` in decimal; the last argument's
/// positions come first. The arguments themselves stay in place.
pub fn ranged_positioning_filter(arg_list: Vec<String>, task_list_len: usize) -> (r: Vec<String>)
    requires
        task_list_len < usize::MAX,
    ensures
        r@.take(arg_list@.len() as int) == arg_list@,
        views(r@) == views(arg_list@) + ranged_extra(views(arg_list@), task_list_len as nat),
{
    let mut arg_list = arg_list;
    let ghost orig = arg_list@;
    let ghost len = task_list_len as nat;
    let n = arg_list.len();
    let mut i = n;
    assert(views(orig).subrange(n as int, n as int) =~= Seq::<Seq<char>>::empty());
    assert(views(arg_list@) =~= views(orig) + ranged_extra(
        views(orig).subrange(i as int, n as int),
        len,
    ));
    while i > 0
        invariant
            i <= n,
            n == orig.len(),
            task_list_len < usize::MAX,
            len == task_list_len as nat,
            arg_list@.len() >= n,
            arg_list@.take(n as int) == orig,
            views(arg_list@) == views(orig) + ranged_extra(
                views(orig).subrange(i as int, n as int),
                len,
            ),
        decreases i,
    {
        i = i - 1;
        assert(arg_list@[i as int] == orig[i as int]);
        let item = arg_list[i].clone();
        let (error_or_not, bound1, bound2) = check_if_range_positioning(item, task_list_len);
        let ghost before = arg_list@;
        let ghost exp = range_expansion(orig[i as int]@, len);
        if !error_or_not {
            let unwrapped_range = unwrap_range_positioning(bound1, bound2);
            let m = unwrapped_range.len();
            let mut j: usize = 0;
            while j < m
                invariant
                    j <= m,
                    m == unwrapped_range@.len(),
                    !error_or_not,
                    bound1 < bound2,
                    exp == inclusive_range(bound1 as nat, bound2 as nat).map_values(
                        |x: nat| decimal_chars(x),
                    ),
                    m == exp.len(),
                    forall|k: int| 0 <= k < m ==> unwrapped_range@[k] as nat == inclusive_range(
                        bound1 as nat,
                        bound2 as nat,
                    )[k],
                    arg_list@.len() == before.len() + j,
                    arg_list@.take(before.len() as int) == before,
                    views(arg_list@) == views(before) + exp.take(j as int),
                decreases m - j,
            {
                let number = decimal_string(unwrapped_range[j]);
                let ghost prev = arg_list@;
                arg_list.push(number);
                assert(arg_list@.take(before.len() as int) =~= prev.take(before.len() as int));
                assert(exp[j as int] == decimal_chars(unwrapped_range@[j as int] as nat));
                assert(views(arg_list@) =~= views(prev).push(number@));
                assert(exp.take(j + 1) =~= exp.take(j as int).push(exp[j as int]));
                assert(views(arg_list@) =~= views(before) + exp.take(j + 1));
                j = j + 1;
            }
            assert(exp.take(m as int) =~= exp);
        } else {
            assert(exp =~= Seq::<Seq<char>>::empty());
            assert(views(arg_list@) =~= views(before) + exp);
        }
        proof {
            let vo = views(orig);
            assert(vo.subrange(i as int, n as int) =~= seq![vo[i as int]] + vo.subrange(
                i + 1,
                n as int,
            ));
            lemma_ranged_extra_prepend(vo[i as int], vo.subrange(i + 1, n as int), len);
            assert(vo[i as int] == orig[i as int]@);
            assert(views(arg_list@) =~= vo + ranged_extra(vo.subrange(i as int, n as int), len));
            assert(arg_list@.take(n as int) =~= before.take(n as int));
        }
    }
    assert(views(orig).subrange(0, n as int) =~= views(orig));
    arg_list
}

proof fn lemma_swap_filter_keeps_positions(v: Seq<String>, k: nat, len: nat)
    requires
        k <= v.len(),
        forall|j: int| k <= j < v.len() ==> position_ok(#[trigger] v[j]@, len),
    ensures
        forall|j: int| 0 <= j < swap_filter(v, k, len).len() ==> position_ok(
            #[trigger] swap_filter(v, k, len)[j]@,
            len,
        ),
        forall|j: int| 0 <= j < v.len() && position_ok(#[trigger] v[j]@, len) ==> swap_filter(
            v,
            k,
            len,
        ).contains(v[j]),
        forall|x: String| #[trigger] swap_filter(v, k, len).contains(x) ==> v.contains(x),
    decreases k,
{
    if k == 0 {
        assert forall|j: int| 0 <= j < v.len() && position_ok(#[trigger] v[j]@, len) implies v.contains(
            v[j],
        ) by {}
    } else {
        let i = k - 1;
        let w = filter_step(v, i, len);
        if position_ok(v[i]@, len) {
            lemma_swap_filter_keeps_positions(v, i as nat, len);
        } else {
            let last = (v.len() - 1) as int;
            assert(w.len() == v.len() - 1);
            assert forall|j: int| i <= j < w.len() implies position_ok(#[trigger] w[j]@, len) by {
                if j == i {
                    assert(w[j] == v[last]);
                } else {
                    assert(w[j] == v[j]);
                }
            }
            lemma_swap_filter_keeps_positions(w, i as nat, len);
            let r = swap_filter(v, k, len);
            assert(r == swap_filter(w, i as nat, len));
            assert forall|j: int| 0 <= j < v.len() && position_ok(#[trigger] v[j]@, len) implies r.contains(
                v[j],
            ) by {
                if j == last {
                    assert(w[i] == v[j]);
                } else {
                    assert(j != i);
                    assert(w[j] == v[j]);
                }
            }
            assert forall|x: String| #[trigger] r.contains(x) implies v.contains(x) by {
                assert(w.contains(x));
                let j = choose|j: int| 0 <= j < w.len() && w[j] == x;
                if j == i {
                    assert(v[last] == x);
                } else {
                    assert(v[j] == x);
                }
            }
        }
    }
}

/// Drops every argument that is not a position of a list of `task_list_len`
/// items (a number from 1 to `task_list_len`), each by moving the last
/// argument into its place, going from the last argument to the first.
/// What remains are exactly the arguments that are positions.
pub fn positioning_filter(arg_list: Vec<String>, task_list_len: usize) -> (r: Vec<String>)
    ensures
        r@ == swap_filter(arg_list@, arg_list@.len(), task_list_len as nat),
        forall|j: int| 0 <= j < r@.len() ==> position_ok(#[trigger] r@[j]@, task_list_len as nat),
        forall|j: int|
            0 <= j < arg_list@.len() && position_ok(#[trigger] arg_list@[j]@, task_list_len as nat)
                ==> r@.contains(arg_list@[j]),
        forall|x: String| #[trigger] r@.contains(x) ==> arg_list@.contains(x),
{
    let mut arg_list = arg_list;
    let ghost orig = arg_list@;
    let ghost len = task_list_len as nat;
    let mut i = arg_list.len();
    while i > 0
        invariant
            i <= arg_list@.len(),
            swap_filter(orig, orig.len(), len) == swap_filter(arg_list@, i as nat, len),
            len == task_list_len as nat,
        decreases i,
    {
        i = i - 1;
        let ghost before = arg_list@;
        let parsed = parse_usize(arg_list[i].as_str());
        let bad = match parsed {
            None => true,
            Some(v) => v == 0 || v > task_list_len,
        };
        if bad {
            arg_list.swap_remove(i);
        }
        assert(arg_list@ == filter_step(before, i as int, len));
    }
    proof {
        lemma_swap_filter_keeps_positions(orig, orig.len(), len);
    }
    arg_list
}

/// Puts `x` into the increasing list `v` unless it is already there.
fn insert_unique(v: &mut Vec<usize>, x: usize)
    requires
        strictly_increasing(old(v)@),
    ensures
        strictly_increasing(final(v)@),
        forall|y: usize| #[trigger] final(v)@.contains(y) <==> (old(v)@.contains(y) || y == x),
{
    let n = v.len();
    let mut k: usize = 0;
    while k < n && v[k] < x
        invariant
            k <= n,
            n == v@.len(),
            forall|j: int| 0 <= j < k ==> v@[j] < x,
        decreases n - k,
    {
        k = k + 1;
    }
    if k < n && v[k] == x {
        return;
    }
    let ghost before = v@;
    v.insert(k, x);
    assert forall|y: usize| #[trigger] v@.contains(y) <==> (before.contains(y) || y == x) by {
        if v@.contains(y) {
            let j = choose|j: int| 0 <= j < v@.len() && v@[j] == y;
            if j < k {
                assert(before[j] == y);
            } else if j > k {
                assert(before[j - 1] == y);
            }
        }
        if before.contains(y) {
            let j = choose|j: int| 0 <= j < before.len() && before[j] == y;
            if j < k {
                assert(v@[j] == y);
            } else {
                assert(v@[j + 1] == y);
            }
        }
        if y == x {
            assert(v@[k as int] == y);
        }
    }
}

/// Reads every argument as a number, and sorts the numbers without repeats.
pub fn sort_and_dedup(arg_list: Vec<String>) -> (r: Vec<usize>)
    requires
        forall|i: int| 0 <= i < arg_list@.len() ==> parse_usize_spec(#[trigger] arg_list@[i]@) is Some,
    ensures
        strictly_increasing(r@),
        forall|x: usize| #[trigger] r@.contains(x) <==> is_parsed_from(arg_list@, x as nat),
{
    let mut out: Vec<usize> = Vec::new();
    let n = arg_list.len();
    let mut i: usize = 0;
    while i < n
        invariant
            i <= n,
            n == arg_list@.len(),
            forall|i: int| 0 <= i < arg_list@.len() ==> parse_usize_spec(#[trigger] arg_list@[i]@) is Some,
            strictly_increasing(out@),
            forall|x: usize| #[trigger] out@.contains(x) <==> is_parsed_from(
                arg_list@.take(i as int),
                x as nat,
            ),
        decreases n - i,
    {
        let parsed = parse_usize(arg_list[i].as_str());
        assert(parse_usize_spec(arg_list@[i as int]@) is Some);
        let x = parsed.unwrap();
        let ghost before = out@;
        insert_unique(&mut out, x);
        assert forall|y: usize| #[trigger] out@.contains(y) <==> is_parsed_from(
            arg_list@.take(i + 1),
            y as nat,
        ) by {
            let t = arg_list@.take(i + 1);
            if y == x {
                assert(t[i as int] == arg_list@[i as int]);
            }
            if is_parsed_from(t, y as nat) {
                let j = choose|j: int| 0 <= j < t.len() && parse_usize_spec(#[trigger] t[j]@) == Some(
                    y as nat,
                );
                if j < i {
                    assert(arg_list@.take(i as int)[j] == t[j]);
                }
            }
            if before.contains(y) {
                let j = choose|j: int|
                    0 <= j < i && parse_usize_spec(#[trigger] arg_list@.take(i as int)[j]@) == Some(
                        y as nat,
                    );
                assert(t[j] == arg_list@.take(i as int)[j]);
            }
        }
        i = i + 1;
    }
    assert(arg_list@.take(n as int) =~= arg_list@);
    out
}

} // verus!

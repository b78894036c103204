//! Which list positions a command's arguments select, and what removing or
//! moving the tasks at those positions does to the lists.

use vstd::prelude::*;
use crate::filtering::{
    views, ranged_extra, position_ok, position_of, strictly_increasing, is_parsed_from,
    ranged_positioning_filter, positioning_filter, sort_and_dedup,
};

verus! {

/// The numbers in `ps`.
pub open spec fn position_set(ps: Seq<usize>) -> Set<int> {
    Set::new(|n: int| exists|i: int| 0 <= i < ps.len() && ps[i] as int == n)
}

/// The positions that some candidate argument reads as, among `1..=len`.
pub open spec fn chosen_positions(cands: Seq<Seq<char>>, len: nat) -> Set<int> {
    Set::new(
        |n: int|
            exists|i: int|
                0 <= i < cands.len() && position_ok(cands[i], len) && position_of(cands[i]) == n,
    )
}

/// The arguments a command reads positions from: the arguments themselves,
/// followed, for commands that take ranges, by the positions the ranges spell out.
pub open spec fn candidates(args: Seq<String>, len: nat, with_ranges: bool) -> Seq<Seq<char>> {
    if with_ranges {
        views(args) + ranged_extra(views(args), len)
    } else {
        views(args)
    }
}

/// Every position from 1 to `len` is in `p`.
pub open spec fn covers_all(p: Set<int>, len: nat) -> bool {
    forall|n: int| 1 <= n <= len ==> #[trigger] p.contains(n)
}

/// The items of `s` whose 1-based position is not in `p`, in their order.
pub open spec fn drop_positions<A>(s: Seq<A>, p: Set<int>) -> Seq<A>
    decreases s.len(),
{
    if s.len() == 0 {
        s
    } else if p.contains(s.len() as int) {
        drop_positions(s.drop_last(), p)
    } else {
        drop_positions(s.drop_last(), p).push(s.last())
    }
}

/// The items of `s` whose 1-based position is in `p`, the highest position first.
pub open spec fn take_positions_desc<A>(s: Seq<A>, p: Set<int>) -> Seq<A>
    decreases s.len(),
{
    if s.len() == 0 {
        s
    } else if p.contains(s.len() as int) {
        seq![s.last()] + take_positions_desc(s.drop_last(), p)
    } else {
        take_positions_desc(s.drop_last(), p)
    }
}

/// No position of `p` is at most `m`.
pub open spec fn all_above(p: Set<int>, m: int) -> bool {
    forall|q: int| #[trigger] p.contains(q) ==> q > m
}

proof fn lemma_drop_none<A>(s: Seq<A>, p: Set<int>)
    requires
        all_above(p, s.len() as int),
    ensures
        drop_positions(s, p) == s,
        take_positions_desc(s, p) == Seq::<A>::empty(),
    decreases s.len(),
{
    if s.len() > 0 {
        lemma_drop_none(s.drop_last(), p);
        assert(s.drop_last().push(s.last()) =~= s);
    }
}

proof fn lemma_drop_prefix<A>(s: Seq<A>, p: Set<int>, m: int)
    requires
        0 <= m <= s.len(),
        all_above(p, m),
    ensures
        drop_positions(s, p).len() >= m,
        drop_positions(s, p).take(m) == s.take(m),
    decreases s.len(),
{
    if s.len() == m {
        lemma_drop_none(s, p);
    } else {
        lemma_drop_prefix(s.drop_last(), p, m);
        let d = drop_positions(s.drop_last(), p);
        if !p.contains(s.len() as int) {
            assert(d.push(s.last()).take(m) =~= d.take(m));
        }
        assert(s.drop_last().take(m) =~= s.take(m));
    }
}

proof fn lemma_drop_one_more<A>(s: Seq<A>, p: Set<int>, q: int)
    requires
        1 <= q <= s.len(),
        all_above(p, q),
    ensures
        drop_positions(s, p).len() >= q,
        drop_positions(s, p).remove(q - 1) == drop_positions(s, p.insert(q)),
        drop_positions(s, p)[q - 1] == s[q - 1],
        take_positions_desc(s, p.insert(q)) == take_positions_desc(s, p).push(s[q - 1]),
    decreases s.len(),
{
    lemma_drop_prefix(s, p, q);
    assert(drop_positions(s, p)[q - 1] == drop_positions(s, p).take(q)[q - 1]);
    assert(s[q - 1] == s.take(q)[q - 1]);
    let pq = p.insert(q);
    let s1 = s.drop_last();
    if s.len() == q {
        lemma_drop_none(s1, p);
        lemma_drop_none(s1, pq);
        assert(!p.contains(q));
        assert(drop_positions(s, p) == s1.push(s.last()));
        assert(s1.push(s.last()).remove(q - 1) =~= s1);
        assert(take_positions_desc(s, pq) =~= seq![s.last()]);
        assert(take_positions_desc(s, p) == take_positions_desc(s1, p));
        assert(Seq::<A>::empty().push(s[q - 1]) =~= seq![s.last()]);
    } else {
        lemma_drop_one_more(s1, p, q);
        assert(s1[q - 1] == s[q - 1]);
        let d1 = drop_positions(s1, p);
        if p.contains(s.len() as int) {
            assert(pq.contains(s.len() as int));
            assert((seq![s.last()] + take_positions_desc(s1, p)).push(s[q - 1]) =~= seq![s.last()]
                + take_positions_desc(s1, p).push(s[q - 1]));
        } else {
            assert(!pq.contains(s.len() as int));
            assert(d1.push(s.last()).remove(q - 1) =~= d1.remove(q - 1).push(s.last()));
        }
    }
}

proof fn lemma_position_set_extend(ps: Seq<usize>, j: int, k: int)
    requires
        1 <= j <= k <= ps.len(),
    ensures
        position_set(ps.subrange(j - 1, k)) == position_set(ps.subrange(j, k)).insert(
            ps[j - 1] as int,
        ),
{
    let sa = ps.subrange(j - 1, k);
    let sb = ps.subrange(j, k);
    let a = position_set(sa);
    let b = position_set(sb).insert(ps[j - 1] as int);
    assert forall|n: int| a.contains(n) <==> b.contains(n) by {
        if a.contains(n) {
            let i = choose|i: int| 0 <= i < sa.len() && #[trigger] sa[i] as int == n;
            if i > 0 {
                assert(sb[i - 1] as int == n);
            }
        }
        if b.contains(n) && n != ps[j - 1] as int {
            let i = choose|i: int| 0 <= i < sb.len() && #[trigger] sb[i] as int == n;
            assert(sa[i + 1] as int == n);
        }
        if n == ps[j - 1] as int {
            assert(sa[0] as int == n);
        }
    }
    assert(a =~= b);
}

proof fn lemma_position_set_suffix_above(ps: Seq<usize>, j: int, k: int)
    requires
        strictly_increasing(ps),
        1 <= j <= k <= ps.len(),
    ensures
        all_above(position_set(ps.subrange(j, k)), ps[j - 1] as int),
{
    let sb = ps.subrange(j, k);
    assert forall|q: int| #[trigger] position_set(sb).contains(q) implies q > ps[j
        - 1] as int by {
        let i = choose|i: int| 0 <= i < sb.len() && #[trigger] sb[i] as int == q;
        assert(sb[i] == ps[j + i]);
        assert(ps[j - 1] < ps[j + i]);
    }
}

/// Removes the items at the 1-based positions `ps` (increasing) from `v`,
/// the highest position first.
pub fn remove_positions<A>(v: &mut Vec<A>, ps: &Vec<usize>)
    requires
        strictly_increasing(ps@),
        forall|j: int| 0 <= j < ps@.len() ==> 1 <= #[trigger] ps@[j] <= old(v)@.len(),
    ensures
        final(v)@ == drop_positions(old(v)@, position_set(ps@)),
{
    let ghost s = v@;
    let k = ps.len();
    let mut j = k;
    proof {
        assert(position_set(ps@.subrange(k as int, k as int)) =~= Set::<int>::empty());
        lemma_drop_none(s, Set::<int>::empty());
    }
    while j > 0
        invariant
            j <= k,
            k == ps@.len(),
            strictly_increasing(ps@),
            forall|i: int| 0 <= i < ps@.len() ==> 1 <= #[trigger] ps@[i] <= s.len(),
            v@ == drop_positions(s, position_set(ps@.subrange(j as int, k as int))),
        decreases j,
    {
        proof {
            lemma_position_set_suffix_above(ps@, j as int, k as int);
            lemma_drop_one_more(
                s,
                position_set(ps@.subrange(j as int, k as int)),
                ps@[j - 1] as int,
            );
            lemma_position_set_extend(ps@, j as int, k as int);
        }
        let p = ps[j - 1];
        v.remove(p - 1);
        j = j - 1;
    }
    assert(ps@.subrange(0, k as int) =~= ps@);
}

/// Moves the items at the 1-based positions `ps` (increasing) from `src` to
/// the end of `dest`, the highest position first.
pub fn move_positions<A>(src: &mut Vec<A>, dest: &mut Vec<A>, ps: &Vec<usize>)
    requires
        strictly_increasing(ps@),
        forall|j: int| 0 <= j < ps@.len() ==> 1 <= #[trigger] ps@[j] <= old(src)@.len(),
    ensures
        final(src)@ == drop_positions(old(src)@, position_set(ps@)),
        final(dest)@ == old(dest)@ + take_positions_desc(old(src)@, position_set(ps@)),
{
    let ghost s = src@;
    let ghost d0 = dest@;
    let k = ps.len();
    let mut j = k;
    proof {
        assert(position_set(ps@.subrange(k as int, k as int)) =~= Set::<int>::empty());
        lemma_drop_none(s, Set::<int>::empty());
        assert(d0 + Seq::<A>::empty() =~= d0);
    }
    while j > 0
        invariant
            j <= k,
            k == ps@.len(),
            strictly_increasing(ps@),
            forall|i: int| 0 <= i < ps@.len() ==> 1 <= #[trigger] ps@[i] <= s.len(),
            src@ == drop_positions(s, position_set(ps@.subrange(j as int, k as int))),
            dest@ == d0 + take_positions_desc(s, position_set(ps@.subrange(j as int, k as int))),
        decreases j,
    {
        let ghost pj = position_set(ps@.subrange(j as int, k as int));
        proof {
            lemma_position_set_suffix_above(ps@, j as int, k as int);
            lemma_drop_one_more(s, pj, ps@[j - 1] as int);
            lemma_position_set_extend(ps@, j as int, k as int);
        }
        let p = ps[j - 1];
        let item = src.remove(p - 1);
        dest.push(item);
        assert(dest@ =~= d0 + take_positions_desc(s, pj).push(s[p - 1]));
        j = j - 1;
    }
    assert(ps@.subrange(0, k as int) =~= ps@);
}

proof fn lemma_increasing_at_least(ps: Seq<usize>, j: int)
    requires
        strictly_increasing(ps),
        forall|i: int| 0 <= i < ps.len() ==> 1 <= #[trigger] ps[i],
        0 <= j < ps.len(),
    ensures
        ps[j] >= j + 1,
    decreases j,
{
    if j > 0 {
        lemma_increasing_at_least(ps, j - 1);
    }
}

proof fn lemma_increasing_at_most(ps: Seq<usize>, j: int, len: nat)
    requires
        strictly_increasing(ps),
        forall|i: int| 0 <= i < ps.len() ==> #[trigger] ps[i] <= len,
        0 <= j < ps.len(),
    ensures
        ps[j] + (ps.len() - 1 - j) <= len,
    decreases ps.len() - j,
{
    if j < ps.len() - 1 {
        lemma_increasing_at_most(ps, j + 1, len);
    }
}

/// For increasing positions from 1 to `len`, there are at least `len` of
/// them exactly when every position from 1 to `len` is among them.
pub proof fn lemma_count_covers_all(ps: Seq<usize>, len: nat)
    requires
        strictly_increasing(ps),
        forall|i: int| 0 <= i < ps.len() ==> 1 <= #[trigger] ps[i] <= len,
    ensures
        (ps.len() >= len) == covers_all(position_set(ps), len),
{
    if ps.len() >= len {
        assert forall|n: int| 1 <= n <= len implies #[trigger] position_set(ps).contains(n) by {
            lemma_increasing_at_least(ps, n - 1);
            lemma_increasing_at_most(ps, n - 1, len);
            assert(ps[n - 1] as int == n);
        }
    } else {
        if covers_all(position_set(ps), len) && ps.len() > 0 {
            let k = ps.len() as int;
            lemma_prefix_exact(ps, k - 1, len);
            assert(position_set(ps).contains(k + 1));
            let m = choose|m: int| 0 <= m < k && ps[m] as int == k + 1;
            assert(ps[m] == m + 1);
        } else if covers_all(position_set(ps), len) {
            assert(position_set(ps).contains(1));
        }
    }
}

proof fn lemma_prefix_exact(ps: Seq<usize>, i: int, len: nat)
    requires
        strictly_increasing(ps),
        forall|j: int| 0 <= j < ps.len() ==> 1 <= #[trigger] ps[j] <= len,
        covers_all(position_set(ps), len),
        ps.len() < len,
        0 <= i < ps.len(),
    ensures
        forall|j: int| 0 <= j <= i ==> #[trigger] ps[j] == j + 1,
    decreases i,
{
    if i > 0 {
        lemma_prefix_exact(ps, i - 1, len);
    }
    assert(position_set(ps).contains(i + 1));
    let m = choose|m: int| 0 <= m < ps.len() && ps[m] as int == i + 1;
    lemma_increasing_at_least(ps, m);
    lemma_increasing_at_least(ps, i);
    if m < i {
        assert(ps[m] == m + 1);
    } else if m > i {
        assert(ps[i] < ps[m]);
    }
}

/// Reads the positions of a list of `list_len` items that the arguments
/// select, in increasing order: every argument that is a number from 1 to
/// `list_len` and, when `with_ranges` holds, every position that a range
/// argument `a-b` spells out.
pub fn select_positions(args: Vec<String>, list_len: usize, with_ranges: bool) -> (ps: Vec<usize>)
    requires
        list_len < usize::MAX,
    ensures
        strictly_increasing(ps@),
        forall|j: int| 0 <= j < ps@.len() ==> 1 <= #[trigger] ps@[j] <= list_len,
        position_set(ps@) == chosen_positions(
            candidates(args@, list_len as nat, with_ranges),
            list_len as nat,
        ),
{
    let ghost len = list_len as nat;
    let ghost cands = candidates(args@, len, with_ranges);
    let expanded = if with_ranges {
        ranged_positioning_filter(args, list_len)
    } else {
        args
    };
    assert(views(expanded@) == cands);
    let filtered = positioning_filter(expanded, list_len);
    let ps = sort_and_dedup(filtered);
    assert forall|j: int| 0 <= j < ps@.len() implies 1 <= #[trigger] ps@[j] <= list_len by {
        assert(ps@.contains(ps@[j]));
        let i = choose|i: int|
            0 <= i < filtered@.len() && crate::text::parse_usize_spec(#[trigger] filtered@[i]@)
                == Some(ps@[j] as nat);
        assert(position_ok(filtered@[i]@, len));
    }
    assert forall|n: int| position_set(ps@).contains(n) <==> chosen_positions(cands, len).contains(
        n,
    ) by {
        if position_set(ps@).contains(n) {
            let m = choose|m: int| 0 <= m < ps@.len() && ps@[m] as int == n;
            assert(ps@.contains(ps@[m]));
            let i = choose|i: int|
                0 <= i < filtered@.len() && crate::text::parse_usize_spec(#[trigger] filtered@[i]@)
                    == Some(ps@[m] as nat);
            assert(position_ok(filtered@[i]@, len));
            assert(filtered@.contains(filtered@[i]));
            assert(expanded@.contains(filtered@[i]));
            let e = choose|e: int| 0 <= e < expanded@.len() && expanded@[e] == filtered@[i];
            assert(views(expanded@)[e] == expanded@[e]@);
        }
        if chosen_positions(cands, len).contains(n) {
            let e = choose|e: int|
                0 <= e < cands.len() && position_ok(cands[e], len) && position_of(cands[e]) == n;
            assert(views(expanded@)[e] == expanded@[e]@);
            assert(position_ok(expanded@[e]@, len));
            assert(filtered@.contains(expanded@[e]));
            let i = choose|i: int| 0 <= i < filtered@.len() && filtered@[i] == expanded@[e];
            assert(crate::text::parse_usize_spec(filtered@[i]@) == Some(n as nat));
            assert(is_parsed_from(filtered@, n as nat));
            let x = n as usize;
            assert(ps@.contains(x));
            let m = choose|m: int| 0 <= m < ps@.len() && ps@[m] == x;
            assert(ps@[m] as int == n);
        }
    }
    assert(position_set(ps@) =~= chosen_positions(cands, len));
    ps
}

/// Increasing positions are as many as the numbers they hold.
pub proof fn lemma_position_set_len(ps: Seq<usize>)
    requires
        strictly_increasing(ps),
    ensures
        position_set(ps).finite(),
        position_set(ps).len() == ps.len(),
{
    let m = ps.map_values(|x: usize| x as int);
    assert(m.no_duplicates()) by {
        assert forall|i: int, j: int| 0 <= i < m.len() && 0 <= j < m.len() && i != j implies m[i]
            != m[j] by {
            if i < j {
                assert(ps[i] < ps[j]);
            } else {
                assert(ps[j] < ps[i]);
            }
        }
    }
    m.unique_seq_to_set();
    assert(m.to_set() =~= position_set(ps)) by {
        assert forall|n: int| m.to_set().contains(n) <==> position_set(ps).contains(n) by {
            if position_set(ps).contains(n) {
                let i = choose|i: int| 0 <= i < ps.len() && ps[i] as int == n;
                assert(m[i] == n);
            }
            if m.to_set().contains(n) {
                assert(m.contains(n));
                let i = choose|i: int| 0 <= i < m.len() && m[i] == n;
                assert(ps[i] as int == n);
            }
        }
    }
    m.lemma_cardinality_of_set();
    assert(m.to_set().finite()) by {
        vstd::seq_lib::seq_to_set_is_finite(m);
    }
}

} // verus!

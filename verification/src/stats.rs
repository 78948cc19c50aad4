//! Order statistics over lists of latencies, in nanoseconds.

use vstd::prelude::*;
use vstd::relations::{sorted_by, total_ordering};
use vstd::seq_lib::lemma_sorted_unique;

verus! {

/// The order by which latencies are ranked: smallest first, or largest first.
pub open spec fn ranked(worst_first: bool) -> spec_fn(u128, u128) -> bool {
    |a: u128, b: u128| if worst_first { a >= b } else { a <= b }
}

/// The latencies from the smallest to the largest.
pub open spec fn ascending(s: Seq<u128>) -> Seq<u128> {
    s.sort_by(ranked(false))
}

/// The latencies from the largest to the smallest.
pub open spec fn descending(s: Seq<u128>) -> Seq<u128> {
    s.sort_by(ranked(true))
}

/// Both rankings are total orders.
pub proof fn lemma_ranked_total(worst_first: bool)
    ensures
        total_ordering(ranked(worst_first)),
{
}

/// A list in ranking order that holds the same latencies as `s`, each as
/// often, is the ranking of `s`.
pub proof fn lemma_ranking_determined(s: Seq<u128>, r: Seq<u128>, worst_first: bool)
    requires
        sorted_by(r, ranked(worst_first)),
        r.to_multiset() == s.to_multiset(),
    ensures
        r == s.sort_by(ranked(worst_first)),
{
    lemma_ranked_total(worst_first);
    s.lemma_sort_by_ensures(ranked(worst_first));
    lemma_sorted_unique(r, s.sort_by(ranked(worst_first)), ranked(worst_first));
}

/// Whether `a` may not stand before `b` in the ranking.
pub open spec fn out_of_order_spec(a: u128, b: u128, worst_first: bool) -> bool {
    !ranked(worst_first)(a, b)
}

/// Whether `a` may not stand before `b` in the ranking.
#[verifier::when_used_as_spec(out_of_order_spec)]
fn out_of_order(a: u128, b: u128, worst_first: bool) -> (r: bool)
    ensures
        r == out_of_order_spec(a, b, worst_first),
{
    if worst_first {
        a < b
    } else {
        a > b
    }
}

/// One ranked list of all that two ranked lists hold.
fn merge_ranked(left: &Vec<u128>, right: &Vec<u128>, worst_first: bool) -> (out: Vec<u128>)
    requires
        sorted_by(left@, ranked(worst_first)),
        sorted_by(right@, ranked(worst_first)),
    ensures
        sorted_by(out@, ranked(worst_first)),
        out@.to_multiset() == left@.to_multiset().add(right@.to_multiset()),
{
    let mut out: Vec<u128> = Vec::new();
    let mut i: usize = 0;
    let mut j: usize = 0;
    proof {
        assert(left@.take(0) =~= out@ && right@.take(0) =~= out@);
        out@.to_multiset_ensures();
        assert(out@.to_multiset() =~= out@.to_multiset().add(out@.to_multiset()));
    }
    while i < left.len() || j < right.len()
        invariant
            i <= left@.len(),
            j <= right@.len(),
            sorted_by(left@, ranked(worst_first)),
            sorted_by(right@, ranked(worst_first)),
            sorted_by(out@, ranked(worst_first)),
            out@.to_multiset() == left@.take(i as int).to_multiset().add(
                right@.take(j as int).to_multiset(),
            ),
            forall|k: int, a: int|
                0 <= k < out@.len() && i <= a < left@.len() ==> ranked(worst_first)(
                    #[trigger] out@[k],
                    #[trigger] left@[a],
                ),
            forall|k: int, b: int|
                0 <= k < out@.len() && j <= b < right@.len() ==> ranked(worst_first)(
                    #[trigger] out@[k],
                    #[trigger] right@[b],
                ),
        decreases left@.len() - i + right@.len() - j,
    {
        let ghost before = out@;
        if j >= right.len() || (i < left.len() && !out_of_order(left[i], right[j], worst_first)) {
            let x = left[i];
            out.push(x);
            proof {
                assert(left@.take(i + 1) =~= left@.take(i as int).push(x));
                assert(out@ =~= before.push(x));
                vstd::seq_lib::to_multiset_build(before, x);
                vstd::seq_lib::to_multiset_build(left@.take(i as int), x);
                assert(out@.to_multiset() =~= left@.take(i + 1).to_multiset().add(
                    right@.take(j as int).to_multiset(),
                ));
                assert forall|k: int, b: int|
                    0 <= k < out@.len() && j <= b < right@.len() implies ranked(worst_first)(
                    #[trigger] out@[k],
                    #[trigger] right@[b],
                ) by {
                    if k == before.len() {
                        assert(ranked(worst_first)(left@[i as int], right@[j as int]));
                        if b > j {
                            assert(ranked(worst_first)(right@[j as int], right@[b]));
                        }
                    } else {
                        assert(out@[k] == before[k]);
                    }
                }
                assert forall|k: int, a: int|
                    0 <= k < out@.len() && i + 1 <= a < left@.len() implies ranked(worst_first)(
                    #[trigger] out@[k],
                    #[trigger] left@[a],
                ) by {
                    if k == before.len() {
                        assert(ranked(worst_first)(left@[i as int], left@[a]));
                    } else {
                        assert(out@[k] == before[k]);
                    }
                }
                assert forall|p: int, q: int| 0 <= p < q < out@.len() implies ranked(worst_first)(
                    #[trigger] out@[p],
                    #[trigger] out@[q],
                ) by {
                    if q == before.len() {
                        assert(out@[p] == before[p]);
                        assert(ranked(worst_first)(before[p], left@[i as int]));
                    } else {
                        assert(out@[p] == before[p] && out@[q] == before[q]);
                    }
                }
            }
            i = i + 1;
        } else {
            let x = right[j];
            out.push(x);
            proof {
                assert(right@.take(j + 1) =~= right@.take(j as int).push(x));
                assert(out@ =~= before.push(x));
                vstd::seq_lib::to_multiset_build(before, x);
                vstd::seq_lib::to_multiset_build(right@.take(j as int), x);
                assert(out@.to_multiset() =~= left@.take(i as int).to_multiset().add(
                    right@.take(j + 1).to_multiset(),
                ));
                assert forall|k: int, a: int|
                    0 <= k < out@.len() && i <= a < left@.len() implies ranked(worst_first)(
                    #[trigger] out@[k],
                    #[trigger] left@[a],
                ) by {
                    if k == before.len() {
                        assert(ranked(worst_first)(right@[j as int], left@[i as int]));
                        if a > i {
                            assert(ranked(worst_first)(left@[i as int], left@[a]));
                        }
                    } else {
                        assert(out@[k] == before[k]);
                    }
                }
                assert forall|k: int, b: int|
                    0 <= k < out@.len() && j + 1 <= b < right@.len() implies ranked(worst_first)(
                    #[trigger] out@[k],
                    #[trigger] right@[b],
                ) by {
                    if k == before.len() {
                        assert(ranked(worst_first)(right@[j as int], right@[b]));
                    } else {
                        assert(out@[k] == before[k]);
                    }
                }
                assert forall|p: int, q: int| 0 <= p < q < out@.len() implies ranked(worst_first)(
                    #[trigger] out@[p],
                    #[trigger] out@[q],
                ) by {
                    if q == before.len() {
                        assert(out@[p] == before[p]);
                        assert(ranked(worst_first)(before[p], right@[j as int]));
                    } else {
                        assert(out@[p] == before[p] && out@[q] == before[q]);
                    }
                }
            }
            j = j + 1;
        }
    }
    proof {
        assert(left@.take(left@.len() as int) =~= left@);
        assert(right@.take(right@.len() as int) =~= right@);
    }
    out
}

/// The ranking of the latencies from place `lo` up to place `hi`.
fn sort_range(v: &Vec<u128>, lo: usize, hi: usize, worst_first: bool) -> (out: Vec<u128>)
    requires
        lo <= hi <= v@.len(),
    ensures
        out@ == v@.subrange(lo as int, hi as int).sort_by(ranked(worst_first)),
    decreases hi - lo,
{
    let ghost part = v@.subrange(lo as int, hi as int);
    let mut out: Vec<u128> = Vec::new();
    if hi - lo <= 1 {
        if hi > lo {
            out.push(v[lo]);
        }
        proof {
            assert(out@ =~= part);
            lemma_ranking_determined(part, out@, worst_first);
        }
        return out;
    }
    let mid = lo + (hi - lo) / 2;
    let left = sort_range(v, lo, mid, worst_first);
    let right = sort_range(v, mid, hi, worst_first);
    proof {
        let a = v@.subrange(lo as int, mid as int);
        let b = v@.subrange(mid as int, hi as int);
        lemma_ranking_keeps_length(a, worst_first);
        lemma_ranking_keeps_length(b, worst_first);
        assert(part =~= a + b);
        vstd::seq_lib::lemma_multiset_commutative(a, b);
    }
    let merged = merge_ranked(&left, &right, worst_first);
    proof {
        lemma_ranking_determined(part, merged@, worst_first);
    }
    merged
}

/// Sorts the latencies in place, smallest first or largest first.
pub fn sort_latencies(v: &mut Vec<u128>, worst_first: bool)
    ensures
        final(v)@ == old(v)@.sort_by(ranked(worst_first)),
{
    let sorted = sort_range(v, 0, v.len(), worst_first);
    proof {
        assert(v@.subrange(0, v@.len() as int) =~= v@);
    }
    *v = sorted;
}

/// A median of latencies: whole nanoseconds, and one half more where the two
/// middle latencies of an even count add up to an odd number.
#[derive(Clone, Copy, Debug, PartialEq, Eq, Structural)]
pub struct Median {
    pub whole_ns: u128,
    pub plus_half: bool,
}

impl Median {
    /// Twice the median, which is always a whole number of nanoseconds.
    pub open spec fn doubled(self) -> int {
        2 * self.whole_ns + if self.plus_half {
            1int
        } else {
            0int
        }
    }

    /// Whether this median is at most `other`.
    pub fn at_most(&self, other: &Median) -> (r: bool)
        ensures
            r == (self.doubled() <= other.doubled()),
    {
        self.whole_ns < other.whole_ns || (self.whole_ns == other.whole_ns && (!self.plus_half
            || other.plus_half))
    }
}

/// Twice the median of the latencies: the sum of the two middle ones of an
/// even count, twice the middle one of an odd count, and zero of none.
pub open spec fn median_doubled(s: Seq<u128>) -> int {
    let sorted = ascending(s);
    let n = s.len() as int;
    if n == 0 {
        0
    } else if n % 2 == 0 {
        sorted[n / 2 - 1] + sorted[n / 2]
    } else {
        2 * sorted[n / 2]
    }
}

/// The place among `n` latencies, worst first and counted from zero, of the
/// one that bounds the worst `percent` hundredths: the hundredth part of
/// `n * percent`, rounded up, less one, and not below zero.
pub open spec fn tail_rank(n: nat, percent: nat) -> int {
    let covered = (n * percent + 99) / 100;
    if covered >= 1 {
        covered - 1
    } else {
        0
    }
}

/// The latency at `tail_rank` among the latencies taken worst first, and zero
/// of none.
pub open spec fn tail_latency(s: Seq<u128>, percent: nat) -> u128 {
    if s.len() == 0 {
        0
    } else {
        descending(s)[tail_rank(s.len(), percent)]
    }
}

/// `tail_rank` rounds up: one more than it is the least count whose hundredfold
/// reaches `n * percent`. It stays within the list.
pub proof fn lemma_tail_rank_rounds_up(n: nat, percent: nat)
    requires
        n >= 1,
        1 <= percent <= 100,
    ensures
        0 <= tail_rank(n, percent) < n,
        100 * tail_rank(n, percent) < n * percent <= 100 * (tail_rank(n, percent) + 1),
{
    let product = n * percent;
    assert(1 <= product <= n * 100) by (nonlinear_arith)
        requires
            product == n * percent,
            n >= 1,
            1 <= percent <= 100,
    ;
}

/// `tail_rank` is a place in the list for every share up to the whole.
proof fn lemma_tail_rank_in_list(n: nat, percent: nat)
    requires
        n >= 1,
        percent <= 100,
    ensures
        0 <= tail_rank(n, percent) < n,
{
    if percent >= 1 {
        lemma_tail_rank_rounds_up(n, percent);
    } else {
        assert(n * percent == 0) by (nonlinear_arith)
            requires
                percent == 0,
        ;
    }
}

/// Ranking keeps the list's length and what it holds, and puts it in order.
pub proof fn lemma_ranking_keeps_length(s: Seq<u128>, worst_first: bool)
    ensures
        s.sort_by(ranked(worst_first)).len() == s.len(),
        s.sort_by(ranked(worst_first)).to_multiset() == s.to_multiset(),
        sorted_by(s.sort_by(ranked(worst_first)), ranked(worst_first)),
{
    lemma_ranked_total(worst_first);
    s.lemma_sort_by_ensures(ranked(worst_first));
    s.to_multiset_ensures();
    s.sort_by(ranked(worst_first)).to_multiset_ensures();
}

/// The median and the tail latencies depend on which latencies are given and
/// how often, not on the order in which they are listed.
pub proof fn lemma_statistics_ignore_order(a: Seq<u128>, b: Seq<u128>)
    requires
        a.to_multiset() == b.to_multiset(),
    ensures
        median_doubled(a) == median_doubled(b),
        forall|percent: nat| tail_latency(a, percent) == tail_latency(b, percent),
{
    lemma_ranking_keeps_length(a, false);
    lemma_ranking_keeps_length(a, true);
    lemma_ranking_determined(b, ascending(a), false);
    lemma_ranking_determined(b, descending(a), true);
    a.to_multiset_ensures();
    b.to_multiset_ensures();
}

/// A copy of the latencies in a vector of its own.
fn copy_latencies(values: &[u128]) -> (v: Vec<u128>)
    ensures
        v@ == values@,
{
    let mut v: Vec<u128> = Vec::new();
    let mut i: usize = 0;
    while i < values.len()
        invariant
            i <= values.len(),
            v@ == values@.subrange(0, i as int),
        decreases values.len() - i,
    {
        v.push(values[i]);
        i = i + 1;
        assert(v@ =~= values@.subrange(0, i as int));
    }
    assert(values@.subrange(0, values@.len() as int) =~= values@);
    v
}

/// The median of the latencies; zero of none.
pub fn calculate_median(values: &[u128]) -> (m: Median)
    ensures
        m.doubled() == median_doubled(values@),
{
    if values.len() == 0 {
        return Median { whole_ns: 0, plus_half: false };
    }
    let mut sorted = copy_latencies(values);
    sort_latencies(&mut sorted, false);
    proof {
        lemma_ranking_keeps_length(values@, false);
    }
    let len = sorted.len();
    if len % 2 == 0 {
        let lo = sorted[len / 2 - 1];
        let hi = sorted[len / 2];
        assert(ranked(false)(sorted@[(len / 2 - 1) as int], sorted@[(len / 2) as int]));
        let gap = hi - lo;
        Median { whole_ns: lo + gap / 2, plus_half: gap % 2 == 1 }
    } else {
        Median { whole_ns: sorted[len / 2], plus_half: false }
    }
}

/// The place of the latency that bounds the worst `percent` hundredths of
/// `len` latencies taken worst first.
pub fn tail_index(len: usize, percent: u8) -> (idx: usize)
    requires
        percent <= 100,
    ensures
        idx == tail_rank(len as nat, percent as nat),
        len >= 1 ==> idx < len,
{
    let share: usize = percent as usize;
    let hundreds = len / 100;
    let rest = len % 100;
    proof {
        assert(hundreds * share <= hundreds * 100) by (nonlinear_arith)
            requires
                share <= 100,
        ;
        assert(rest * share <= 99 * 100) by (nonlinear_arith)
            requires
                rest <= 99,
                share <= 100,
        ;
        assert(len * share == 100 * (hundreds * share) + rest * share) by (nonlinear_arith)
            requires
                len == 100 * hundreds + rest,
        ;
    }
    proof {
        if len >= 1 {
            lemma_tail_rank_in_list(len as nat, percent as nat);
        }
    }
    let covered = hundreds * share + (rest * share + 99) / 100;
    if covered >= 1 {
        covered - 1
    } else {
        0
    }
}

/// The latencies that bound the worst tenth, the worst twentieth and the
/// worst hundredth of the list; zeros of an empty list.
pub fn calculate_percentiles(values: &[u128]) -> (p: (u128, u128, u128))
    ensures
        p.0 == tail_latency(values@, 10),
        p.1 == tail_latency(values@, 5),
        p.2 == tail_latency(values@, 1),
{
    if values.len() == 0 {
        return (0, 0, 0);
    }
    let mut sorted = copy_latencies(values);
    sort_latencies(&mut sorted, true);
    proof {
        lemma_ranking_keeps_length(values@, true);
    }
    let len = sorted.len();
    let p90 = sorted[tail_index(len, 10)];
    let p95 = sorted[tail_index(len, 5)];
    let p99 = sorted[tail_index(len, 1)];
    (p90, p95, p99)
}

} // verus!

//! Small numeric helpers shared by the statistics code: rounding division,
//! occurrence counts, the strict statistical mode and the median.

use vstd::prelude::*;
use vstd::relations::{sorted_by, total_ordering};
use vstd::seq_lib::{group_to_multiset_ensures, lemma_sorted_unique};

verus! {

/// `x / d` rounded to the nearest integer, halves away from zero.
pub open spec fn round_div_spec(x: int, d: int) -> int
    recommends
        d > 0,
{
    if x >= 0 {
        (x + d / 2) / d
    } else {
        -((-x + d / 2) / d)
    }
}

/// Bound under which the rounding division cannot overflow an `i64`.
pub const ROUND_DIV_BOUND: i64 = 0x4000_0000_0000_0000;

/// Rounds `x / d` to the nearest integer, halves away from zero.
pub fn round_div(x: i64, d: i64) -> (r: i64)
    requires
        0 < d < ROUND_DIV_BOUND,
        -ROUND_DIV_BOUND < x < ROUND_DIV_BOUND,
    ensures
        r == round_div_spec(x as int, d as int),
{
    if x >= 0 {
        (x + d / 2) / d
    } else {
        -((-x + d / 2) / d)
    }
}

/// How many times `x` occurs in `v`.
pub open spec fn count_of(v: Seq<i64>, x: i64) -> nat
    decreases v.len(),
{
    if v.len() == 0 {
        0
    } else {
        count_of(v.drop_last(), x) + if v.last() == x {
            1nat
        } else {
            0nat
        }
    }
}

/// `m` occurs in `v` strictly more often than every other value.
pub open spec fn is_unique_mode(v: Seq<i64>, m: i64) -> bool {
    v.contains(m) && forall|y: i64| v.contains(y) && y != m ==> count_of(v, y) < count_of(v, m)
}

proof fn lemma_count_take_step(v: Seq<i64>, x: i64, j: int)
    requires
        0 <= j < v.len(),
    ensures
        count_of(v.take(j + 1), x) == count_of(v.take(j), x) + if v[j] == x {
            1int
        } else {
            0int
        },
{
    assert(v.take(j + 1).drop_last() =~= v.take(j));
    assert(v.take(j + 1).last() == v[j]);
}

/// Occurrences of `x` in `v`.
fn count_in(v: &Vec<i64>, x: i64) -> (c: usize)
    ensures
        c == count_of(v@, x),
{
    let mut c: usize = 0;
    let mut j: usize = 0;
    proof {
        assert(v@.take(0int) =~= Seq::<i64>::empty());
    }
    while j < v.len()
        invariant
            j <= v@.len(),
            c == count_of(v@.take(j as int), x),
            c <= j,
        decreases v@.len() - j,
    {
        proof {
            lemma_count_take_step(v@, x, j as int);
        }
        if v[j] == x {
            c = c + 1;
        }
        j = j + 1;
    }
    proof {
        assert(v@.take(v@.len() as int) =~= v@);
    }
    c
}

/// The single most frequent element of `v`, when one is strictly more
/// frequent than every other value; `None` on an empty input and on a tie
/// at the maximum count.
pub fn mode(v: &Vec<i64>) -> (r: Option<i64>)
    ensures
        match r {
            Some(m) => is_unique_mode(v@, m),
            None => forall|m: i64| !is_unique_mode(v@, m),
        },
{
    if v.len() == 0 {
        return None;
    }
    // First pass: a value of maximum count.
    let mut best: i64 = v[0];
    let mut best_count: usize = count_in(v, best);
    let mut j: usize = 1;
    while j < v.len()
        invariant
            1 <= j <= v@.len(),
            v@.len() > 0,
            v@.contains(best),
            best_count == count_of(v@, best),
            forall|k: int| 0 <= k < j ==> count_of(v@, v@[k]) <= best_count,
        decreases v@.len() - j,
    {
        let c = count_in(v, v[j]);
        if c > best_count {
            best = v[j];
            best_count = c;
        }
        j = j + 1;
    }
    // Second pass: is any other value tied at the maximum?
    let mut tied = false;
    let ghost mut tie_witness: i64 = best;
    let mut k: usize = 0;
    while k < v.len()
        invariant
            k <= v@.len(),
            v@.contains(best),
            best_count == count_of(v@, best),
            forall|i: int| 0 <= i < v@.len() ==> count_of(v@, v@[i]) <= best_count,
            !tied ==> forall|i: int| 0 <= i < k && v@[i] != best ==> count_of(v@, v@[i])
                < best_count,
            tied ==> v@.contains(tie_witness) && tie_witness != best && count_of(v@, tie_witness)
                == best_count,
        decreases v@.len() - k,
    {
        if v[k] != best {
            let c = count_in(v, v[k]);
            if c == best_count {
                tied = true;
                proof {
                    tie_witness = v@[k as int];
                }
            }
        }
        k = k + 1;
    }
    if tied {
        proof {
            let w = tie_witness;
            assert forall|m: i64| !is_unique_mode(v@, m) by {
                if v@.contains(m) {
                    if m == best {
                        assert(!(count_of(v@, w) < count_of(v@, m)));
                    } else if m == w {
                        assert(!(count_of(v@, best) < count_of(v@, m)));
                    } else {
                        assert(count_of(v@, m) <= best_count);
                        assert(!(count_of(v@, best) < count_of(v@, m)));
                    }
                }
            }
        }
        None
    } else {
        proof {
            assert forall|y: i64| v@.contains(y) && y != best implies count_of(v@, y) < count_of(
                v@,
                best,
            ) by {
                let i = choose|i: int| 0 <= i < v@.len() && v@[i] == y;
                assert(count_of(v@, v@[i]) < best_count);
            }
        }
        Some(best)
    }
}

/// The usual order on `i64`, as a spec-level relation.
pub open spec fn i64_le() -> spec_fn(i64, i64) -> bool {
    |a: i64, b: i64| a <= b
}

/// `v` rearranged into nondecreasing order.
pub open spec fn sorted_of(v: Seq<i64>) -> Seq<i64> {
    v.sort_by(i64_le())
}

/// The median of `v`: the middle element of the sorted rearrangement, or,
/// for an even length, the mean of the two middle elements rounded half
/// away from zero.
pub open spec fn median_spec(v: Seq<i64>) -> int
    recommends
        v.len() > 0,
{
    let s = sorted_of(v);
    let n = v.len() as int;
    if n % 2 == 1 {
        s[n / 2] as int
    } else {
        round_div_spec(s[n / 2 - 1] + s[n / 2], 2)
    }
}

proof fn lemma_i64_le_total()
    ensures
        total_ordering(i64_le()),
{
}

/// A copy of `v` in nondecreasing order.
fn sorted_copy(v: &Vec<i64>) -> (s: Vec<i64>)
    ensures
        s@ == sorted_of(v@),
{
    broadcast use group_to_multiset_ensures;

    let mut s: Vec<i64> = Vec::new();
    let mut j: usize = 0;
    proof {
        assert(v@.take(0int) =~= Seq::<i64>::empty());
        assert(v@.take(0int).to_multiset() =~= s@.to_multiset());
    }
    while j < v.len()
        invariant
            j <= v@.len(),
            s@.len() == j,
            sorted_by(s@, i64_le()),
            s@.to_multiset() == v@.take(j as int).to_multiset(),
        decreases v@.len() - j,
    {
        let x = v[j];
        let mut p: usize = 0;
        while p < s.len() && s[p] <= x
            invariant
                p <= s@.len(),
                forall|i: int| 0 <= i < p ==> s@[i] <= x,
            decreases s@.len() - p,
        {
            p = p + 1;
        }
        proof {
            let t = s@.insert(p as int, x);
            assert forall|a: int, b: int| 0 <= a < b < t.len() implies (i64_le())(t[a], t[b]) by {
                if b < p {
                    assert((i64_le())(s@[a], s@[b]));
                } else if a < p && b == p {
                    assert(s@[a] <= x);
                } else if a < p && b > p {
                    if a < b - 1 {
                        assert((i64_le())(s@[a], s@[b - 1]));
                    }
                } else if a == p {
                    if p < s@.len() {
                        assert(!(s@[p as int] <= x));
                        if p < b - 1 {
                            assert((i64_le())(s@[p as int], s@[b - 1]));
                        }
                    }
                } else {
                    assert((i64_le())(s@[a - 1], s@[b - 1]));
                }
            }
            assert(v@.take(j as int + 1) =~= v@.take(j as int).push(v@[j as int]));
        }
        let ghost s_before = s@;
        s.insert(p, x);
        proof {
            vstd::seq_lib::to_multiset_insert(s_before, p as int, x);
            vstd::seq_lib::to_multiset_build(v@.take(j as int), v@[j as int]);
            assert(s@.to_multiset() =~= v@.take(j as int + 1).to_multiset());
        }
        j = j + 1;
    }
    proof {
        assert(v@.take(v@.len() as int) =~= v@);
        v@.lemma_sort_by_ensures(i64_le());
        lemma_i64_le_total();
        lemma_sorted_unique(s@, sorted_of(v@), i64_le());
        assert(s@ =~= sorted_of(v@));
    }
    s
}

/// The median of a nonempty vector.
pub fn median(v: &Vec<i64>) -> (r: i64)
    requires
        v@.len() > 0,
        forall|i: int| 0 <= i < v@.len() ==> -0x1000_0000_0000_0000 < #[trigger] v@[i]
            < 0x1000_0000_0000_0000,
    ensures
        r == median_spec(v@),
{
    broadcast use group_to_multiset_ensures;

    let s = sorted_copy(v);
    proof {
        v@.lemma_sort_by_ensures(i64_le());
        assert(s@.to_multiset().len() == v@.to_multiset().len());
        assert(s@.len() == v@.len());
        assert forall|i: int| 0 <= i < s@.len() implies -0x1000_0000_0000_0000 < #[trigger] s@[i]
            < 0x1000_0000_0000_0000 by {
            assert(s@.contains(s@[i]));
            assert(v@.contains(s@[i]));
        }
    }
    let n = s.len();
    if n % 2 == 1 {
        s[n / 2]
    } else {
        round_div(s[n / 2 - 1] + s[n / 2], 2)
    }
}

/// What `mode_or_median` returns: the unique mode when the input has one,
/// the median otherwise.
pub open spec fn mode_or_median_spec(v: Seq<i64>) -> int {
    if exists|m: i64| is_unique_mode(v, m) {
        (choose|m: i64| is_unique_mode(v, m)) as int
    } else {
        median_spec(v)
    }
}

/// Two values cannot both be unique modes of the same sequence.
pub proof fn lemma_unique_mode_is_unique(v: Seq<i64>, m1: i64, m2: i64)
    requires
        is_unique_mode(v, m1),
        is_unique_mode(v, m2),
    ensures
        m1 == m2,
{
    if m1 != m2 {
        assert(count_of(v, m1) < count_of(v, m2));
        assert(count_of(v, m2) < count_of(v, m1));
    }
}

/// The unique mode of `v` when one exists, the median of `v` otherwise.
pub fn mode_or_median(v: &Vec<i64>) -> (r: i64)
    requires
        v@.len() > 0,
        forall|i: int| 0 <= i < v@.len() ==> -0x1000_0000_0000_0000 < #[trigger] v@[i]
            < 0x1000_0000_0000_0000,
    ensures
        r == mode_or_median_spec(v@),
        (exists|m: i64| is_unique_mode(v@, m)) ==> v@.contains(r),
        !(exists|m: i64| is_unique_mode(v@, m)) ==> r == median_spec(v@),
{
    match mode(v) {
        Some(m) => {
            proof {
                let m2 = choose|m2: i64| is_unique_mode(v@, m2);
                lemma_unique_mode_is_unique(v@, m, m2);
            }
            m
        },
        None => median(v),
    }
}

} // verus!

//! Exercises on vectors of integers.

use std::collections::HashSet;
use vstd::prelude::*;

verus! {

broadcast use vstd::std_specs::hash::group_hash_axioms;

/// Whether `n` can be added to every element of `s` without leaving `i32`.
pub open spec fn fits(s: Seq<i32>, n: i32) -> bool {
    forall|i: int| 0 <= i < s.len() ==> i32::MIN <= (#[trigger] s[i]) + n <= i32::MAX
}

/// `s` with `n` added to every element.
pub open spec fn shifted(s: Seq<i32>, n: i32) -> Seq<i32> {
    Seq::new(s.len(), |i: int| (s[i] + n) as i32)
}

/// A new vector that holds each element of `v` plus `n`.
pub fn add_n(v: Vec<i32>, n: i32) -> (sums: Vec<i32>)
    requires
        fits(v@, n),
    ensures
        sums@ == shifted(v@, n),
{
    let mut sums: Vec<i32> = Vec::new();
    let mut index: usize = 0;
    while index < v.len()
        invariant
            index <= v.len(),
            fits(v@, n),
            sums@ == shifted(v@, n).subrange(0, index as int),
        decreases v.len() - index,
    {
        sums.push(v[index] + n);
        index += 1;
    }
    sums
}

/// Adds `n` to each element of `v`, in place.
pub fn add_n_inplace(v: &mut Vec<i32>, n: i32)
    requires
        fits(old(v)@, n),
    ensures
        final(v)@ == shifted(old(v)@, n),
{
    let ghost before = v@;
    let mut index: usize = 0;
    while index < v.len()
        invariant
            index <= v.len(),
            v.len() == before.len(),
            fits(before, n),
            forall|i: int| 0 <= i < index ==> v@[i] == before[i] + n,
            forall|i: int| index <= i < v.len() ==> v@[i] == before[i],
        decreases v.len() - index,
    {
        assert(v@[index as int] == before[index as int]);
        let sum: i32 = v[index] + n;
        v.set(index, sum);
        index += 1;
    }
}

/// The elements of `s` without those that occur earlier in `s`: of equal
/// elements the first stays, and what stays keeps its order.
pub open spec fn first_occurrences(s: Seq<i32>) -> Seq<i32>
    decreases s.len(),
{
    if s.len() == 0 {
        s
    } else if s.drop_last().contains(s.last()) {
        first_occurrences(s.drop_last())
    } else {
        first_occurrences(s.drop_last()).push(s.last())
    }
}

/// What `dedup` leaves of `s`: the first element as it is, then the first
/// occurrences among the elements after it. The first element is not
/// compared with any other, so a later element equal to it stays.
pub open spec fn deduped(s: Seq<i32>) -> Seq<i32> {
    if s.len() == 0 {
        s
    } else {
        seq![s[0]] + first_occurrences(s.subrange(1, s.len() as int))
    }
}

/// Removes from `v`, in place, every element after the first that equals
/// an earlier element after the first.
pub fn dedup(v: &mut Vec<i32>)
    ensures
        final(v)@ == deduped(old(v)@),
{
    if v.len() == 0 {
        return ;
    }
    let ghost before = v@;
    let ghost tail = before.subrange(1, before.len() as int);
    let ghost done: int = 0;
    let mut index: usize = 1;
    let mut seen: HashSet<i32> = HashSet::new();
    while index < v.len()
        invariant
            before.len() > 0,
            tail == before.subrange(1, before.len() as int),
            0 <= done <= tail.len(),
            index == 1 + first_occurrences(tail.take(done)).len(),
            v@ == seq![before[0]] + first_occurrences(tail.take(done)) + tail.skip(done),
            forall|x: i32| seen@.contains(x) <==> tail.take(done).contains(x),
        decreases tail.len() - done,
    {
        let x: i32 = v[index];
        proof {
            assert(tail.take(done + 1).drop_last() =~= tail.take(done));
        }
        if seen.contains(&x) {
            v.remove(index);
            proof {
                assert forall|y: i32| seen@.contains(y) <==> tail.take(done + 1).contains(y) by {
                    lemma_take_contains(tail, done, y);
                }
                done = done + 1;
            }
        } else {
            seen.insert(x);
            index += 1;
            proof {
                assert forall|y: i32| seen@.contains(y) <==> tail.take(done + 1).contains(y) by {
                    lemma_take_contains(tail, done, y);
                }
                done = done + 1;
            }
        }
    }
    proof {
        assert(tail.take(done) =~= tail);
    }
}

/// One more element of a prefix: it holds what the shorter prefix holds,
/// and the new element.
proof fn lemma_take_contains(s: Seq<i32>, n: int, y: i32)
    requires
        0 <= n < s.len(),
    ensures
        s.take(n + 1).contains(y) <==> s.take(n).contains(y) || y == s[n],
{
    let longer = s.take(n + 1);
    if longer.contains(y) {
        let i = choose|i: int| 0 <= i < longer.len() && longer[i] == y;
    }
    if s.take(n).contains(y) {
        let i = choose|i: int| 0 <= i < s.take(n).len() && s.take(n)[i] == y;
    }
    if y == s[n] {
        assert(longer[n] == y);
    }
}

/// What stays of a sequence holds every value of the sequence, and each
/// only once.
pub proof fn lemma_first_occurrences(s: Seq<i32>)
    ensures
        first_occurrences(s).no_duplicates(),
        forall|x: i32| first_occurrences(s).contains(x) <==> s.contains(x),
    decreases s.len(),
{
    if s.len() > 0 {
        let init = s.drop_last();
        let kept = first_occurrences(init);
        lemma_first_occurrences(init);
        assert forall|x: i32| first_occurrences(s).contains(x) <==> s.contains(x) by {
            if s.contains(x) {
                let i = choose|i: int| 0 <= i < s.len() && s[i] == x;
                assert(i < init.len() ==> init[i] == x);
            }
            if init.contains(x) {
                let i = choose|i: int| 0 <= i < init.len() && init[i] == x;
                assert(s[i] == x);
            }
            if kept.contains(x) {
                let i = choose|i: int| 0 <= i < kept.len() && kept[i] == x;
                assert(kept.push(s.last())[i] == x);
            }
            if x == s.last() {
                assert(s[s.len() - 1] == x);
                assert(kept.push(x)[kept.len() as int] == x);
            }
            if kept.push(s.last()).contains(x) {
                let i = choose|i: int|
                    0 <= i < kept.push(s.last()).len() && kept.push(s.last())[i] == x;
                assert(i < kept.len() ==> kept[i] == x);
            }
        }
        if !init.contains(s.last()) {
            assert forall|i: int, j: int|
                0 <= i < kept.len() + 1 && 0 <= j < kept.len() + 1 && i != j implies kept.push(
                s.last(),
            )[i] != kept.push(s.last())[j] by {
                if i < kept.len() {
                    assert(kept.contains(kept[i]));
                }
                if j < kept.len() {
                    assert(kept.contains(kept[j]));
                }
            }
        }
    }
}

} // verus!

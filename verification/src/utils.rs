//! Sorting, and arrays to try it on.

use crate::random::random_in_range;
use vstd::prelude::*;

verus! {

/// The elements of `s` stand in ascending order.
pub open spec fn is_sorted(s: Seq<i32>) -> bool {
    forall|i: int, j: int| 0 <= i <= j < s.len() ==> s[i] <= s[j]
}

/// The number of elements of `s` that are greater than `x`.
pub open spec fn count_greater(s: Seq<i32>, x: i32) -> nat
    decreases s.len(),
{
    if s.len() == 0 {
        0
    } else {
        count_greater(s.drop_last(), x) + if s.last() > x {
            1nat
        } else {
            0nat
        }
    }
}

/// The number of inversions of `s`: the pairs of places whose elements
/// stand in the wrong order, the greater one first.
pub open spec fn inversions(s: Seq<i32>) -> nat
    decreases s.len(),
{
    if s.len() == 0 {
        0
    } else {
        inversions(s.drop_last()) + count_greater(s.drop_last(), s.last())
    }
}

/// `s` with the elements at `a` and `b` exchanged.
pub open spec fn swapped(s: Seq<i32>, a: int, b: int) -> Seq<i32> {
    s.update(a, s[b]).update(b, s[a])
}

/// Exchanging two neighbours does not change how many elements are greater
/// than `x`.
pub proof fn lemma_swap_keeps_count(s: Seq<i32>, j: int, x: i32)
    requires
        0 <= j,
        j + 1 < s.len(),
    ensures
        count_greater(swapped(s, j, j + 1), x) == count_greater(s, x),
    decreases s.len(),
{
    let t = swapped(s, j, j + 1);
    reveal_with_fuel(count_greater, 2);
    if j + 1 == s.len() - 1 {
        assert(t.drop_last().drop_last() =~= s.drop_last().drop_last());
        assert(t.drop_last().last() == s.last());
        assert(t.last() == s.drop_last().last());
    } else {
        lemma_swap_keeps_count(s.drop_last(), j, x);
        assert(t.drop_last() =~= swapped(s.drop_last(), j, j + 1));
        assert(t.last() == s.last());
    }
}

/// Exchanging two neighbours that stand in the wrong order removes exactly
/// one inversion.
pub proof fn lemma_swap_removes_inversion(s: Seq<i32>, j: int)
    requires
        0 <= j,
        j + 1 < s.len(),
        s[j] > s[j + 1],
    ensures
        inversions(swapped(s, j, j + 1)) + 1 == inversions(s),
    decreases s.len(),
{
    let t = swapped(s, j, j + 1);
    reveal_with_fuel(count_greater, 2);
    reveal_with_fuel(inversions, 2);
    if j + 1 == s.len() - 1 {
        assert(t.drop_last().drop_last() =~= s.drop_last().drop_last());
        assert(t.drop_last().last() == s.last());
        assert(t.last() == s.drop_last().last());
    } else {
        lemma_swap_removes_inversion(s.drop_last(), j);
        lemma_swap_keeps_count(s.drop_last(), j, s.last());
        assert(t.drop_last() =~= swapped(s.drop_last(), j, j + 1));
        assert(t.last() == s.last());
    }
}

/// No element of `s` is greater than one that bounds them all.
pub proof fn lemma_count_greater_bounded(s: Seq<i32>, x: i32)
    requires
        forall|i: int| 0 <= i < s.len() ==> s[i] <= x,
    ensures
        count_greater(s, x) == 0,
    decreases s.len(),
{
    if s.len() > 0 {
        lemma_count_greater_bounded(s.drop_last(), x);
    }
}

/// A sorted sequence has no inversion.
pub proof fn lemma_sorted_has_no_inversion(s: Seq<i32>)
    requires
        is_sorted(s),
    ensures
        inversions(s) == 0,
    decreases s.len(),
{
    if s.len() > 0 {
        lemma_sorted_has_no_inversion(s.drop_last());
        lemma_count_greater_bounded(s.drop_last(), s.last());
    }
}

/// The least length of a random array.
pub const MIN_ARRAY_LEN: usize = 5;

/// The greatest length of a random array.
pub const MAX_ARRAY_LEN: usize = 50;

/// The least value in a random array.
pub const MIN_ARRAY_VALUE: i32 = -100;

/// The greatest value in a random array.
pub const MAX_ARRAY_VALUE: i32 = 100;

/// An array of random length, from `MIN_ARRAY_LEN` to `MAX_ARRAY_LEN`, of
/// random values, each from `MIN_ARRAY_VALUE` to `MAX_ARRAY_VALUE`.
pub fn generate_random_array() -> (array: Vec<i32>)
    ensures
        MIN_ARRAY_LEN <= array.len() <= MAX_ARRAY_LEN,
        forall|i: int|
            0 <= i < array.len() ==> MIN_ARRAY_VALUE <= #[trigger] array[i] <= MAX_ARRAY_VALUE,
{
    let size = random_in_range(MIN_ARRAY_LEN as i64, MAX_ARRAY_LEN as i64) as usize;
    let mut array: Vec<i32> = Vec::with_capacity(size);
    let mut filled: usize = 0;
    while filled < size
        invariant
            filled <= size,
            array.len() == filled,
            forall|i: int|
                0 <= i < array.len() ==> MIN_ARRAY_VALUE <= #[trigger] array[i] <= MAX_ARRAY_VALUE,
        decreases size - filled,
    {
        let value = random_in_range(MIN_ARRAY_VALUE as i64, MAX_ARRAY_VALUE as i64) as i32;
        array.push(value);
        filled += 1;
    }
    array
}

/// Exchanging two elements of a sequence keeps its elements, each as often
/// as before.
pub proof fn lemma_swap_keeps_elements(s: Seq<i32>, a: int, b: int)
    requires
        0 <= a < s.len(),
        0 <= b < s.len(),
    ensures
        swapped(s, a, b).to_multiset() == s.to_multiset(),
{
    broadcast use vstd::seq_lib::group_to_multiset_ensures;

    vstd::seq_lib::to_multiset_update(s, a, s[b]);
    vstd::seq_lib::to_multiset_update(s.update(a, s[b]), b, s[a]);
    assert(s.contains(s[a]) && s.contains(s[b]));
    assert(s.update(a, s[b]).update(b, s[a]).to_multiset() =~= s.to_multiset());
}

/// Sorts `arr` in ascending order by swapping neighbours that stand in the
/// wrong order, and returns the number of swaps that it took: the number of
/// inversions that `arr` had.
pub fn bubble_sort(arr: &mut [i32]) -> (swaps: u128)
    ensures
        is_sorted(final(arr)@),
        final(arr)@.to_multiset() == old(arr)@.to_multiset(),
        swaps == inversions(old(arr)@),
{
    let n = arr.len();
    let mut swap_count: u128 = 0;
    let mut i: usize = 0;
    while i < n
        invariant
            n == arr@.len(),
            i <= n,
            arr@.to_multiset() == old(arr)@.to_multiset(),
            forall|a: int, b: int| n - i <= a <= b < n ==> arr@[a] <= arr@[b],
            forall|a: int, b: int| 0 <= a < n - i <= b < n ==> arr@[a] <= arr@[b],
            swap_count <= i * n,
            swap_count + inversions(arr@) == inversions(old(arr)@),
        decreases n - i,
    {
        let mut j: usize = 0;
        while j + 1 < n - i
            invariant
                n == arr@.len(),
                i < n,
                j < n - i,
                arr@.to_multiset() == old(arr)@.to_multiset(),
                forall|a: int, b: int| n - i <= a <= b < n ==> arr@[a] <= arr@[b],
                forall|a: int, b: int| 0 <= a < n - i <= b < n ==> arr@[a] <= arr@[b],
                forall|a: int| 0 <= a <= j ==> arr@[a] <= arr@[j as int],
                swap_count <= i * n + j,
                swap_count + inversions(arr@) == inversions(old(arr)@),
            decreases n - i - j,
        {
            assert(i * n + j + 1 <= 0xffff_ffff_ffff_ffff * 0xffff_ffff_ffff_ffff)
                by (nonlinear_arith)
                requires
                    i < n,
                    j + 1 < n - i,
                    n <= 0xffff_ffff_ffff_ffff,
            ;
            if arr[j] > arr[j + 1] {
                let ghost before = arr@;
                let temp_holder = arr[j];
                arr[j] = arr[j + 1];
                arr[j + 1] = temp_holder;
                swap_count += 1;
                proof {
                    assert(arr@ =~= swapped(before, j as int, j + 1));
                    lemma_swap_keeps_elements(before, j as int, j + 1);
                    lemma_swap_removes_inversion(before, j as int);
                }
            }
            j += 1;
        }
        assert((i + 1) * n == i * n + n) by (nonlinear_arith);
        i += 1;
    }
    proof {
        lemma_sorted_has_no_inversion(arr@);
    }
    swap_count
}

} // verus!

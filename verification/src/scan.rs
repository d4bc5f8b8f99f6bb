//! Sequences: finding the first element of some kind, and what a filter
//! keeps.

use vstd::prelude::*;

verus! {

/// The first index at or after `from` whose element satisfies `pred`; the
/// length of `s` where there is none.
pub open spec fn first_from<T>(s: Seq<T>, pred: spec_fn(T) -> bool, from: int) -> int
    decreases s.len() - from,
{
    if from >= s.len() {
        s.len() as int
    } else if from >= 0 && pred(s[from]) {
        from
    } else {
        first_from(s, pred, from + 1)
    }
}

/// The first index whose element satisfies `pred`; the length of `s` where
/// there is none.
pub open spec fn first_index<T>(s: Seq<T>, pred: spec_fn(T) -> bool) -> int {
    first_from(s, pred, 0)
}

/// `first_from` returns an index between `from` and the length, skips only
/// elements that fail `pred`, and stops on one that satisfies it.
pub proof fn lemma_first_from<T>(s: Seq<T>, pred: spec_fn(T) -> bool, from: int)
    requires
        0 <= from <= s.len(),
    ensures
        from <= first_from(s, pred, from) <= s.len(),
        forall|i: int| from <= i < first_from(s, pred, from) ==> !pred(#[trigger] s[i]),
        first_from(s, pred, from) < s.len() ==> pred(s[first_from(s, pred, from)]),
    decreases s.len() - from,
{
    if from < s.len() && !pred(s[from]) {
        lemma_first_from(s, pred, from + 1);
    }
}

/// An index at or after `from` that satisfies `pred` and has only failing
/// elements between `from` and itself is what `first_from` returns; so is
/// the length where every element from `from` on fails.
pub proof fn lemma_first_from_unique<T>(s: Seq<T>, pred: spec_fn(T) -> bool, from: int, k: int)
    requires
        0 <= from <= k <= s.len(),
        forall|i: int| from <= i < k ==> !pred(#[trigger] s[i]),
        k < s.len() ==> pred(s[k]),
    ensures
        first_from(s, pred, from) == k,
{
    lemma_first_from(s, pred, from);
}

/// `first_index` is the least index whose element satisfies `pred`.
pub proof fn lemma_first_index<T>(s: Seq<T>, pred: spec_fn(T) -> bool)
    ensures
        0 <= first_index(s, pred) <= s.len(),
        forall|i: int| 0 <= i < first_index(s, pred) ==> !pred(#[trigger] s[i]),
        first_index(s, pred) < s.len() ==> pred(s[first_index(s, pred)]),
{
    lemma_first_from(s, pred, 0);
}

/// An index that satisfies `pred` and has only failing elements before it is
/// the first index; so is the length where every element fails.
pub proof fn lemma_first_index_unique<T>(s: Seq<T>, pred: spec_fn(T) -> bool, k: int)
    requires
        0 <= k <= s.len(),
        forall|i: int| 0 <= i < k ==> !pred(#[trigger] s[i]),
        k < s.len() ==> pred(s[k]),
    ensures
        first_index(s, pred) == k,
{
    lemma_first_index(s, pred);
}

/// What `filter` keeps, it keeps in order: each kept element comes from a
/// place of `s`, and a later kept element from a later place.
pub proof fn lemma_filter_origin<T>(s: Seq<T>, pred: spec_fn(T) -> bool)
    ensures
        forall|i: int|
            0 <= i < s.filter(pred).len() ==> pred(#[trigger] s.filter(pred)[i]) && s.contains(
                s.filter(pred)[i],
            ),
        forall|i: int, j: int|
            0 <= i < j < s.filter(pred).len() ==> exists|a: int, b: int|
                0 <= a < b < s.len() && s[a] == #[trigger] s.filter(pred)[i] && s[b]
                    == #[trigger] s.filter(pred)[j],
        forall|k: int| 0 <= k < s.len() && pred(s[k]) ==> s.filter(pred).contains(#[trigger] s[k]),
    decreases s.len(),
{
    reveal(Seq::filter);
    let kept = s.filter(pred);
    if s.len() > 0 {
        let front = s.drop_last();
        let kept_front = front.filter(pred);
        lemma_filter_origin(front, pred);
        assert forall|i: int| 0 <= i < kept.len() implies pred(#[trigger] kept[i]) && s.contains(
            kept[i],
        ) by {
            if i < kept_front.len() {
                assert(kept[i] == kept_front[i]);
                assert(front.contains(kept_front[i]));
                let a = choose|a: int| 0 <= a < front.len() && front[a] == kept_front[i];
                assert(s[a] == kept[i]);
            } else {
                assert(kept[i] == s[s.len() - 1]);
            }
        }
        assert forall|i: int, j: int| 0 <= i < j < kept.len() implies exists|a: int, b: int|
            0 <= a < b < s.len() && s[a] == #[trigger] kept[i] && s[b] == #[trigger] kept[j] by {
            if j < kept_front.len() {
                assert(kept[i] == kept_front[i] && kept[j] == kept_front[j]);
                let (a, b) = choose|a: int, b: int|
                    0 <= a < b < front.len() && front[a] == kept_front[i] && front[b]
                        == kept_front[j];
                assert(s[a] == kept[i] && s[b] == kept[j]);
            } else {
                assert(kept[i] == kept_front[i]);
                assert(front.contains(kept_front[i]));
                let a = choose|a: int| 0 <= a < front.len() && front[a] == kept_front[i];
                assert(s[a] == kept[i] && s[s.len() - 1] == kept[j]);
            }
        }
        assert forall|k: int| 0 <= k < s.len() && pred(s[k]) implies kept.contains(
            #[trigger] s[k],
        ) by {
            if k < front.len() {
                assert(front[k] == s[k]);
                assert(kept_front.contains(front[k]));
                let i = choose|i: int| 0 <= i < kept_front.len() && kept_front[i] == front[k];
                assert(kept[i] == s[k]);
            } else {
                assert(kept[kept.len() - 1] == s[k]);
            }
        }
    }
}

} // verus!

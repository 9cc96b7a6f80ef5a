//! Looking through a sequence in its order: the first item that meets a
//! condition, and all the items that meet it.

use vstd::prelude::*;

verus! {

/// The first item of `s` that meets `pred`.
pub open spec fn first_where<T>(s: Seq<T>, pred: spec_fn(T) -> bool) -> Option<T>
    decreases s.len(),
{
    if s.len() == 0 {
        None
    } else if pred(s[0]) {
        Some(s[0])
    } else {
        first_where(s.skip(1), pred)
    }
}

/// The position of the first item of `s` that meets `pred`.
pub open spec fn first_index_where<T>(s: Seq<T>, pred: spec_fn(T) -> bool) -> Option<int>
    decreases s.len(),
{
    if s.len() == 0 {
        None
    } else if pred(s[0]) {
        Some(0)
    } else {
        match first_index_where(s.skip(1), pred) {
            Some(i) => Some(i + 1),
            None => None,
        }
    }
}

/// The first position that meets the condition has none before it that does,
/// and the first item is the one that stands there; there is none exactly
/// where no item meets the condition.
pub proof fn lemma_first_where<T>(s: Seq<T>, pred: spec_fn(T) -> bool)
    ensures
        match first_index_where(s, pred) {
            Some(i) => {
                &&& 0 <= i < s.len()
                &&& pred(s[i])
                &&& forall|j: int| 0 <= j < i ==> !pred(#[trigger] s[j])
                &&& first_where(s, pred) == Some(s[i])
            },
            None => {
                &&& forall|j: int| 0 <= j < s.len() ==> !pred(#[trigger] s[j])
                &&& first_where(s, pred) is None
            },
        },
    decreases s.len(),
{
    if s.len() > 0 && !pred(s[0]) {
        let rest = s.skip(1);
        lemma_first_where(rest, pred);
        match first_index_where(rest, pred) {
            Some(i) => {
                assert forall|j: int| 0 <= j < i + 1 implies !pred(#[trigger] s[j]) by {
                    if j > 0 {
                        assert(s[j] == rest[j - 1]);
                    }
                }
                assert(s[i + 1] == rest[i]);
            },
            None => {
                assert forall|j: int| 0 <= j < s.len() implies !pred(#[trigger] s[j]) by {
                    if j > 0 {
                        assert(s[j] == rest[j - 1]);
                    }
                }
            },
        }
    }
}

/// A position that meets the condition, with none before it that does, is the
/// first.
pub proof fn lemma_first_index_is<T>(s: Seq<T>, pred: spec_fn(T) -> bool, i: int)
    requires
        0 <= i < s.len(),
        pred(s[i]),
        forall|j: int| 0 <= j < i ==> !pred(#[trigger] s[j]),
    ensures
        first_index_where(s, pred) == Some(i),
        first_where(s, pred) == Some(s[i]),
{
    lemma_first_where(s, pred);
    match first_index_where(s, pred) {
        Some(k) => {
            if k < i {
                assert(!pred(s[k]));
            }
        },
        None => {
            assert(!pred(s[i]));
        },
    }
}

/// Where no item meets the condition, there is no first.
pub proof fn lemma_first_index_none<T>(s: Seq<T>, pred: spec_fn(T) -> bool)
    requires
        forall|j: int| 0 <= j < s.len() ==> !pred(#[trigger] s[j]),
    ensures
        first_index_where(s, pred) is None,
        first_where(s, pred) is None,
{
    lemma_first_where(s, pred);
    match first_index_where(s, pred) {
        Some(k) => {
            assert(!pred(s[k]));
        },
        None => {},
    }
}

/// What one more item at the end adds to the items that meet a condition.
pub proof fn lemma_filter_push<T>(s: Seq<T>, item: T, pred: spec_fn(T) -> bool)
    ensures
        s.push(item).filter(pred) == if pred(item) {
            s.filter(pred).push(item)
        } else {
            s.filter(pred)
        },
{
    reveal(Seq::filter);
    assert(s.push(item).drop_last() =~= s);
}

/// What is first among the items that meet a condition stays so where the
/// sequence changes only in items that do not meet it, before and after.
pub proof fn lemma_first_where_unchanged<T>(before: Seq<T>, after: Seq<T>, pred: spec_fn(T) -> bool)
    requires
        before.len() <= after.len(),
        forall|i: int|
            0 <= i < before.len() ==> before[i] == after[i] || (!pred(before[i]) && !pred(
                after[i],
            )),
        forall|i: int| before.len() <= i < after.len() ==> !pred(after[i]),
    ensures
        first_where(after, pred) == first_where(before, pred),
{
    lemma_first_where(before, pred);
    match first_index_where(before, pred) {
        Some(k) => {
            assert forall|j: int| 0 <= j < k implies !pred(#[trigger] after[j]) by {
                assert(!pred(before[j]));
            }
            lemma_first_index_is(after, pred, k);
        },
        None => {
            assert forall|j: int| 0 <= j < after.len() implies !pred(#[trigger] after[j]) by {
                if j < before.len() {
                    assert(!pred(before[j]));
                }
            }
            lemma_first_index_none(after, pred);
        },
    }
}

} // verus!

//! The first element of a sequence that meets a predicate.

use vstd::prelude::*;

verus! {

/// The least index at or after `i` whose element meets `pred`.
pub open spec fn first_index_from<T>(s: Seq<T>, pred: spec_fn(T) -> bool, i: int) -> Option<int>
    decreases s.len() - i,
{
    if i < 0 || i >= s.len() {
        None
    } else if pred(s[i]) {
        Some(i)
    } else {
        first_index_from(s, pred, i + 1)
    }
}

/// The least index whose element meets `pred`.
pub open spec fn first_index<T>(s: Seq<T>, pred: spec_fn(T) -> bool) -> Option<int> {
    first_index_from(s, pred, 0)
}

/// The first element that meets `pred`.
pub open spec fn first_match<T>(s: Seq<T>, pred: spec_fn(T) -> bool) -> Option<T> {
    match first_index(s, pred) {
        Some(i) => Some(s[i]),
        None => None,
    }
}

proof fn lemma_first_index_from<T>(s: Seq<T>, pred: spec_fn(T) -> bool, i: int)
    requires
        0 <= i,
    ensures
        match first_index_from(s, pred, i) {
            Some(k) => i <= k < s.len() && pred(s[k]) && forall|j: int| i <= j < k ==> !pred(#[trigger] s[j]),
            None => forall|j: int| i <= j < s.len() ==> !pred(#[trigger] s[j]),
        },
    decreases s.len() - i,
{
    if i < s.len() && !pred(s[i]) {
        lemma_first_index_from(s, pred, i + 1);
    }
}

/// `first_index` is the least index whose element meets `pred`, and there
/// is none exactly when no element meets it.
pub proof fn lemma_first_index<T>(s: Seq<T>, pred: spec_fn(T) -> bool)
    ensures
        match first_index(s, pred) {
            Some(k) => 0 <= k < s.len() && pred(s[k]) && forall|j: int| 0 <= j < k ==> !pred(#[trigger] s[j]),
            None => forall|j: int| 0 <= j < s.len() ==> !pred(#[trigger] s[j]),
        },
{
    lemma_first_index_from(s, pred, 0);
}

/// An index that meets `pred` and has no earlier one that does is the first.
pub proof fn lemma_first_index_unique<T>(s: Seq<T>, pred: spec_fn(T) -> bool, k: int)
    requires
        0 <= k < s.len(),
        pred(s[k]),
        forall|j: int| 0 <= j < k ==> !pred(#[trigger] s[j]),
    ensures
        first_index(s, pred) == Some(k),
{
    lemma_first_index(s, pred);
    match first_index(s, pred) {
        Some(m) => {
            if m < k {
                assert(!pred(s[m]));
            } else if m > k {
                assert(!pred(s[k]));
            }
        },
        None => {
            assert(!pred(s[k]));
        },
    }
}

/// With no element that meets `pred`, there is no first.
pub proof fn lemma_first_index_none<T>(s: Seq<T>, pred: spec_fn(T) -> bool)
    requires
        forall|j: int| 0 <= j < s.len() ==> !pred(#[trigger] s[j]),
    ensures
        first_index(s, pred) == None::<int>,
{
    lemma_first_index(s, pred);
    match first_index(s, pred) {
        Some(m) => {
            assert(pred(s[m]));
        },
        None => {},
    }
}

/// What the first match becomes when an element is added at the end.
pub proof fn lemma_first_match_push<T>(s: Seq<T>, x: T, pred: spec_fn(T) -> bool)
    ensures
        first_match(s.push(x), pred) == (match first_match(s, pred) {
            Some(y) => Some(y),
            None => if pred(x) { Some(x) } else { None::<T> },
        }),
{
    let t = s.push(x);
    lemma_first_index(s, pred);
    match first_index(s, pred) {
        Some(k) => {
            assert forall|j: int| 0 <= j < k implies !pred(#[trigger] t[j]) by {
                assert(t[j] == s[j]);
            }
            assert(t[k] == s[k]);
            lemma_first_index_unique(t, pred, k);
        },
        None => {
            if pred(x) {
                assert forall|j: int| 0 <= j < s.len() implies !pred(#[trigger] t[j]) by {
                    assert(t[j] == s[j]);
                }
                assert(t[s.len() as int] == x);
                lemma_first_index_unique(t, pred, s.len() as int);
            } else {
                assert forall|j: int| 0 <= j < t.len() implies !pred(#[trigger] t[j]) by {
                    if j < s.len() {
                        assert(t[j] == s[j]);
                    }
                }
                lemma_first_index_none(t, pred);
            }
        },
    }
}

/// Replacing the first match by an element that also matches makes it the
/// first match.
pub proof fn lemma_first_match_update<T>(s: Seq<T>, i: int, x: T, pred: spec_fn(T) -> bool)
    requires
        first_index(s, pred) == Some(i),
        pred(x),
    ensures
        first_match(s.update(i, x), pred) == Some(x),
{
    lemma_first_index(s, pred);
    let t = s.update(i, x);
    assert forall|j: int| 0 <= j < i implies !pred(#[trigger] t[j]) by {
        assert(t[j] == s[j]);
    }
    lemma_first_index_unique(t, pred, i);
}

/// Nothing that a filter drops is found after it.
pub proof fn lemma_first_match_filtered<T>(s: Seq<T>, keep: spec_fn(T) -> bool, pred: spec_fn(T) -> bool)
    requires
        forall|x: T| #[trigger] pred(x) ==> !keep(x),
    ensures
        first_match(s.filter(keep), pred) == None::<T>,
{
    broadcast use vstd::seq_lib::group_filter_ensures;
    let f = s.filter(keep);
    assert forall|j: int| 0 <= j < f.len() implies !pred(#[trigger] f[j]) by {
        assert(keep(f[j]));
    }
    lemma_first_index_none(f, pred);
}

} // verus!

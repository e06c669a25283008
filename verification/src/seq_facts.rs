//! Facts about `Seq` used by the loops that scan a hand or a trick from the front.

use vstd::prelude::*;

verus! {

/// Taking one more element of a sequence and filtering it extends the filtered prefix
/// by that element exactly when the element passes the filter.
pub proof fn lemma_filter_take_step<T>(s: Seq<T>, i: int, pred: spec_fn(T) -> bool)
    requires
        0 <= i < s.len(),
    ensures
        s.take(i + 1).filter(pred) == (if pred(s[i]) {
            s.take(i).filter(pred).push(s[i])
        } else {
            s.take(i).filter(pred)
        }),
{
    reveal_with_fuel(Seq::filter, 1);
    assert(s.take(i + 1).drop_last() =~= s.take(i));
}

/// Taking the whole sequence gives the sequence back.
pub proof fn lemma_take_full<T>(s: Seq<T>)
    ensures
        s.take(s.len() as int) == s,
{
    assert(s.take(s.len() as int) =~= s);
}

/// What a filter keeps comes from the sequence.
pub proof fn lemma_filter_subset<T>(s: Seq<T>, pred: spec_fn(T) -> bool)
    ensures
        forall|i: int| 0 <= i < s.filter(pred).len() ==> s.contains(#[trigger] s.filter(pred)[i]),
    decreases s.len(),
{
    reveal_with_fuel(Seq::filter, 1);
    if s.len() > 0 {
        lemma_filter_subset(s.drop_last(), pred);
        let sub = s.drop_last().filter(pred);
        assert forall|i: int| 0 <= i < s.filter(pred).len() implies s.contains(
            #[trigger] s.filter(pred)[i],
        ) by {
            if i < sub.len() {
                assert(s.filter(pred)[i] == sub[i]);
                let j = choose|j: int| 0 <= j < s.drop_last().len() && s.drop_last()[j] == sub[i];
                assert(s[j] == sub[i]);
            } else {
                assert(s.filter(pred)[i] == s.last());
                assert(s[s.len() - 1] == s.last());
            }
        }
    }
}

/// Everything that passes a filter stays in the filtered sequence, and only that.
pub proof fn lemma_filter_members<T>(s: Seq<T>, pred: spec_fn(T) -> bool)
    ensures
        forall|i: int| 0 <= i < s.filter(pred).len() ==> pred(#[trigger] s.filter(pred)[i]),
        forall|i: int| 0 <= i < s.filter(pred).len() ==> s.contains(#[trigger] s.filter(pred)[i]),
        forall|i: int| 0 <= i < s.len() && pred(s[i]) ==> #[trigger] s.filter(pred).contains(s[i]),
        s.filter(pred).len() <= s.len(),
{
    broadcast use vstd::seq_lib::group_filter_ensures;
    s.lemma_filter_len(pred);
    lemma_filter_subset(s, pred);
}

/// A filtered sequence is empty exactly when nothing in the sequence passes the filter.
pub proof fn lemma_filter_empty<T>(s: Seq<T>, pred: spec_fn(T) -> bool)
    ensures
        (s.filter(pred).len() == 0) <==> (forall|i: int| 0 <= i < s.len() ==> !pred(#[trigger] s[i])),
{
    lemma_filter_members(s, pred);
    if s.filter(pred).len() == 0 {
        assert forall|i: int| 0 <= i < s.len() implies !pred(#[trigger] s[i]) by {
            if pred(s[i]) {
                assert(s.filter(pred).contains(s[i]));
            }
        }
    } else {
        let x = s.filter(pred)[0];
        assert(pred(x));
        assert(s.contains(x));
    }
}

/// The position of the first occurrence of `x` in `s`.
#[verifier::opaque]
pub open spec fn first_position<T>(s: Seq<T>, x: T) -> int {
    choose|i: int| 0 <= i < s.len() && s[i] == x && forall|j: int| 0 <= j < i ==> s[j] != x
}

/// The sequence without the first occurrence of `x`.
pub open spec fn without_first<T>(s: Seq<T>, x: T) -> Seq<T> {
    s.remove(first_position(s, x))
}

/// When `x` is at `i` and nowhere before, `i` is its first position.
pub proof fn lemma_first_position<T>(s: Seq<T>, x: T, i: int)
    requires
        0 <= i < s.len(),
        s[i] == x,
        forall|j: int| 0 <= j < i ==> s[j] != x,
    ensures
        first_position(s, x) == i,
{
    reveal(first_position);
    let k = first_position(s, x);
    assert(0 <= k < s.len() && s[k] == x && forall|j: int| 0 <= j < k ==> s[j] != x);
    if k < i {
        assert(s[k] != x);
    } else if i < k {
        assert(s[i] != x);
    }
}

/// An element at `k` has a first occurrence.
pub(crate) proof fn lemma_exists_first<T>(s: Seq<T>, x: T, k: int)
    requires
        0 <= k < s.len(),
        s[k] == x,
    ensures
        exists|i: int| 0 <= i < s.len() && s[i] == x && forall|j: int| 0 <= j < i ==> s[j] != x,
    decreases k,
{
    if exists|j: int| 0 <= j < k && s[j] == x {
        let j = choose|j: int| 0 <= j < k && s[j] == x;
        lemma_exists_first(s, x, j);
    } else {
        assert(forall|j: int| 0 <= j < k ==> s[j] != x);
    }
}

/// Removing the first occurrence of an element that is there takes exactly one copy of it
/// out of the multiset of the sequence.
pub proof fn lemma_without_first_multiset<T>(s: Seq<T>, x: T)
    requires
        s.contains(x),
    ensures
        without_first(s, x).to_multiset() == s.to_multiset().remove(x),
        s.to_multiset() == without_first(s, x).to_multiset().insert(x),
{
    broadcast use vstd::multiset::group_multiset_axioms;
    let k = choose|k: int| 0 <= k < s.len() && s[k] == x;
    lemma_exists_first(s, x, k);
    reveal(first_position);
    let i = first_position(s, x);
    assert(0 <= i < s.len() && s[i] == x);
    vstd::seq_lib::to_multiset_remove(s, i);
    s.to_multiset_ensures();
    assert(s.to_multiset().count(x) > 0);
    assert(s.to_multiset() =~= s.to_multiset().remove(x).insert(x));
}

} // verus!

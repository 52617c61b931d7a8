//! The first item of a sequence that has a given property.

use vstd::prelude::*;

verus! {

/// The position of the first item of `s` that satisfies `pred`, or the
/// length of `s` where none does.
pub open spec fn first_where<T>(s: Seq<T>, pred: spec_fn(T) -> bool) -> int
    decreases s.len(),
{
    if s.len() == 0 || pred(s[0]) {
        0
    } else {
        1 + first_where(s.skip(1), pred)
    }
}

/// A position before which no item satisfies `pred`, and which is the end
/// or holds an item that does, is the one that `first_where` gives.
pub proof fn lemma_first_where_unique<T>(s: Seq<T>, pred: spec_fn(T) -> bool, i: int)
    requires
        0 <= i <= s.len(),
        forall|j: int| 0 <= j < i ==> !pred(s[j]),
        i < s.len() ==> pred(s[i]),
    ensures
        first_where(s, pred) == i,
    decreases i,
{
    if i > 0 {
        lemma_first_where_unique(s.skip(1), pred, i - 1);
    }
}

/// `first_where` gives a position within `s` or its end; no item before it
/// satisfies `pred`, and the item at it does.
pub proof fn lemma_first_where_is_first<T>(s: Seq<T>, pred: spec_fn(T) -> bool)
    ensures
        0 <= first_where(s, pred) <= s.len(),
        forall|j: int| 0 <= j < first_where(s, pred) ==> !pred(#[trigger] s[j]),
        first_where(s, pred) < s.len() ==> pred(s[first_where(s, pred)]),
    decreases s.len(),
{
    if !(s.len() == 0 || pred(s[0])) {
        let rest = s.skip(1);
        lemma_first_where_is_first(rest, pred);
        assert forall|j: int| 0 <= j < first_where(s, pred) implies !pred(#[trigger] s[j]) by {
            if j > 0 {
                assert(s[j] == rest[j - 1]);
            }
        }
    }
}

} // verus!

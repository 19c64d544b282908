//! Finding things in sequences.

use vstd::prelude::*;

verus! {

/// The index of the first element for which `pred` holds, or the length.
pub open spec fn first_where<A>(s: Seq<A>, pred: spec_fn(A) -> bool) -> nat
    decreases s.len(),
{
    if s.len() == 0 || pred(s[0]) {
        0
    } else {
        1 + first_where(s.skip(1), pred)
    }
}

/// The first index is the only one before which nothing is accepted and at
/// which the sequence ends or something is.
pub proof fn lemma_first_where<A>(s: Seq<A>, pred: spec_fn(A) -> bool, i: nat)
    requires
        i <= s.len(),
        forall|j: int| 0 <= j < i ==> !pred(#[trigger] s[j]),
        i < s.len() ==> pred(s[i as int]),
    ensures
        first_where(s, pred) == i,
    decreases s.len(),
{
    if s.len() != 0 && !pred(s[0]) {
        assert(i > 0);
        let rest = s.skip(1);
        assert forall|j: int| 0 <= j < i - 1 implies !pred(#[trigger] rest[j]) by {
            assert(rest[j] == s[j + 1]);
        }
        lemma_first_where(rest, pred, (i - 1) as nat);
    } else if s.len() != 0 && i > 0 {
        assert(!pred(s[0]));
    }
}

/// What is at the first index, and before it.
pub proof fn lemma_first_where_meaning<A>(s: Seq<A>, pred: spec_fn(A) -> bool)
    ensures
        first_where(s, pred) <= s.len(),
        forall|j: int| 0 <= j < first_where(s, pred) ==> !pred(#[trigger] s[j]),
        first_where(s, pred) < s.len() ==> pred(s[first_where(s, pred) as int]),
    decreases s.len(),
{
    if s.len() != 0 && !pred(s[0]) {
        let rest = s.skip(1);
        lemma_first_where_meaning(rest, pred);
        assert forall|j: int| 0 <= j < first_where(s, pred) implies !pred(#[trigger] s[j]) by {
            if j > 0 {
                assert(rest[j - 1] == s[j]);
            }
        }
    }
}

} // verus!

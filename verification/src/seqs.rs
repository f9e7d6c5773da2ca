//! Small facts about sequences that several modules lean on.
use vstd::prelude::*;

verus! {

/// Pushing onto a sequence keeps everything it already contains.
pub proof fn lemma_push_keeps_contains<A>(s: Seq<A>, x: A, y: A)
    ensures
        s.contains(y) ==> s.push(x).contains(y),
        s.push(x).contains(x),
{
    if s.contains(y) {
        let i = choose|i: int| 0 <= i < s.len() && s[i] == y;
        assert(s.push(x)[i] == y);
    }
    assert(s.push(x)[s.len() as int] == x);
}

} // verus!

use vstd::prelude::*;

verus! {

/// An element is in a sequence with one more element pushed iff it is in the sequence
/// or is the pushed element.
pub proof fn lemma_push_contains<A>(s: Seq<A>, e: A, b: A)
    ensures
        s.push(e).contains(b) <==> (s.contains(b) || b == e),
{
    if s.push(e).contains(b) {
        let k = choose|k: int| 0 <= k < s.push(e).len() && s.push(e)[k] == b;
        if k < s.len() {
            assert(s[k] == b);
        }
    }
    if s.contains(b) {
        let k = choose|k: int| 0 <= k < s.len() && s[k] == b;
        assert(s.push(e)[k] == b);
    }
    if b == e {
        assert(s.push(e)[s.len() as int] == b);
    }
}

} // verus!

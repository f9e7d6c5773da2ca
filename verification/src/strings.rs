//! Verified helpers over strings: equality, substring search, and
//! conversion to an indexable character vector.
use vstd::prelude::*;

verus! {

use vstd::std_specs::iter::IteratorSpec;

/// Whether the characters of `n` occur in `h` starting at offset `i`.
pub open spec fn contains_at(h: Seq<char>, n: Seq<char>, i: int) -> bool {
    forall|k: int| 0 <= k < n.len() ==> h[i + k] == n[k]
}

/// Whether `n` occurs anywhere in `h` as a contiguous run.
pub open spec fn spec_contains(h: Seq<char>, n: Seq<char>) -> bool {
    exists|i: int| 0 <= i <= h.len() - n.len() && contains_at(h, n, i)
}

/// The characters of a string slice as a vector, in order.
pub fn chars_vec(s: &str) -> (r: Vec<char>)
    ensures
        r@ == s@,
{
    broadcast use vstd::string::next_postcondition;
    broadcast use vstd::string::axiom_spec_iter;

    let mut it = s.chars();
    let mut out: Vec<char> = Vec::new();
    loop
        invariant_except_break
            it.obeys_prophetic_iter_laws(),
            IteratorSpec::decrease(&it) is Some,
            out@ + IteratorSpec::remaining(&it) == s@,
        ensures
            out@ == s@,
        decreases IteratorSpec::decrease(&it)->0,
    {
        match it.next() {
            Some(c) => {
                out.push(c);
            },
            None => {
                break ;
            },
        }
    }
    out
}

/// String equality by view.
pub fn str_eq(a: &str, b: &str) -> (r: bool)
    ensures
        r == (a@ == b@),
{
    let x: String = a.to_owned();
    let y: String = b.to_owned();
    x == y
}

/// Whether `needle` occurs in `hay` as a contiguous run of characters.
pub fn string_contains(hay: &str, needle: &str) -> (r: bool)
    ensures
        r == spec_contains(hay@, needle@),
{
    let h = chars_vec(hay);
    let n = chars_vec(needle);
    if n.len() > h.len() {
        return false;
    }
    let end: usize = h.len() - n.len();
    let mut i: usize = 0;
    while i <= end
        invariant
            h@ == hay@,
            n@ == needle@,
            n@.len() <= h@.len(),
            end == h@.len() - n@.len(),
            i <= end + 1,
            forall|j: int| 0 <= j < i ==> !contains_at(h@, n@, j),
        decreases end + 1 - i,
    {
        let mut j: usize = 0;
        let mut ok: bool = true;
        while j < n.len()
            invariant
                h@ == hay@,
                n@ == needle@,
                i + n@.len() <= h@.len(),
                j <= n@.len(),
                ok ==> (forall|k: int| 0 <= k < j ==> h@[i + k] == n@[k]),
                !ok ==> !contains_at(h@, n@, i as int),
            decreases n@.len() - j,
        {
            proof {
                assert(h@.len() == vstd::std_specs::vec::spec_vec_len(&h));
                assert(i + j < h@.len());
            }
            let idx: usize = i + j;
            let hij: char = h[idx];
            if hij != n[j] {
                proof {
                    assert(h@[idx as int] != n@[j as int]);
                }
                ok = false;
                j = n.len();
            } else {
                j = j + 1;
            }
        }
        if ok {
            assert(contains_at(h@, n@, i as int));
            return true;
        }
        proof {
            if n@.len() == 0 {
                assert(contains_at(h@, n@, i as int));
            }
            assert(h@.len() == vstd::std_specs::vec::spec_vec_len(&h));
        }
        i = i + 1;
    }
    false
}

} // verus!

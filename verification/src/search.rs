//! First-occurrence search over sequences, shared by the roster and
//! hand lookups.

use vstd::prelude::*;

verus! {

/// Index of the first element of `s` satisfying `p`, or `s.len()` if
/// no element does.
pub open spec fn first_where<T>(s: Seq<T>, p: spec_fn(T) -> bool) -> int
    decreases s.len(),
{
    if s.len() == 0 {
        0
    } else if p(s[0]) {
        0
    } else {
        1 + first_where(s.subrange(1, s.len() as int), p)
    }
}

/// `first_where` lies in `0..=s.len()`, points at a satisfying
/// element when it is in range, and everything before it fails `p`;
/// it is in range exactly when some element satisfies `p`.
pub proof fn lemma_first_where<T>(s: Seq<T>, p: spec_fn(T) -> bool)
    ensures
        0 <= first_where(s, p) <= s.len(),
        first_where(s, p) < s.len() ==> p(s[first_where(s, p)]),
        forall|k: int| 0 <= k < first_where(s, p) ==> !p(s[k]),
        (exists|k: int| 0 <= k < s.len() && p(s[k])) <==> first_where(s, p) < s.len(),
    decreases s.len(),
{
    if s.len() == 0 {
    } else if p(s[0]) {
    } else {
        let rest = s.subrange(1, s.len() as int);
        lemma_first_where(rest, p);
        assert forall|k: int| 0 <= k < first_where(s, p) implies !p(s[k]) by {
            if k > 0 {
                assert(rest[k - 1] == s[k]);
            }
        }
        if exists|k: int| 0 <= k < s.len() && p(s[k]) {
            let k = choose|k: int| 0 <= k < s.len() && p(s[k]);
            assert(k > 0);
            assert(rest[k - 1] == s[k]);
        }
        if first_where(s, p) < s.len() {
            assert(s[first_where(s, p)] == rest[first_where(rest, p)]);
        }
    }
}

/// A first-occurrence index is unique: if `s[i]` satisfies `p` and
/// nothing before `i` does, then `first_where` is exactly `i`.
pub proof fn lemma_first_where_unique<T>(s: Seq<T>, p: spec_fn(T) -> bool, i: int)
    requires
        0 <= i < s.len(),
        p(s[i]),
        forall|k: int| 0 <= k < i ==> !p(s[k]),
    ensures
        first_where(s, p) == i,
{
    lemma_first_where(s, p);
}

} // verus!

use vstd::prelude::*;

verus! {

/// `i` is the first position of `s` whose item satisfies `p`.
pub open spec fn is_first_match<T>(s: Seq<T>, p: spec_fn(T) -> bool, i: int) -> bool {
    &&& 0 <= i < s.len()
    &&& p(s[i])
    &&& forall|j: int| 0 <= j < i ==> !p(#[trigger] s[j])
}

/// The first position of `s` whose item satisfies `p`, if there is one.
pub open spec fn first_match<T>(s: Seq<T>, p: spec_fn(T) -> bool) -> Option<int> {
    if exists|i: int| is_first_match(s, p, i) {
        Some(choose|i: int| is_first_match(s, p, i))
    } else {
        None
    }
}

/// A first match is the first match.
pub proof fn lemma_first_match_is<T>(s: Seq<T>, p: spec_fn(T) -> bool, i: int)
    requires
        is_first_match(s, p, i),
    ensures
        first_match(s, p) == Some(i),
{
    let c = choose|k: int| is_first_match(s, p, k);
    assert(is_first_match(s, p, c));
    if c < i {
        assert(!p(s[c]));
    } else if i < c {
        assert(!p(s[i]));
    }
}

/// Where no item satisfies `p`, there is no first match.
pub proof fn lemma_no_match<T>(s: Seq<T>, p: spec_fn(T) -> bool)
    requires
        forall|j: int| 0 <= j < s.len() ==> !p(#[trigger] s[j]),
    ensures
        first_match(s, p) is None,
{
    assert forall|i: int| !is_first_match(s, p, i) by {
        if 0 <= i < s.len() {
            assert(!p(s[i]));
        }
    }
}

/// Where some item satisfies `p`, there is a first match, no later than it.
pub proof fn lemma_some_match<T>(s: Seq<T>, p: spec_fn(T) -> bool, k: int)
    requires
        0 <= k < s.len(),
        p(s[k]),
    ensures
        first_match(s, p) matches Some(i) && i <= k && is_first_match(s, p, i),
    decreases k,
{
    if forall|j: int| 0 <= j < k ==> !p(#[trigger] s[j]) {
        lemma_first_match_is(s, p, k);
    } else {
        let j = choose|j: int| 0 <= j < k && !!p(#[trigger] s[j]);
        lemma_some_match(s, p, j);
    }
}

} // verus!

//! Small facts about finding the first element of a sequence that
//! satisfies a predicate, shared by every lookup in the library.
use vstd::prelude::*;

verus! {

/// Index of the first element of `s` satisfying `p`, or -1 when none does.
pub open spec fn first_index<T>(s: Seq<T>, p: spec_fn(T) -> bool) -> int
    decreases s.len(),
{
    if s.len() == 0 {
        -1
    } else if p(s[0]) {
        0
    } else {
        let r = first_index(s.drop_first(), p);
        if r < 0 {
            -1
        } else {
            r + 1
        }
    }
}

/// `first_index` is either -1 with no element satisfying `p`, or the index
/// of an element satisfying `p` with none before it.
pub proof fn lemma_first_index<T>(s: Seq<T>, p: spec_fn(T) -> bool)
    ensures
        -1 <= first_index(s, p) < s.len(),
        first_index(s, p) == -1 <==> (forall|j: int| 0 <= j < s.len() ==> !p(#[trigger] s[j])),
        first_index(s, p) >= 0 ==> p(s[first_index(s, p)]),
        forall|j: int| 0 <= j < first_index(s, p) ==> !p(#[trigger] s[j]),
    decreases s.len(),
{
    if s.len() > 0 && !p(s[0]) {
        lemma_first_index(s.drop_first(), p);
        assert forall|j: int| 1 <= j < s.len() implies s[j] == s.drop_first()[j - 1] by {}
        if first_index(s.drop_first(), p) == -1 {
            assert forall|j: int| 0 <= j < s.len() implies !p(#[trigger] s[j]) by {
                if j > 0 {
                    assert(s[j] == s.drop_first()[j - 1]);
                }
            }
        } else {
            let r = first_index(s.drop_first(), p);
            assert(s[r + 1] == s.drop_first()[r]);
            assert forall|j: int| 0 <= j < r + 1 implies !p(#[trigger] s[j]) by {
                if j > 0 {
                    assert(s.drop_first()[j - 1] == s[j]);
                }
            }
        }
    }
}

/// A position `k` where `p` holds and nothing before it satisfies `p` is
/// `first_index`.
pub proof fn lemma_first_index_is<T>(s: Seq<T>, p: spec_fn(T) -> bool, k: int)
    requires
        0 <= k < s.len(),
        p(s[k]),
        forall|j: int| 0 <= j < k ==> !p(#[trigger] s[j]),
    ensures
        first_index(s, p) == k,
{
    lemma_first_index(s, p);
    let f = first_index(s, p);
    if f != k {
        if f == -1 {
            assert(!p(s[k]));
        } else if f < k {
            assert(!p(s[f]));
        } else {
            assert(!p(s[k]));
        }
    }
}

/// When nothing satisfies `p`, `first_index` is -1.
pub proof fn lemma_first_index_none<T>(s: Seq<T>, p: spec_fn(T) -> bool)
    requires
        forall|j: int| 0 <= j < s.len() ==> !p(#[trigger] s[j]),
    ensures
        first_index(s, p) == -1,
{
    lemma_first_index(s, p);
}

} // verus!

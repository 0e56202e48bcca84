//! Finding the first element of a sequence that passes a test.

use vstd::prelude::*;

verus! {

/// Index of the first element of `s` that satisfies `test`, if any does.
pub open spec fn first_index<T>(s: Seq<T>, test: spec_fn(T) -> bool) -> Option<int>
    decreases s.len(),
{
    if s.len() == 0 {
        None
    } else if test(s.first()) {
        Some(0)
    } else {
        match first_index(s.drop_first(), test) {
            Some(i) => Some(i + 1),
            None => None,
        }
    }
}

/// `first_index` names an element that passes the test and that no passing
/// element precedes; it is `None` exactly when no element passes.
pub proof fn lemma_first_index<T>(s: Seq<T>, test: spec_fn(T) -> bool)
    ensures
        match first_index(s, test) {
            Some(i) => {
                &&& 0 <= i < s.len()
                &&& test(s[i])
                &&& forall|j: int| 0 <= j < i ==> !test(#[trigger] s[j])
            },
            None => forall|j: int| 0 <= j < s.len() ==> !test(#[trigger] s[j]),
        },
    decreases s.len(),
{
    if s.len() == 0 {
    } else if test(s.first()) {
    } else {
        let rest = s.drop_first();
        lemma_first_index(rest, test);
        match first_index(rest, test) {
            Some(i) => {
                assert(s[i + 1] == rest[i]);
                assert forall|j: int| 0 <= j < i + 1 implies !test(#[trigger] s[j]) by {
                    if j > 0 {
                        assert(s[j] == rest[j - 1]);
                    }
                }
            },
            None => {
                assert forall|j: int| 0 <= j < s.len() implies !test(#[trigger] s[j]) by {
                    if j > 0 {
                        assert(s[j] == rest[j - 1]);
                    }
                }
            },
        }
    }
}

/// An element that passes the test, with none passing before it, is the
/// one that `first_index` names.
pub proof fn lemma_first_index_is<T>(s: Seq<T>, test: spec_fn(T) -> bool, i: int)
    requires
        0 <= i < s.len(),
        test(s[i]),
        forall|j: int| 0 <= j < i ==> !test(#[trigger] s[j]),
    ensures
        first_index(s, test) == Some(i),
{
    lemma_first_index(s, test);
}

/// Where no element passes the test, `first_index` is `None`.
pub proof fn lemma_first_index_none<T>(s: Seq<T>, test: spec_fn(T) -> bool)
    requires
        forall|j: int| 0 <= j < s.len() ==> !test(#[trigger] s[j]),
    ensures
        first_index(s, test) is None,
{
    lemma_first_index(s, test);
}

} // verus!

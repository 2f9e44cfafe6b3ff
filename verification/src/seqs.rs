use vstd::prelude::*;

verus! {

/// The position of the first element of `s` that satisfies `p`, if any.
pub open spec fn first_index<A>(s: Seq<A>, p: spec_fn(A) -> bool) -> Option<int> {
    if exists|i: int| 0 <= i < s.len() && p(s[i]) && forall|j: int| 0 <= j < i ==> !p(s[j]) {
        Some(
            choose|i: int| 0 <= i < s.len() && p(s[i]) && forall|j: int| 0 <= j < i ==> !p(s[j]),
        )
    } else {
        None
    }
}

/// `first_index` is the unique position of a first match.
pub proof fn lemma_first_index_is<A>(s: Seq<A>, p: spec_fn(A) -> bool, i: int)
    requires
        0 <= i < s.len(),
        p(s[i]),
        forall|j: int| 0 <= j < i ==> !p(s[j]),
    ensures
        first_index(s, p) == Some(i),
{
    let k = choose|k: int| 0 <= k < s.len() && p(s[k]) && forall|j: int| 0 <= j < k ==> !p(s[j]);
    if k < i {
        assert(!p(s[k]));
    }
    if i < k {
        assert(!p(s[i]));
    }
}

/// No element satisfies `p`, so there is no first match.
pub proof fn lemma_first_index_none<A>(s: Seq<A>, p: spec_fn(A) -> bool)
    requires
        forall|j: int| 0 <= j < s.len() ==> !p(s[j]),
    ensures
        first_index(s, p) is None,
{
}

/// What `first_index` tells about its result.
pub proof fn lemma_first_index_props<A>(s: Seq<A>, p: spec_fn(A) -> bool)
    ensures
        first_index(s, p) matches Some(i) ==> 0 <= i < s.len() && p(s[i]) && forall|j: int|
            0 <= j < i ==> !p(s[j]),
        first_index(s, p) is None ==> forall|j: int| 0 <= j < s.len() ==> !p(s[j]),
    decreases s.len(),
{
    if first_index(s, p) is None && exists|j: int| 0 <= j < s.len() && p(s[j]) {
        let j = choose|j: int| 0 <= j < s.len() && p(s[j]);
        lemma_first_index_props(s.take(j), p);
        match first_index(s.take(j), p) {
            Some(i) => {
                assert(s.take(j)[i] == s[i]);
                assert forall|m: int| 0 <= m < i implies !p(s[m]) by {
                    assert(s.take(j)[m] == s[m]);
                }
            },
            None => {
                assert forall|m: int| 0 <= m < j implies !p(s[m]) by {
                    assert(s.take(j)[m] == s[m]);
                }
            },
        }
    }
}

} // verus!

verus! {

/// The position of the last element of `s` that satisfies `p`, if any.
pub open spec fn last_index<A>(s: Seq<A>, p: spec_fn(A) -> bool) -> Option<int> {
    if exists|i: int| 0 <= i < s.len() && p(s[i]) && forall|j: int| i < j < s.len() ==> !p(s[j]) {
        Some(
            choose|i: int| 0 <= i < s.len() && p(s[i]) && forall|j: int| i < j < s.len() ==> !p(s[j]),
        )
    } else {
        None
    }
}

/// `last_index` is the unique position of a last match.
pub proof fn lemma_last_index_is<A>(s: Seq<A>, p: spec_fn(A) -> bool, i: int)
    requires
        0 <= i < s.len(),
        p(s[i]),
        forall|j: int| i < j < s.len() ==> !p(s[j]),
    ensures
        last_index(s, p) == Some(i),
{
    let k = choose|k: int| 0 <= k < s.len() && p(s[k]) && forall|j: int| k < j < s.len() ==> !p(s[j]);
    if k < i {
        assert(!p(s[i]));
    }
    if i < k {
        assert(!p(s[k]));
    }
}

/// What `last_index` tells about its result.
pub proof fn lemma_last_index_props<A>(s: Seq<A>, p: spec_fn(A) -> bool)
    ensures
        last_index(s, p) matches Some(i) ==> 0 <= i < s.len() && p(s[i]) && forall|j: int|
            i < j < s.len() ==> !p(s[j]),
        last_index(s, p) is None ==> forall|j: int| 0 <= j < s.len() ==> !p(s[j]),
    decreases s.len(),
{
    if s.len() > 0 {
        let n = s.len() - 1;
        if p(s[n]) {
            lemma_last_index_is(s, p, n);
        } else {
            let init = s.drop_last();
            lemma_last_index_props(init, p);
            match last_index(init, p) {
                Some(i) => {
                    assert(init[i] == s[i]);
                    assert forall|j: int| i < j < s.len() implies !p(s[j]) by {
                        if j < n {
                            assert(init[j] == s[j]);
                        }
                    }
                    lemma_last_index_is(s, p, i);
                },
                None => {
                    assert forall|j: int| 0 <= j < s.len() implies !p(s[j]) by {
                        if j < n {
                            assert(init[j] == s[j]);
                        }
                    }
                },
            }
        }
    }
}

} // verus!

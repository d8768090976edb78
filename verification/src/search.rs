use vstd::prelude::*;

verus! {

/// Index of the first element of `s` satisfying `p`, or `None` when no
/// element does.
pub open spec fn find_first<A>(s: Seq<A>, p: spec_fn(A) -> bool) -> Option<int>
    decreases s.len(),
{
    if s.len() == 0 {
        None
    } else if p(s[0]) {
        Some(0 as int)
    } else {
        match find_first(s.drop_first(), p) {
            Some(i) => Some(i + 1),
            None => None,
        }
    }
}

/// `find_first` returns `None` exactly when nothing matches, and otherwise
/// the least matching index.
pub proof fn lemma_find_first<A>(s: Seq<A>, p: spec_fn(A) -> bool)
    ensures
        match find_first(s, p) {
            None => forall|i: int| 0 <= i < s.len() ==> !p(s[i]),
            Some(i) => 0 <= i < s.len() && p(s[i]) && (forall|j: int| 0 <= j < i ==> !p(s[j])),
        },
    decreases s.len(),
{
    if s.len() > 0 && !p(s[0]) {
        let t = s.drop_first();
        lemma_find_first(t, p);
        assert(forall|j: int| 0 <= j < t.len() ==> t[j] == s[j + 1]);
        match find_first(t, p) {
            None => {
                assert forall|i: int| 0 <= i < s.len() implies !p(s[i]) by {
                    if i > 0 {
                        assert(s[i] == t[i - 1]);
                    }
                }
            }
            Some(i) => {
                assert(s[i + 1] == t[i]);
                assert forall|j: int| 0 <= j < i + 1 implies !p(s[j]) by {
                    if j > 0 {
                        assert(s[j] == t[j - 1]);
                    }
                }
            }
        }
    }
}

/// A least matching index determines the result of `find_first`.
pub proof fn lemma_find_first_is<A>(s: Seq<A>, p: spec_fn(A) -> bool, i: int)
    requires
        0 <= i < s.len(),
        p(s[i]),
        forall|j: int| 0 <= j < i ==> !p(s[j]),
    ensures
        find_first(s, p) == Some(i),
{
    lemma_find_first(s, p);
    match find_first(s, p) {
        None => {
            assert(!p(s[i]));
        }
        Some(k) => {
            if k < i {
                assert(!p(s[k]));
            }
            if i < k {
                assert(!p(s[i]));
            }
        }
    }
}

/// When nothing in `s` matches `p`, `find_first` returns `None`.
pub proof fn lemma_find_first_none<A>(s: Seq<A>, p: spec_fn(A) -> bool)
    requires
        forall|i: int| 0 <= i < s.len() ==> !p(s[i]),
    ensures
        find_first(s, p) == None::<int>,
{
    lemma_find_first(s, p);
    if let Some(k) = find_first(s, p) {
        assert(!p(s[k]));
    }
}

} // verus!

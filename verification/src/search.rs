//! Finding the first element of a sequence that meets a condition.

use vstd::prelude::*;

verus! {

/// Position of the first element of `s` that meets `wanted`, or `s.len()`
/// when none does.
pub open spec fn first_match<T>(s: Seq<T>, wanted: spec_fn(T) -> bool) -> int
    decreases s.len(),
{
    if s.len() == 0 {
        0
    } else if wanted(s[0]) {
        0
    } else {
        1 + first_match(s.drop_first(), wanted)
    }
}

/// `n` is the first match where nothing before it matches and it matches
/// itself or is the end of the sequence.
pub proof fn lemma_first_match_is<T>(s: Seq<T>, wanted: spec_fn(T) -> bool, n: int)
    requires
        0 <= n <= s.len(),
        forall|k: int| 0 <= k < n ==> !wanted(#[trigger] s[k]),
        n == s.len() || wanted(s[n]),
    ensures
        first_match(s, wanted) == n,
    decreases s.len(),
{
    if s.len() != 0 && n > 0 {
        let t = s.drop_first();
        assert forall|k: int| 0 <= k < n - 1 implies !wanted(#[trigger] t[k]) by {
            assert(t[k] == s[k + 1]);
        }
        assert(!wanted(s[0]));
        lemma_first_match_is(t, wanted, n - 1);
    }
}

/// The first match lies within the sequence or at its end, nothing before
/// it matches, and it matches unless it is the end.
pub proof fn lemma_first_match_bounds<T>(s: Seq<T>, wanted: spec_fn(T) -> bool)
    ensures
        0 <= first_match(s, wanted) <= s.len(),
        forall|k: int| 0 <= k < first_match(s, wanted) ==> !wanted(#[trigger] s[k]),
        first_match(s, wanted) < s.len() ==> wanted(s[first_match(s, wanted)]),
    decreases s.len(),
{
    if s.len() != 0 && !wanted(s[0]) {
        let t = s.drop_first();
        lemma_first_match_bounds(t, wanted);
        assert forall|k: int| 0 <= k < first_match(s, wanted) implies !wanted(
            #[trigger] s[k],
        ) by {
            if k > 0 {
                assert(t[k - 1] == s[k]);
            }
        }
    }
}

/// Putting an element in the place of one that meets the condition just as
/// it does leaves the first match where it was.
pub proof fn lemma_first_match_after_update<T>(
    s: Seq<T>,
    i: int,
    x: T,
    wanted: spec_fn(T) -> bool,
)
    requires
        0 <= i < s.len(),
        wanted(x) == wanted(s[i]),
    ensures
        first_match(s.update(i, x), wanted) == first_match(s, wanted),
        0 <= first_match(s, wanted) <= s.len(),
{
    let after = s.update(i, x);
    let n = first_match(s, wanted);
    lemma_first_match_bounds(s, wanted);
    assert forall|k: int| 0 <= k < n implies !wanted(#[trigger] after[k]) by {
        assert(!wanted(s[k]));
    }
    if n < s.len() {
        assert(wanted(s[n]));
    }
    lemma_first_match_is(after, wanted, n);
}

/// Adding an element at the end leaves an earlier first match where it
/// was; where there was none, the new element is the first match if it
/// meets the condition.
pub proof fn lemma_first_match_after_push<T>(s: Seq<T>, x: T, wanted: spec_fn(T) -> bool)
    ensures
        0 <= first_match(s, wanted) <= s.len(),
        first_match(s.push(x), wanted) == if first_match(s, wanted) < s.len() {
            first_match(s, wanted)
        } else if wanted(x) {
            s.len() as int
        } else {
            s.len() as int + 1
        },
{
    let after = s.push(x);
    let n = first_match(s, wanted);
    lemma_first_match_bounds(s, wanted);
    assert forall|k: int| 0 <= k < n implies !wanted(#[trigger] after[k]) by {
        assert(!wanted(s[k]));
    }
    if n < s.len() {
        assert(wanted(s[n]));
        lemma_first_match_is(after, wanted, n);
    } else if wanted(x) {
        lemma_first_match_is(after, wanted, n);
    } else {
        assert(!wanted(after[n]));
        lemma_first_match_is(after, wanted, n + 1);
    }
}

} // verus!

//! Sequences: the first entry with a property, and its position.
use vstd::prelude::*;

verus! {

/// Position of the first entry with a property, or the length.
pub open spec fn first_index<T>(s: Seq<T>, p: spec_fn(T) -> bool) -> int
    decreases s.len(),
{
    if s.len() == 0 {
        0
    } else if p(s[0]) {
        0
    } else {
        1 + first_index(s.drop_first(), p)
    }
}

/// Whether an entry has a property.
pub open spec fn any<T>(s: Seq<T>, p: spec_fn(T) -> bool) -> bool {
    exists|i: int| 0 <= i < s.len() && p(#[trigger] s[i])
}

/// The first entry with a property, if there is one.
pub open spec fn first<T>(s: Seq<T>, p: spec_fn(T) -> bool) -> Option<T> {
    if first_index(s, p) < s.len() {
        Some(s[first_index(s, p)])
    } else {
        None
    }
}

/// What the first position is known by.
pub proof fn lemma_first_index<T>(s: Seq<T>, p: spec_fn(T) -> bool, i: int)
    requires
        0 <= i <= s.len(),
        forall|j: int| 0 <= j < i ==> !p(#[trigger] s[j]),
        i < s.len() ==> p(s[i]),
    ensures
        first_index(s, p) == i,
    decreases s.len(),
{
    if s.len() > 0 && i > 0 {
        assert(!p(s[0]));
        assert forall|j: int| 0 <= j < i - 1 implies !p(#[trigger] s.drop_first()[j]) by {
            assert(!p(s[j + 1]));
        }
        lemma_first_index(s.drop_first(), p, i - 1);
    }
}

/// What is known of the first position.
pub proof fn lemma_first_index_bounds<T>(s: Seq<T>, p: spec_fn(T) -> bool)
    ensures
        0 <= first_index(s, p) <= s.len(),
        first_index(s, p) < s.len() ==> p(s[first_index(s, p)]),
        forall|j: int| 0 <= j < first_index(s, p) ==> !p(#[trigger] s[j]),
        first_index(s, p) < s.len() <==> any(s, p),
    decreases s.len(),
{
    if s.len() > 0 && !p(s[0]) {
        let rest = s.drop_first();
        lemma_first_index_bounds(rest, p);
        assert forall|j: int| 0 <= j < first_index(s, p) implies !p(#[trigger] s[j]) by {
            if j > 0 {
                assert(rest[j - 1] == s[j]);
            }
        }
        if any(s, p) {
            let i = choose|i: int| 0 <= i < s.len() && p(#[trigger] s[i]);
            assert(p(rest[i - 1]));
        }
        if any(rest, p) {
            let i = choose|i: int| 0 <= i < rest.len() && p(#[trigger] rest[i]);
            assert(p(s[i + 1]));
        }
    }
}

/// A filtered sequence holds what the sequence holds and the filter lets through.
pub proof fn lemma_filter_contains<T>(s: Seq<T>, p: spec_fn(T) -> bool, x: T)
    ensures
        s.filter(p).contains(x) <==> s.contains(x) && p(x),
    decreases s.len(),
{
    reveal(Seq::filter);
    if s.len() > 0 {
        let front = s.drop_last();
        lemma_filter_contains(front, p, x);
        assert(s =~= front.push(s.last()));
        if front.filter(p).contains(x) {
            let i = front.filter(p).index_of(x);
            assert(s.filter(p)[i] == x);
        }
        if front.contains(x) {
            let i = front.index_of(x);
            assert(s[i] == x);
        }
        if s.contains(x) && p(x) && !front.contains(x) {
            let i = s.index_of(x);
            assert(i == s.len() - 1) by {
                if i < s.len() - 1 {
                    assert(front[i] == x);
                }
            }
            assert(s.filter(p).last() == x);
        }
        if s.filter(p).contains(x) {
            let i = s.filter(p).index_of(x);
            if i < front.filter(p).len() {
                assert(front.filter(p)[i] == x);
            } else {
                assert(s[s.len() - 1] == x);
            }
        }
    }
}

} // verus!

//! Selections from lists: the first, the last or all elements that qualify.
use vstd::prelude::*;

verus! {

/// `i` is the first position of `s` whose element satisfies `p`.
pub open spec fn first_index<A>(s: Seq<A>, p: spec_fn(A) -> bool, i: int) -> bool {
    &&& 0 <= i < s.len()
    &&& p(s[i])
    &&& forall|j: int| 0 <= j < i ==> !p(#[trigger] s[j])
}

/// The first element of `s` that satisfies `p`.
pub open spec fn first_in<A>(s: Seq<A>, p: spec_fn(A) -> bool) -> Option<A> {
    if exists|i: int| first_index(s, p, i) {
        Some(s[choose|i: int| first_index(s, p, i)])
    } else {
        None
    }
}

/// The last element of `s` that satisfies `p`.
pub open spec fn last_in<A>(s: Seq<A>, p: spec_fn(A) -> bool) -> Option<A>
    decreases s.len(),
{
    if s.len() == 0 {
        None
    } else if p(s.last()) {
        Some(s.last())
    } else {
        last_in(s.drop_last(), p)
    }
}

/// The elements of `s` that satisfy `p`, in their order.
pub open spec fn kept<A>(s: Seq<A>, p: spec_fn(A) -> bool) -> Seq<A>
    decreases s.len(),
{
    if s.len() == 0 {
        Seq::empty()
    } else if p(s.last()) {
        kept(s.drop_last(), p).push(s.last())
    } else {
        kept(s.drop_last(), p)
    }
}

/// Some element of `s` satisfies `p`.
pub open spec fn some_in<A>(s: Seq<A>, p: spec_fn(A) -> bool) -> bool {
    exists|i: int| 0 <= i < s.len() && p(#[trigger] s[i])
}

/// A walk that stops at its first hit finds the first element.
pub proof fn lemma_first_in<A>(s: Seq<A>, p: spec_fn(A) -> bool, i: int)
    requires
        first_index(s, p, i),
    ensures
        first_in(s, p) == Some(s[i]),
{
    let c = choose|i: int| first_index(s, p, i);
    assert(first_index(s, p, c));
    if c < i {
        assert(!p(s[c]));
    }
    if i < c {
        assert(!p(s[i]));
    }
}

/// The first qualifying element is an element and qualifies.
pub proof fn lemma_first_is_member<A>(s: Seq<A>, p: spec_fn(A) -> bool)
    ensures
        first_in(s, p) matches Some(x) ==> s.contains(x) && p(x),
{
    if exists|i: int| first_index(s, p, i) {
        let c = choose|i: int| first_index(s, p, i);
        assert(first_index(s, p, c));
        assert(s.contains(s[c]));
    }
}

/// A walk without a hit shows that no element qualifies.
pub proof fn lemma_none_in<A>(s: Seq<A>, p: spec_fn(A) -> bool)
    requires
        forall|j: int| 0 <= j < s.len() ==> !p(#[trigger] s[j]),
    ensures
        first_in(s, p) is None,
        !some_in(s, p),
{
    if exists|i: int| first_index(s, p, i) {
        let c = choose|i: int| first_index(s, p, i);
        assert(!p(s[c]));
    }
}

/// One more element extends a selection by that element or not at all.
pub proof fn lemma_kept_step<A>(s: Seq<A>, p: spec_fn(A) -> bool, i: int)
    requires
        0 <= i < s.len(),
    ensures
        kept(s.take(i + 1), p) == (if p(s[i]) {
            kept(s.take(i), p).push(s[i])
        } else {
            kept(s.take(i), p)
        }),
        last_in(s.take(i + 1), p) == (if p(s[i]) {
            Some(s[i])
        } else {
            last_in(s.take(i), p)
        }),
{
    assert(s.take(i + 1).drop_last() == s.take(i));
    assert(s.take(i + 1).last() == s[i]);
}

/// A selection holds exactly the qualifying elements.
pub proof fn lemma_kept_members<A>(s: Seq<A>, p: spec_fn(A) -> bool, x: A)
    ensures
        kept(s, p).contains(x) <==> s.contains(x) && p(x),
    decreases s.len(),
{
    if s.len() > 0 {
        lemma_kept_members(s.drop_last(), p, x);
        crate::table::lemma_push_contains(kept(s.drop_last(), p), s.last(), x);
        crate::table::lemma_push_contains(s.drop_last(), s.last(), x);
        assert(s.drop_last().push(s.last()) == s);
    }
}

/// A selection is no longer than what it was made from.
pub proof fn lemma_kept_len<A>(s: Seq<A>, p: spec_fn(A) -> bool)
    ensures
        kept(s, p).len() <= s.len(),
    decreases s.len(),
{
    if s.len() > 0 {
        lemma_kept_len(s.drop_last(), p);
    }
}

/// A selection from an ascending list is ascending.
pub proof fn lemma_kept_ascending(s: Seq<u64>, p: spec_fn(u64) -> bool)
    requires
        crate::table::ascending(s),
    ensures
        crate::table::ascending(kept(s, p)),
    decreases s.len(),
{
    if s.len() > 0 {
        let rest = s.drop_last();
        let before = kept(rest, p);
        lemma_kept_ascending(rest, p);
        assert forall|i: int| 0 <= i < before.len() implies before[i] < s.last() by {
            lemma_kept_members(rest, p, before[i]);
            assert(before.contains(before[i]));
            let j = choose|j: int| 0 <= j < rest.len() && rest[j] == before[i];
            assert(s[j] < s[s.len() - 1]);
        }
    }
}

/// A selection holds a qualifying element as often as the list does.
pub proof fn lemma_kept_counts<A>(s: Seq<A>, p: spec_fn(A) -> bool, x: A)
    ensures
        kept(s, p).to_multiset().count(x) == (if p(x) {
            s.to_multiset().count(x)
        } else {
            0
        }),
    decreases s.len(),
{
    broadcast use vstd::seq_lib::group_to_multiset_ensures;

    if s.len() > 0 {
        let rest = s.drop_last();
        lemma_kept_counts(rest, p, x);
        assert(rest.push(s.last()) =~= s);
        vstd::seq_lib::to_multiset_build(rest, s.last());
        vstd::seq_lib::to_multiset_build(kept(rest, p), s.last());
    } else {
        assert(!s.contains(x));
        assert(!kept(s, p).contains(x));
    }
}

/// Where at most one element qualifies, the first one does not depend on the
/// order.
pub proof fn lemma_first_of_permuted<A>(s: Seq<A>, t: Seq<A>, p: spec_fn(A) -> bool)
    requires
        forall|x: A| #[trigger] s.contains(x) <==> t.contains(x),
        forall|x: A, y: A|
            #![trigger s.contains(x), s.contains(y)]
            s.contains(x) && s.contains(y) && p(x) && p(y) ==> x == y,
    ensures
        first_in(s, p) == first_in(t, p),
{
    lemma_first_is_member(s, p);
    lemma_first_is_member(t, p);
    if let Some(x) = first_in(s, p) {
        assert(t.contains(x));
        if first_in(t, p) is None {
            let j = choose|j: int| 0 <= j < t.len() && t[j] == x;
            lemma_some_first(t, p, j);
        } else {
            assert(s.contains(first_in(t, p)->Some_0));
        }
    } else if let Some(x) = first_in(t, p) {
        assert(s.contains(x));
        let j = choose|j: int| 0 <= j < s.len() && s[j] == x;
        lemma_some_first(s, p, j);
    }
}

/// Where an element qualifies, there is a first one.
pub proof fn lemma_some_first<A>(s: Seq<A>, p: spec_fn(A) -> bool, i: int)
    requires
        0 <= i < s.len(),
        p(s[i]),
    ensures
        first_in(s, p) is Some,
    decreases i,
{
    if first_index(s, p, i) {
    } else {
        let j = choose|j: int| 0 <= j < i && p(#[trigger] s[j]);
        lemma_some_first(s, p, j);
    }
}

/// The first qualifying element is named exactly where an element qualifies,
/// and none before it qualifies.
pub proof fn law_first_in<A>(s: Seq<A>, p: spec_fn(A) -> bool)
    ensures
        match first_in(s, p) {
            Some(x) => exists|i: int|
                0 <= i < s.len() && #[trigger] s[i] == x && p(x) && forall|j: int|
                    0 <= j < i ==> !p(#[trigger] s[j]),
            None => forall|x: A| #[trigger] s.contains(x) ==> !p(x),
        },
{
    if exists|i: int| first_index(s, p, i) {
        let c = choose|i: int| first_index(s, p, i);
        assert(first_index(s, p, c));
        assert(s[c] == first_in(s, p)->Some_0);
    } else {
        assert forall|x: A| #[trigger] s.contains(x) implies !p(x) by {
            if p(x) {
                let i = choose|i: int| 0 <= i < s.len() && s[i] == x;
                lemma_some_first(s, p, i);
            }
        }
    }
}

/// The last qualifying element is named exactly where an element qualifies,
/// and none after it qualifies.
pub proof fn law_last_in<A>(s: Seq<A>, p: spec_fn(A) -> bool)
    ensures
        match last_in(s, p) {
            Some(x) => exists|i: int|
                0 <= i < s.len() && #[trigger] s[i] == x && p(x) && forall|j: int|
                    i < j < s.len() ==> !p(#[trigger] s[j]),
            None => forall|x: A| #[trigger] s.contains(x) ==> !p(x),
        },
    decreases s.len(),
{
    if s.len() > 0 {
        if p(s.last()) {
            assert(s[s.len() - 1] == s.last());
        } else {
            let t = s.drop_last();
            law_last_in(t, p);
            match last_in(t, p) {
                Some(x) => {
                    let i = choose|i: int|
                        0 <= i < t.len() && #[trigger] t[i] == x && p(x) && forall|j: int|
                            i < j < t.len() ==> !p(#[trigger] t[j]);
                    assert(s[i] == x);
                    assert forall|j: int| i < j < s.len() implies !p(#[trigger] s[j]) by {
                        if j < t.len() {
                            assert(!p(t[j]));
                        }
                    }
                },
                None => {
                    assert forall|x: A| #[trigger] s.contains(x) implies !p(x) by {
                        let i = choose|i: int| 0 <= i < s.len() && s[i] == x;
                        if i < t.len() {
                            assert(t[i] == x);
                            assert(t.contains(x));
                        }
                    }
                },
            }
        }
    }
}

/// A selection from a list without repetitions has none either.
pub proof fn lemma_kept_distinct<A>(s: Seq<A>, p: spec_fn(A) -> bool)
    requires
        s.no_duplicates(),
    ensures
        kept(s, p).no_duplicates(),
    decreases s.len(),
{
    if s.len() > 0 {
        let t = s.drop_last();
        lemma_kept_distinct(t, p);
        lemma_kept_members(t, p, s.last());
        if t.contains(s.last()) {
            let i = choose|i: int| 0 <= i < t.len() && t[i] == s.last();
            assert(s[i] == s[s.len() - 1]);
        }
    }
}

/// What qualifies counts.
pub proof fn lemma_one_kept<A>(s: Seq<A>, p: spec_fn(A) -> bool, x: A)
    requires
        s.contains(x),
        p(x),
    ensures
        kept(s, p).len() >= 1,
        kept(s, p).contains(x),
{
    lemma_kept_members(s, p, x);
}

/// Two different elements that qualify count twice.
pub proof fn lemma_two_kept<A>(s: Seq<A>, p: spec_fn(A) -> bool, x: A, y: A)
    requires
        s.contains(x),
        s.contains(y),
        p(x),
        p(y),
        x != y,
    ensures
        kept(s, p).len() >= 2,
{
    lemma_kept_members(s, p, x);
    lemma_kept_members(s, p, y);
    let t = kept(s, p);
    let i = choose|i: int| 0 <= i < t.len() && t[i] == x;
    let j = choose|j: int| 0 <= j < t.len() && t[j] == y;
    assert(i != j);
}

} // verus!

//! Ordered tables: maps keyed by integers, walked in ascending key order.
use std::collections::BTreeMap;
use vstd::prelude::*;

verus! {

broadcast use vstd::std_specs::btree::group_btree_axioms;

/// `keys` is strictly increasing.
pub open spec fn ascending(keys: Seq<u64>) -> bool {
    forall|i: int, j: int| 0 <= i < j < keys.len() ==> keys[i] < keys[j]
}

/// `keys` lists, in ascending order, exactly the keys of `m` whose value
/// satisfies `p`.
pub open spec fn lists_keys<V>(keys: Seq<u64>, m: Map<u64, V>, p: spec_fn(V) -> bool) -> bool {
    &&& ascending(keys)
    &&& forall|k: u64| #[trigger] keys.contains(k) <==> m.contains_key(k) && p(m[k])
}

/// `k` is the smallest key of `m` whose value satisfies `p`.
pub open spec fn first_key<V>(m: Map<u64, V>, p: spec_fn(V) -> bool, k: u64) -> bool {
    &&& m.contains_key(k)
    &&& p(m[k])
    &&& forall|j: u64| #[trigger] m.contains_key(j) && p(m[j]) ==> k <= j
}

/// No value of `m` satisfies `p`.
pub open spec fn no_key<V>(m: Map<u64, V>, p: spec_fn(V) -> bool) -> bool {
    forall|j: u64| #[trigger] m.contains_key(j) ==> !p(m[j])
}

/// The smallest key of `m` whose value satisfies `p`, if there is one.
pub open spec fn first_of<V>(m: Map<u64, V>, p: spec_fn(V) -> bool) -> Option<u64> {
    if exists|k: u64| first_key(m, p, k) {
        Some(choose|k: u64| first_key(m, p, k))
    } else {
        None
    }
}

/// Two ascending lists of the same keys are the same list.
pub proof fn lemma_lists_unique<V>(
    a: Seq<u64>,
    b: Seq<u64>,
    m: Map<u64, V>,
    p: spec_fn(V) -> bool,
)
    requires
        lists_keys(a, m, p),
        lists_keys(b, m, p),
    ensures
        a == b,
{
    assert forall|k: u64| a.contains(k) == b.contains(k) by {}
    lemma_same_members(a, b);
}

/// The keys of `m` whose value satisfies `p`, in ascending order.
pub open spec fn keys_where<V>(m: Map<u64, V>, p: spec_fn(V) -> bool) -> Seq<u64> {
    choose|keys: Seq<u64>| lists_keys(keys, m, p)
}

/// A list of the qualifying keys is the list of them.
pub proof fn lemma_keys_where<V>(keys: Seq<u64>, m: Map<u64, V>, p: spec_fn(V) -> bool)
    requires
        lists_keys(keys, m, p),
    ensures
        keys_where(m, p) == keys,
        lists_keys(keys_where(m, p), m, p),
{
    lemma_lists_unique(keys, keys_where(m, p), m, p);
}

/// Two ascending lists with the same members are the same list.
pub proof fn lemma_same_members(a: Seq<u64>, b: Seq<u64>)
    requires
        ascending(a),
        ascending(b),
        forall|k: u64| #[trigger] a.contains(k) == b.contains(k),
    ensures
        a == b,
    decreases a.len(),
{
    if a.len() == 0 {
        if b.len() > 0 {
            assert(b.contains(b[0]));
            assert(a.contains(b[0]));
        }
        assert(a =~= b);
    } else {
        assert(a.contains(a.last()));
        assert(b.contains(a.last()));
        let i = choose|i: int| 0 <= i < b.len() && b[i] == a.last();
        assert(b.contains(b.last()));
        assert(a.contains(b.last()));
        let j = choose|j: int| 0 <= j < a.len() && a[j] == b.last();
        assert(a.last() == b.last());
        let a0 = a.drop_last();
        let b0 = b.drop_last();
        assert forall|k: u64| #[trigger] a0.contains(k) == b0.contains(k) by {
            if a0.contains(k) {
                let x = choose|x: int| 0 <= x < a0.len() && a0[x] == k;
                assert(a[x] == k);
                assert(a.contains(k));
                assert(b.contains(k));
                let y = choose|y: int| 0 <= y < b.len() && b[y] == k;
                assert(y != b.len() - 1);
                assert(b0[y] == k);
            }
            if b0.contains(k) {
                let x = choose|x: int| 0 <= x < b0.len() && b0[x] == k;
                assert(b[x] == k);
                assert(b.contains(k));
                assert(a.contains(k));
                let y = choose|y: int| 0 <= y < a.len() && a[y] == k;
                assert(y != a.len() - 1);
                assert(a0[y] == k);
            }
        }
        lemma_same_members(a0, b0);
        assert(a =~= a0.push(a.last()));
        assert(b =~= b0.push(b.last()));
    }
}

/// `keys` lists the whole domain of `m` in ascending order.
pub open spec fn lists_domain<V>(keys: Seq<u64>, m: Map<u64, V>) -> bool {
    &&& ascending(keys)
    &&& forall|k: u64| #[trigger] keys.contains(k) <==> m.contains_key(k)
}

/// The first hit of an ascending walk is the smallest key.
pub proof fn lemma_first_found<V>(keys: Seq<u64>, m: Map<u64, V>, p: spec_fn(V) -> bool, i: int)
    requires
        lists_domain(keys, m),
        0 <= i < keys.len(),
        forall|j: int| 0 <= j < i ==> !p(#[trigger] m[keys[j]]),
        p(m[keys[i]]),
    ensures
        first_key(m, p, keys[i]),
        first_of(m, p) == Some(keys[i]),
{
    assert(keys.contains(keys[i]));
    assert forall|j: u64| #[trigger] m.contains_key(j) && p(m[j]) implies keys[i] <= j by {
        assert(keys.contains(j));
        let x = choose|x: int| 0 <= x < keys.len() && keys[x] == j;
        if x < i {
            assert(!p(m[keys[x]]));
        }
    }
    assert(first_key(m, p, keys[i]));
    let c = choose|k: u64| first_key(m, p, k);
    assert(first_key(m, p, c));
}

/// A walk without a hit shows that no key qualifies.
pub proof fn lemma_none_found<V>(keys: Seq<u64>, m: Map<u64, V>, p: spec_fn(V) -> bool)
    requires
        lists_domain(keys, m),
        forall|j: int| 0 <= j < keys.len() ==> !p(#[trigger] m[keys[j]]),
    ensures
        no_key(m, p),
        first_of(m, p) is None,
{
    assert forall|j: u64| #[trigger] m.contains_key(j) implies !p(m[j]) by {
        assert(keys.contains(j));
        let x = choose|x: int| 0 <= x < keys.len() && keys[x] == j;
        assert(!p(m[keys[x]]));
    }
}

/// The keys among the first `n` of `keys` whose value satisfies `p`.
pub open spec fn picked<V>(keys: Seq<u64>, n: int, m: Map<u64, V>, p: spec_fn(V) -> bool) -> Seq<
    u64,
>
    decreases n,
{
    if n <= 0 {
        Seq::empty()
    } else if p(m[keys[n - 1]]) {
        picked(keys, n - 1, m, p).push(keys[n - 1])
    } else {
        picked(keys, n - 1, m, p)
    }
}

/// A full ascending walk picks exactly the qualifying keys, in order.
pub proof fn lemma_picked_lists<V>(keys: Seq<u64>, m: Map<u64, V>, p: spec_fn(V) -> bool)
    requires
        lists_domain(keys, m),
    ensures
        lists_keys(picked(keys, keys.len() as int, m, p), m, p),
{
    lemma_picked_prefix(keys, keys.len() as int, m, p);
    let out = picked(keys, keys.len() as int, m, p);
    assert forall|k: u64| #[trigger] out.contains(k) <==> m.contains_key(k) && p(m[k]) by {
        if m.contains_key(k) && p(m[k]) {
            assert(keys.contains(k));
            assert(qualifies(keys, keys.len() as int, m, p, k)) by {
                assert(keys.take(keys.len() as int) == keys);
            }
        }
        if out.contains(k) {
            assert(qualifies(keys, keys.len() as int, m, p, k));
            assert(keys.take(keys.len() as int) == keys);
            assert(keys.contains(k));
        }
    }
}

/// A sequence with one more element holds that element and the earlier ones.
pub proof fn lemma_push_contains<A>(s: Seq<A>, x: A, k: A)
    ensures
        s.push(x).contains(k) <==> (s.contains(k) || k == x),
{
    let t = s.push(x);
    if s.contains(k) {
        let i = choose|i: int| 0 <= i < s.len() && s[i] == k;
        assert(t[i] == k);
    }
    assert(t[s.len() as int] == x);
    if t.contains(k) {
        let i = choose|i: int| 0 <= i < t.len() && t[i] == k;
        if i < s.len() {
            assert(s[i] == k);
        }
    }
}

/// `k` stands among the first `n` of `keys`, and its value satisfies `p`.
spec fn qualifies<V>(
    keys: Seq<u64>,
    n: int,
    m: Map<u64, V>,
    p: spec_fn(V) -> bool,
    k: u64,
) -> bool {
    keys.take(n).contains(k) && p(m[k])
}

proof fn lemma_picked_prefix<V>(keys: Seq<u64>, n: int, m: Map<u64, V>, p: spec_fn(V) -> bool)
    requires
        ascending(keys),
        0 <= n <= keys.len(),
    ensures
        ascending(picked(keys, n, m, p)),
        forall|k: u64| #[trigger]
            picked(keys, n, m, p).contains(k) <==> qualifies(keys, n, m, p, k),
    decreases n,
{
    let out = picked(keys, n, m, p);
    if n == 0 {
        assert forall|k: u64| #[trigger] out.contains(k) <==> qualifies(keys, n, m, p, k) by {}
    } else {
        lemma_picked_prefix(keys, n - 1, m, p);
        let prev = picked(keys, n - 1, m, p);
        let last = keys[n - 1];
        assert(keys.take(n) == keys.take(n - 1).push(last));
        assert forall|k: u64| #[trigger] out.contains(k) <==> qualifies(keys, n, m, p, k) by {
            assert(prev.contains(k) <==> qualifies(keys, n - 1, m, p, k));
            lemma_push_contains(keys.take(n - 1), last, k);
            lemma_push_contains(prev, last, k);
        }
        assert forall|j: int| 0 <= j < prev.len() implies prev[j] < last by {
            assert(prev.contains(prev[j]));
            assert(qualifies(keys, n - 1, m, p, prev[j]));
            let head = keys.take(n - 1);
            let x = choose|x: int| 0 <= x < head.len() && head[x] == prev[j];
            assert(keys[x] == prev[j]);
        }
    }
}

/// The keys of a table in ascending order.
pub fn keys_of<V>(m: &BTreeMap<u64, V>) -> (r: Vec<u64>)
    ensures
        lists_domain(r@, m@),
{
    let mut out: Vec<u64> = Vec::new();
    assert(vstd::laws_cmp::obeys_cmp::<u64>());
    let entries = m.iter();
    let ghost all = vstd::std_specs::iter::IteratorSpec::remaining(&entries);
    let ghost keys = all.map_values(|kv: (&u64, &V)| *kv.0);
    assert(all == vstd::std_specs::iter::IteratorSpec::remaining(
        &vstd::std_specs::btree::spec_btree_map_iter(m),
    ));
    for entry in it: entries
        invariant
            it.seq() == all,
            keys == all.map_values(|kv: (&u64, &V)| *kv.0),
            out@ == keys.take(it.index()),
    {
        out.push(*entry.0);
        assert(keys.take(it.index() + 1) == keys.take(it.index()).push(*entry.0));
    }
    assert(out@ == keys);
    proof {
        assert(vstd::std_specs::btree::increasing_seq(keys));
        assert forall|i: int, j: int| 0 <= i < j < keys.len() implies keys[i] < keys[j] by {
            assert(vstd::std_specs::cmp::OrdSpec::cmp_spec(&keys[i], &keys[j]) is Less);
        }
        assert forall|k: u64| #[trigger] keys.contains(k) <==> m@.contains_key(k) by {
            if keys.contains(k) {
                let i = choose|i: int| 0 <= i < keys.len() && keys[i] == k;
                assert(m@.contains_key(*all[i].0));
            }
            if m@.contains_key(k) {
                assert(all.contains((&k, &m@[k])));
                let i = choose|i: int| 0 <= i < all.len() && all[i] == (&k, &m@[k]);
                assert(keys[i] == k);
            }
        }
    }
    out
}

/// Puts a number into an ascending list, unless it is there.
pub fn insert_ascending(list: &mut Vec<u64>, k: u64)
    requires
        ascending(old(list)@),
    ensures
        ascending(final(list)@),
        forall|x: u64| #[trigger]
            final(list)@.contains(x) <==> old(list)@.contains(x) || x == k,
{
    let ghost before = list@;
    let mut i: usize = 0;
    while i < list.len() && list[i] < k
        invariant
            i <= list.len(),
            list@ == before,
            forall|j: int| 0 <= j < i ==> before[j] < k,
        decreases list.len() - i,
    {
        i = i + 1;
    }
    if i < list.len() && list[i] == k {
        assert(before.contains(before[i as int]));
        return;
    }
    list.insert(i, k);
    proof {
        assert(list@ =~= before.insert(i as int, k));
        assert forall|x: u64| #[trigger] list@.contains(x) <==> before.contains(x) || x == k by {
            if list@.contains(x) {
                let j = choose|j: int| 0 <= j < list@.len() && list@[j] == x;
                if j < i {
                    assert(before[j] == x);
                } else if j > i {
                    assert(before[j - 1] == x);
                }
            }
            if before.contains(x) {
                let j = choose|j: int| 0 <= j < before.len() && before[j] == x;
                if j < i {
                    assert(list@[j] == x);
                } else {
                    assert(list@[j + 1] == x);
                }
            }
            if x == k {
                assert(list@[i as int] == k);
            }
        }
    }
}

/// Where a key qualifies there is a smallest one, and it is no larger.
pub proof fn lemma_first_exists<V>(m: Map<u64, V>, p: spec_fn(V) -> bool, k: u64)
    requires
        m.contains_key(k),
        p(m[k]),
    ensures
        first_of(m, p) matches Some(j) && first_key(m, p, j) && j <= k,
    decreases k,
{
    if first_key(m, p, k) {
        let c = choose|c: u64| first_key(m, p, c);
        assert(first_key(m, p, c));
    } else {
        let j = choose|j: u64| #[trigger] m.contains_key(j) && p(m[j]) && j < k;
        lemma_first_exists(m, p, j);
    }
}

/// The smallest qualifying key is named exactly where a key qualifies.
pub proof fn law_first_of<V>(m: Map<u64, V>, p: spec_fn(V) -> bool)
    ensures
        match first_of(m, p) {
            Some(k) => {
                &&& m.contains_key(k)
                &&& p(m[k])
                &&& forall|j: u64| #[trigger] m.contains_key(j) && p(m[j]) ==> k <= j
            },
            None => forall|j: u64| #[trigger] m.contains_key(j) ==> !p(m[j]),
        },
{
    if exists|j: u64| #[trigger] m.contains_key(j) && p(m[j]) {
        let j = choose|j: u64| #[trigger] m.contains_key(j) && p(m[j]);
        lemma_first_exists(m, p, j);
    } else {
        if exists|k: u64| first_key(m, p, k) {
            let c = choose|c: u64| first_key(m, p, c);
            assert(m.contains_key(c) && p(m[c]));
        }
    }
}

} // verus!

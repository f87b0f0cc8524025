//! Tables keyed by text, walked in the order of their keys.
use crate::text::{chars_of, text_eq};
use vstd::prelude::*;

verus! {

/// The order of texts: by the first character in which they differ; a text
/// stands before its continuations.
pub open spec fn text_before(a: Seq<char>, b: Seq<char>) -> bool
    decreases a.len(),
{
    if b.len() == 0 {
        false
    } else if a.len() == 0 {
        true
    } else if a[0] == b[0] {
        text_before(a.drop_first(), b.drop_first())
    } else {
        a[0] < b[0]
    }
}

/// Of two texts one stands before the other, unless they are the same.
pub proof fn lemma_before_total(a: Seq<char>, b: Seq<char>)
    ensures
        text_before(a, b) || text_before(b, a) || a == b,
        !(text_before(a, b) && text_before(b, a)),
        a == b ==> !text_before(a, b),
    decreases a.len(),
{
    if a.len() > 0 && b.len() > 0 {
        if a[0] == b[0] {
            lemma_before_total(a.drop_first(), b.drop_first());
            assert(a =~= seq![a[0]] + a.drop_first());
            assert(b =~= seq![b[0]] + b.drop_first());
        }
    } else if a.len() == 0 && b.len() == 0 {
        assert(a =~= b);
    }
}

/// The order of texts is transitive.
pub proof fn lemma_before_transitive(a: Seq<char>, b: Seq<char>, c: Seq<char>)
    requires
        text_before(a, b),
        text_before(b, c),
    ensures
        text_before(a, c),
    decreases a.len(),
{
    if a.len() > 0 && b.len() > 0 && c.len() > 0 {
        if a[0] == b[0] && b[0] == c[0] {
            lemma_before_transitive(a.drop_first(), b.drop_first(), c.drop_first());
        }
    }
}

/// Whether a text stands before another.
pub fn stands_before(a: &str, b: &str) -> (r: bool)
    ensures
        r == text_before(a@, b@),
{
    let x = chars_of(a);
    let y = chars_of(b);
    let mut i: usize = 0;
    assert(x@.skip(0) =~= a@);
    assert(y@.skip(0) =~= b@);
    while i < x.len() && i < y.len() && x[i] == y[i]
        invariant
            i <= x.len(),
            i <= y.len(),
            text_before(a@, b@) == text_before(x@.skip(i as int), y@.skip(i as int)),
        decreases x.len() - i,
    {
        proof {
            assert(x@.skip(i as int)[0] == x@[i as int]);
            assert(y@.skip(i as int)[0] == y@[i as int]);
            assert(x@.skip(i as int).drop_first() =~= x@.skip(i + 1));
            assert(y@.skip(i as int).drop_first() =~= y@.skip(i + 1));
        }
        i = i + 1;
    }
    if i >= y.len() {
        assert(y@.skip(i as int).len() == 0);
        false
    } else if i >= x.len() {
        assert(x@.skip(i as int).len() == 0);
        true
    } else {
        assert(x@.skip(i as int)[0] == x@[i as int]);
        assert(y@.skip(i as int)[0] == y@[i as int]);
        x[i] < y[i]
    }
}

/// A table keyed by text.
#[derive(Debug, PartialEq, Eq)]
pub struct TextTable<V> {
    pub entries: Vec<(String, V)>,
}

/// The position of a key among entries.
pub open spec fn key_at<V>(entries: Seq<(String, V)>, key: Seq<char>, i: int) -> bool {
    0 <= i < entries.len() && entries[i].0@ == key
}

impl<V> TextTable<V> {
    /// Keys stand in order, each of them once.
    pub open spec fn wf(&self) -> bool {
        forall|i: int, j: int|
            0 <= i < j < self.entries@.len() ==> text_before(
                #[trigger] self.entries@[i].0@,
                #[trigger] self.entries@[j].0@,
            )
    }

    pub open spec fn has(&self, key: Seq<char>) -> bool {
        exists|i: int| key_at(self.entries@, key, i)
    }

    pub open spec fn at(&self, key: Seq<char>) -> V {
        self.entries@[choose|i: int| key_at(self.entries@, key, i)].1
    }
}

impl<V> View for TextTable<V> {
    type V = Map<Seq<char>, V>;

    open spec fn view(&self) -> Map<Seq<char>, V> {
        Map::new(|k: Seq<char>| self.has(k), |k: Seq<char>| self.at(k))
    }
}

impl<V> TextTable<V> {
    /// A key stands at one position only.
    pub proof fn lemma_position(&self, key: Seq<char>, i: int)
        requires
            self.wf(),
            key_at(self.entries@, key, i),
        ensures
            self@.contains_key(key),
            self@[key] == self.entries@[i].1,
            forall|j: int| key_at(self.entries@, key, j) ==> j == i,
    {
        let c = choose|c: int| key_at(self.entries@, key, c);
        assert(key_at(self.entries@, key, c));
        assert forall|j: int| key_at(self.entries@, key, j) implies j == i by {
            lemma_before_total(key, key);
            if j < i {
                assert(text_before(self.entries@[j].0@, self.entries@[i].0@));
            }
            if i < j {
                assert(text_before(self.entries@[i].0@, self.entries@[j].0@));
            }
        }
    }

    pub fn new() -> (r: TextTable<V>)
        ensures
            r.wf(),
            r@ == Map::<Seq<char>, V>::empty(),
    {
        let r = TextTable { entries: Vec::new() };
        assert(r@ =~= Map::<Seq<char>, V>::empty());
        r
    }

    /// The position of a key, if it has one.
    pub fn position(&self, key: &str) -> (r: Option<usize>)
        requires
            self.wf(),
        ensures
            match r {
                Some(i) => key_at(self.entries@, key@, i as int) && self@.contains_key(key@)
                    && self@[key@] == self.entries@[i as int].1,
                None => !self@.contains_key(key@),
            },
    {
        let mut i: usize = 0;
        while i < self.entries.len()
            invariant
                i <= self.entries.len(),
                self.wf(),
                forall|j: int| 0 <= j < i ==> !key_at(self.entries@, key@, j),
            decreases self.entries.len() - i,
        {
            if text_eq(self.entries[i].0.as_str(), key) {
                proof {
                    self.lemma_position(key@, i as int);
                }
                return Some(i);
            }
            i = i + 1;
        }
        None
    }

    pub fn contains_key(&self, key: &str) -> (r: bool)
        requires
            self.wf(),
        ensures
            r == self@.contains_key(key@),
    {
        self.position(key).is_some()
    }

    pub fn get(&self, key: &str) -> (r: Option<&V>)
        requires
            self.wf(),
        ensures
            match r {
                Some(v) => self@.contains_key(key@) && *v == self@[key@],
                None => !self@.contains_key(key@),
            },
    {
        match self.position(key) {
            Some(i) => Some(&self.entries[i].1),
            None => None,
        }
    }

    /// Takes a value out of the table.
    pub fn remove(&mut self, key: &str) -> (r: Option<V>)
        requires
            old(self).wf(),
        ensures
            final(self).wf(),
            final(self)@ == old(self)@.remove(key@),
            match r {
                Some(v) => old(self)@.contains_key(key@) && v == old(self)@[key@],
                None => !old(self)@.contains_key(key@),
            },
    {
        match self.position(key) {
            None => {
                assert(self@ =~= old(self)@.remove(key@));
                None
            },
            Some(at) => {
                let ghost before = *self;
                let taken = self.entries.remove(at);
                proof {
                    let after = *self;
                    assert(after.entries@ =~= before.entries@.remove(at as int));
                    assert forall|i: int, j: int|
                        0 <= i < j < after.entries@.len() implies text_before(
                        #[trigger] after.entries@[i].0@,
                        #[trigger] after.entries@[j].0@,
                    ) by {
                        let x = if i < at {
                            i
                        } else {
                            i + 1
                        };
                        let y = if j < at {
                            j
                        } else {
                            j + 1
                        };
                        assert(text_before(before.entries@[x].0@, before.entries@[y].0@));
                    }
                    assert forall|k: Seq<char>|
                        #![trigger after@.contains_key(k)]
                        after@.contains_key(k) == before@.remove(key@).contains_key(k) && (
                        after@.contains_key(k) ==> after@[k] == before@[k]) by {
                        if after.has(k) {
                            let i = choose|i: int| key_at(after.entries@, k, i);
                            let x = if i < at {
                                i
                            } else {
                                i + 1
                            };
                            assert(key_at(before.entries@, k, x));
                            before.lemma_position(k, x);
                            after.lemma_position(k, i);
                            if k == key@ {
                                before.lemma_position(key@, at as int);
                            }
                        }
                        if before.has(k) && k != key@ {
                            let x = choose|x: int| key_at(before.entries@, k, x);
                            let i = if x < at {
                                x
                            } else {
                                x - 1
                            };
                            assert(x != at);
                            assert(key_at(after.entries@, k, i));
                        }
                    }
                    assert(after@ =~= before@.remove(key@));
                }
                Some(taken.1)
            },
        }
    }

    /// Puts a value into the table, in place of one with the same key.
    pub fn insert(&mut self, key: String, value: V)
        requires
            old(self).wf(),
        ensures
            final(self).wf(),
            final(self)@ == old(self)@.insert(key@, value),
    {
        let _ = self.remove(key.as_str());
        let ghost cut = *self;
        assert(!cut@.contains_key(key@));
        let mut at: usize = 0;
        while at < self.entries.len() && stands_before(self.entries[at].0.as_str(), key.as_str())
            invariant
                at <= self.entries.len(),
                *self == cut,
                forall|j: int|
                    0 <= j < at ==> text_before(#[trigger] self.entries@[j].0@, key@),
            decreases self.entries.len() - at,
        {
            at = at + 1;
        }
        proof {
            assert forall|j: int| at <= j < cut.entries@.len() implies text_before(
                key@,
                #[trigger] cut.entries@[j].0@,
            ) by {
                let first = cut.entries@[at as int].0@;
                assert(key_at(cut.entries@, first, at as int));
                lemma_before_total(first, key@);
                if first == key@ {
                    assert(cut.has(key@));
                }
                if j > at {
                    assert(text_before(first, cut.entries@[j].0@));
                    lemma_before_transitive(key@, first, cut.entries@[j].0@);
                }
            }
        }
        let ghost k0 = key@;
        self.entries.insert(at, (key, value));
        proof {
            let after = *self;
            assert(after.entries@ =~= cut.entries@.insert(at as int, (key, value)));
            assert forall|i: int, j: int| 0 <= i < j < after.entries@.len() implies text_before(
                #[trigger] after.entries@[i].0@,
                #[trigger] after.entries@[j].0@,
            ) by {
                let x = if i < at {
                    i
                } else {
                    i - 1
                };
                let y = if j < at {
                    j
                } else {
                    j - 1
                };
                if i == at {
                    assert(text_before(k0, cut.entries@[y].0@));
                } else if j == at {
                    assert(text_before(cut.entries@[x].0@, k0));
                } else {
                    assert(text_before(cut.entries@[x].0@, cut.entries@[y].0@));
                }
            }
            assert(key_at(after.entries@, k0, at as int));
            after.lemma_position(k0, at as int);
            assert forall|k: Seq<char>|
                #![trigger after@.contains_key(k)]
                after@.contains_key(k) == (cut@.contains_key(k) || k == k0) && (k != k0
                    && after@.contains_key(k) ==> after@[k] == cut@[k]) by {
                if after.has(k) && k != k0 {
                    let i = choose|i: int| key_at(after.entries@, k, i);
                    let x = if i < at {
                        i
                    } else {
                        i - 1
                    };
                    assert(i != at);
                    assert(key_at(cut.entries@, k, x));
                    cut.lemma_position(k, x);
                    after.lemma_position(k, i);
                }
                if cut.has(k) {
                    let x = choose|x: int| key_at(cut.entries@, k, x);
                    let i = if x < at {
                        x
                    } else {
                        x + 1
                    };
                    assert(key_at(after.entries@, k, i));
                }
            }
            assert(after@ =~= old(self)@.insert(k0, value));
        }
    }

    /// The number of entries.
    pub fn len(&self) -> (r: usize)
        ensures
            r == self.entries@.len(),
    {
        self.entries.len()
    }
}

/// Keys are ordered as texts are: by the first character in which they differ,
/// and a text before every longer one that begins with it.
pub proof fn law_text_order(head: Seq<char>, a: Seq<char>, b: Seq<char>)
    ensures
        b.len() > 0 ==> text_before(head, head + b),
        a.len() > 0 && b.len() > 0 && a[0] < b[0] ==> text_before(head + a, head + b),
        !text_before(head, head),
    decreases head.len(),
{
    if head.len() == 0 {
        assert(head + a =~= a);
        assert(head + b =~= b);
    } else {
        let rest = head.drop_first();
        law_text_order(rest, a, b);
        assert((head + a).drop_first() =~= rest + a);
        assert((head + b).drop_first() =~= rest + b);
        assert((head + a)[0] == head[0] && (head + b)[0] == head[0]);
    }
}

} // verus!

//! Maps from texts to values, kept in the order of their keys.
use vstd::prelude::*;

use crate::text::{
    comes_before, lemma_filter_elem, lemma_text_lt_irreflexive, lemma_text_lt_total, lemma_text_lt_transitive, same,
    text_lt,
};

verus! {

/// The value under `k`.
pub open spec fn lookup<V>(m: Seq<(Seq<char>, V)>, k: Seq<char>) -> Option<V>
    decreases m.len(),
{
    if m.len() == 0 {
        None
    } else if m[0].0 == k {
        Some(m[0].1)
    } else {
        lookup(m.drop_first(), k)
    }
}

/// The map with `v` under `k`, in the place of what was there, or before the
/// first greater key.
pub open spec fn put<V>(m: Seq<(Seq<char>, V)>, k: Seq<char>, v: V) -> Seq<(Seq<char>, V)>
    decreases m.len(),
{
    if m.len() == 0 {
        seq![(k, v)]
    } else if m[0].0 == k {
        seq![(k, v)] + m.drop_first()
    } else if text_lt(k, m[0].0) {
        seq![(k, v)] + m
    } else {
        seq![m[0]] + put(m.drop_first(), k, v)
    }
}

/// The map without what is under `k`.
pub open spec fn without<V>(m: Seq<(Seq<char>, V)>, k: Seq<char>) -> Seq<(Seq<char>, V)>
    decreases m.len(),
{
    if m.len() == 0 {
        m
    } else if m[0].0 == k {
        m.drop_first()
    } else {
        seq![m[0]] + without(m.drop_first(), k)
    }
}

/// Every key stands before the ones behind it, so no key occurs twice.
pub open spec fn sorted<V>(m: Seq<(Seq<char>, V)>) -> bool {
    forall|i: int, j: int| 0 <= i < j < m.len() ==> text_lt(#[trigger] m[i].0, #[trigger] m[j].0)
}

proof fn lemma_tail_sorted<V>(m: Seq<(Seq<char>, V)>)
    requires
        sorted(m),
        m.len() > 0,
    ensures
        sorted(m.drop_first()),
{
    let t = m.drop_first();
    assert forall|i: int, j: int| 0 <= i < j < t.len() implies text_lt(
        #[trigger] t[i].0,
        #[trigger] t[j].0,
    ) by {
        assert(text_lt(m[i + 1].0, m[j + 1].0));
    }
}

/// A key given a value has that value, and the other keys keep theirs.
pub proof fn lemma_lookup_put<V>(m: Seq<(Seq<char>, V)>, k: Seq<char>, v: V, other: Seq<char>)
    ensures
        lookup(put(m, k, v), k) == Some(v),
        other != k ==> lookup(put(m, k, v), other) == lookup(m, other),
    decreases m.len(),
{
    if m.len() == 0 {
        assert(put(m, k, v).drop_first() =~= m);
    } else if m[0].0 == k {
        assert(put(m, k, v).drop_first() =~= m.drop_first());
    } else if text_lt(k, m[0].0) {
        assert(put(m, k, v).drop_first() =~= m);
    } else {
        lemma_lookup_put(m.drop_first(), k, v, other);
        assert(put(m, k, v).drop_first() =~= put(m.drop_first(), k, v));
    }
}

/// The entries of a map with one more are the new one and entries of the map.
proof fn lemma_put_entries<V>(m: Seq<(Seq<char>, V)>, k: Seq<char>, v: V, i: int)
    requires
        0 <= i < put(m, k, v).len(),
    ensures
        put(m, k, v)[i] == (k, v) || m.contains(put(m, k, v)[i]),
    decreases m.len(),
{
    let r = put(m, k, v);
    if m.len() == 0 {
    } else if m[0].0 == k {
        if i > 0 {
            assert(m[i] == r[i]);
        }
    } else if text_lt(k, m[0].0) {
        if i > 0 {
            assert(m[i - 1] == r[i]);
        }
    } else if i > 0 {
        let tail = m.drop_first();
        lemma_put_entries(tail, k, v, i - 1);
        assert(r[i] == put(tail, k, v)[i - 1]);
        if r[i] != (k, v) {
            let j = choose|j: int| 0 <= j < tail.len() && tail[j] == r[i];
            assert(m[j + 1] == r[i]);
        }
    } else {
        assert(m[0] == r[0]);
    }
}

/// Putting an entry in keeps the keys in order.
pub proof fn lemma_put_sorted<V>(m: Seq<(Seq<char>, V)>, k: Seq<char>, v: V)
    requires
        sorted(m),
    ensures
        sorted(put(m, k, v)),
    decreases m.len(),
{
    let r = put(m, k, v);
    if m.len() == 0 {
    } else if m[0].0 == k {
        assert forall|i: int, j: int| 0 <= i < j < r.len() implies text_lt(
            #[trigger] r[i].0,
            #[trigger] r[j].0,
        ) by {
            assert(r[i].0 == m[i].0 && r[j].0 == m[j].0);
        }
    } else if text_lt(k, m[0].0) {
        assert forall|i: int, j: int| 0 <= i < j < r.len() implies text_lt(
            #[trigger] r[i].0,
            #[trigger] r[j].0,
        ) by {
            assert(r[j].0 == m[j - 1].0);
            if i == 0 {
                if j > 1 {
                    assert(text_lt(m[0].0, m[j - 1].0));
                    lemma_text_lt_transitive(k, m[0].0, m[j - 1].0);
                }
            } else {
                assert(r[i].0 == m[i - 1].0);
            }
        }
    } else {
        let tail = m.drop_first();
        lemma_tail_sorted(m);
        lemma_put_sorted(tail, k, v);
        lemma_text_lt_total(k, m[0].0);
        let rest = put(tail, k, v);
        assert forall|i: int, j: int| 0 <= i < j < r.len() implies text_lt(
            #[trigger] r[i].0,
            #[trigger] r[j].0,
        ) by {
            assert(r[j] == rest[j - 1]);
            if i == 0 {
                lemma_put_entries(tail, k, v, j - 1);
                if rest[j - 1].0 != k {
                    let x = choose|x: int| 0 <= x < tail.len() && tail[x] == rest[j - 1];
                    assert(text_lt(m[0].0, m[x + 1].0));
                }
            } else {
                assert(r[i] == rest[i - 1]);
                assert(text_lt(rest[i - 1].0, rest[j - 1].0));
            }
        }
    }
}

/// Taking a key out keeps the others in order.
pub proof fn lemma_without_sorted<V>(m: Seq<(Seq<char>, V)>, k: Seq<char>)
    requires
        sorted(m),
    ensures
        sorted(without(m, k)),
    decreases m.len(),
{
    if m.len() > 0 {
        let t = m.drop_first();
        lemma_tail_sorted(m);
        if m[0].0 != k {
            lemma_without_sorted(t, k);
            let r = without(m, k);
            let rest = without(t, k);
            assert forall|i: int, j: int| 0 <= i < j < r.len() implies text_lt(
                #[trigger] r[i].0,
                #[trigger] r[j].0,
            ) by {
                assert(r[j] == rest[j - 1]);
                if i == 0 {
                    lemma_without_entries(t, k, j - 1);
                    let x = choose|x: int| 0 <= x < t.len() && t[x] == rest[j - 1];
                    assert(text_lt(m[0].0, m[x + 1].0));
                } else {
                    assert(r[i] == rest[i - 1]);
                }
            }
        }
    }
}

proof fn lemma_without_entries<V>(m: Seq<(Seq<char>, V)>, k: Seq<char>, i: int)
    requires
        0 <= i < without(m, k).len(),
    ensures
        exists|x: int| 0 <= x < m.len() && #[trigger] m[x] == without(m, k)[i],
    decreases m.len(),
{
    let t = m.drop_first();
    if m[0].0 == k {
        assert(m[i + 1] == without(m, k)[i]);
    } else if i == 0 {
        assert(m[0] == without(m, k)[0]);
    } else {
        lemma_without_entries(t, k, i - 1);
        let x = choose|x: int| 0 <= x < t.len() && t[x] == without(t, k)[i - 1];
        assert(m[x + 1] == without(m, k)[i]);
    }
}

proof fn lemma_lookup_absent<V>(m: Seq<(Seq<char>, V)>, k: Seq<char>)
    requires
        forall|i: int| 0 <= i < m.len() ==> #[trigger] m[i].0 != k,
    ensures
        lookup(m, k) is None,
    decreases m.len(),
{
    if m.len() > 0 {
        assert(m[0].0 != k);
        let t = m.drop_first();
        assert forall|i: int| 0 <= i < t.len() implies #[trigger] t[i].0 != k by {
            assert(m[i + 1].0 != k);
        }
        lemma_lookup_absent(t, k);
    }
}

/// Taking a key out leaves nothing under it and changes no other key.
pub proof fn lemma_lookup_without<V>(m: Seq<(Seq<char>, V)>, k: Seq<char>, other: Seq<char>)
    requires
        sorted(m),
    ensures
        lookup(without(m, k), k) is None,
        other != k ==> lookup(without(m, k), other) == lookup(m, other),
    decreases m.len(),
{
    if m.len() == 0 {
    } else {
        let t = m.drop_first();
        lemma_tail_sorted(m);
        if m[0].0 == k {
            assert forall|i: int| 0 <= i < t.len() implies #[trigger] t[i].0 != k by {
                assert(text_lt(m[0].0, m[i + 1].0));
                lemma_text_lt_irreflexive(k);
            }
            lemma_lookup_absent(t, k);
        } else {
            lemma_lookup_without(t, k, other);
            assert(without(m, k).drop_first() =~= without(t, k));
        }
    }
}

/// What is under a key is an entry of the map, and an entry of a map in order
/// is found under its key.
pub proof fn lemma_lookup_entries<V>(m: Seq<(Seq<char>, V)>, k: Seq<char>, v: V)
    ensures
        lookup(m, k) == Some(v) ==> m.contains((k, v)),
        sorted(m) && m.contains((k, v)) ==> lookup(m, k) == Some(v),
    decreases m.len(),
{
    if m.len() > 0 {
        let t = m.drop_first();
        lemma_lookup_entries(t, k, v);
        if lookup(m, k) == Some(v) {
            if m[0].0 == k {
                assert(m[0] == (k, v));
            } else {
                let j = choose|j: int| 0 <= j < t.len() && t[j] == (k, v);
                assert(m[j + 1] == (k, v));
            }
        }
        if sorted(m) && m.contains((k, v)) {
            lemma_tail_sorted(m);
            let i = choose|i: int| 0 <= i < m.len() && m[i] == (k, v);
            if i > 0 {
                assert(t[i - 1] == (k, v));
                assert(text_lt(m[0].0, m[i].0));
                lemma_text_lt_irreflexive(k);
            }
        }
    }
}

/// A map that has the key keeps its keys where it gets another value.
pub proof fn lemma_put_in_place<V>(m: Seq<(Seq<char>, V)>, k: Seq<char>, v: V)
    requires
        sorted(m),
        lookup(m, k) is Some,
    ensures
        put(m, k, v) == m.map_values(
            |e: (Seq<char>, V)|
                (
                    e.0,
                    if e.0 == k {
                        v
                    } else {
                        e.1
                    },
                ),
        ),
    decreases m.len(),
{
    let f = |e: (Seq<char>, V)|
        (
            e.0,
            if e.0 == k {
                v
            } else {
                e.1
            },
        );
    let t = m.drop_first();
    lemma_tail_sorted(m);
    if m[0].0 == k {
        assert forall|i: int| 0 < i < m.len() implies #[trigger] m[i].0 != k by {
            assert(text_lt(m[0].0, m[i].0));
            lemma_text_lt_irreflexive(k);
        }
        assert(put(m, k, v) =~= m.map_values(f));
    } else {
        let found = lookup(m, k)->0;
        lemma_lookup_entries(t, k, found);
        let i = choose|i: int| 0 <= i < t.len() && t[i] == (k, found);
        assert(text_lt(m[0].0, m[i + 1].0));
        if text_lt(k, m[0].0) {
            lemma_text_lt_transitive(k, m[0].0, k);
            lemma_text_lt_irreflexive(k);
        }
        lemma_put_in_place(t, k, v);
        assert(put(m, k, v) =~= m.map_values(f));
    }
}

/// Every value holds `p`.
pub open spec fn every<V>(m: Seq<(Seq<char>, V)>, p: spec_fn(V) -> bool) -> bool {
    forall|i: int| 0 <= i < m.len() ==> p(#[trigger] m[i].1)
}

/// What holds of every value still does where a value that holds it is put in
/// or any is taken out, and holds of the value under a key.
pub proof fn lemma_every<V>(m: Seq<(Seq<char>, V)>, p: spec_fn(V) -> bool, k: Seq<char>, v: V)
    requires
        every(m, p),
    ensures
        p(v) ==> every(put(m, k, v), p),
        every(without(m, k), p),
        lookup(m, k) is Some ==> p(lookup(m, k)->0),
{
    if p(v) {
        let r = put(m, k, v);
        assert forall|i: int| 0 <= i < r.len() implies p(#[trigger] r[i].1) by {
            lemma_put_entries(m, k, v, i);
            if r[i] != (k, v) {
                let j = choose|j: int| 0 <= j < m.len() && m[j] == r[i];
                assert(p(m[j].1));
            }
        }
    }
    let w = without(m, k);
    assert forall|i: int| 0 <= i < w.len() implies p(#[trigger] w[i].1) by {
        lemma_without_entries(m, k, i);
        let j = choose|j: int| 0 <= j < m.len() && m[j] == w[i];
        assert(p(m[j].1));
    }
    if lookup(m, k) is Some {
        let found = lookup(m, k)->0;
        lemma_lookup_entries(m, k, found);
        let j = choose|j: int| 0 <= j < m.len() && m[j] == (k, found);
        assert(p(m[j].1));
    }
}

/// Leaving entries out keeps the others in order.
pub proof fn lemma_filter_sorted<V>(
    m: Seq<(Seq<char>, V)>,
    keep: spec_fn((Seq<char>, V)) -> bool,
)
    requires
        sorted(m),
    ensures
        sorted(m.filter(keep)),
    decreases m.len(),
{
    reveal(Seq::filter);
    if m.len() > 0 {
        let t = m.drop_last();
        let f = t.filter(keep);
        let r = m.filter(keep);
        lemma_filter_sorted(t, keep);
        assert forall|i: int, j: int| 0 <= i < j < r.len() implies text_lt(
            #[trigger] r[i].0,
            #[trigger] r[j].0,
        ) by {
            assert(r[i] == f[i]);
            if j < f.len() {
                assert(r[j] == f[j]);
            } else {
                assert(f.contains(f[i]));
                lemma_filter_elem(t, keep, f[i]);
                let x = choose|x: int| 0 <= x < t.len() && t[x] == f[i];
                assert(text_lt(m[x].0, m[m.len() - 1].0));
            }
        }
    }
}

/// The map with every value replaced by `f` of it.
pub open spec fn values_by<V, W>(m: Seq<(Seq<char>, V)>, f: spec_fn(V) -> W) -> Seq<
    (Seq<char>, W),
> {
    m.map_values(|e: (Seq<char>, V)| (e.0, f(e.1)))
}

/// Replacing the values keeps the keys in order.
pub proof fn lemma_values_sorted<V, W>(m: Seq<(Seq<char>, V)>, f: spec_fn(V) -> W)
    ensures
        sorted(values_by(m, f)) <==> sorted(m),
{
    let n = values_by(m, f);
    if sorted(n) {
        assert forall|i: int, j: int| 0 <= i < j < m.len() implies text_lt(
            #[trigger] m[i].0,
            #[trigger] m[j].0,
        ) by {
            assert(text_lt(n[i].0, n[j].0));
        }
    }
}

/// Replacing the values commutes with looking up, putting in and taking out.
pub proof fn lemma_values_by<V, W>(
    m: Seq<(Seq<char>, V)>,
    f: spec_fn(V) -> W,
    k: Seq<char>,
    v: V,
)
    ensures
        lookup(values_by(m, f), k) == match lookup(m, k) {
            Some(x) => Some(f(x)),
            None => None,
        },
        put(values_by(m, f), k, f(v)) == values_by(put(m, k, v), f),
        without(values_by(m, f), k) == values_by(without(m, k), f),
    decreases m.len(),
{
    let n = values_by(m, f);
    if m.len() == 0 {
        assert(put(n, k, f(v)) =~= values_by(put(m, k, v), f));
        assert(without(n, k) =~= values_by(without(m, k), f));
    } else {
        let t = m.drop_first();
        assert(n.drop_first() =~= values_by(t, f));
        lemma_values_by(t, f, k, v);
        assert(put(n, k, f(v)) =~= values_by(put(m, k, v), f));
        assert(without(n, k) =~= values_by(without(m, k), f));
    }
}

/// Taking a key out leaves nothing under it and changes no other key, whatever
/// the values are replaced by.
pub proof fn lemma_values_without<V, W>(
    m: Seq<(Seq<char>, V)>,
    f: spec_fn(V) -> W,
    id: Seq<char>,
    other: Seq<char>,
)
    requires
        sorted(m),
        other != id,
    ensures
        lookup(values_by(without(m, id), f), id) is None,
        lookup(values_by(without(m, id), f), other) == lookup(values_by(m, f), other),
{
    lemma_values_sorted(m, f);
    lemma_values_by(m, f, id, arbitrary());
    lemma_lookup_without(values_by(m, f), id, other);
}

/// A map from texts to values.
#[derive(Debug, PartialEq, Eq)]
pub struct TextMap<V> {
    pub entries: Vec<(String, V)>,
}

/// The entries of a list of pairs, the keys by their characters.
pub open spec fn pairs<V>(e: Seq<(String, V)>) -> Seq<(Seq<char>, V)> {
    e.map_values(|p: (String, V)| (p.0@, p.1))
}

impl<V> TextMap<V> {
    pub open spec fn view(&self) -> Seq<(Seq<char>, V)> {
        pairs(self.entries@)
    }

    pub fn new() -> (r: Self)
        ensures
            r@ == Seq::<(Seq<char>, V)>::empty(),
            sorted(r@),
    {
        let r = TextMap { entries: Vec::new() };
        assert(r@ =~= Seq::<(Seq<char>, V)>::empty());
        r
    }

    pub fn len(&self) -> (n: usize)
        ensures
            n == self@.len(),
    {
        self.entries.len()
    }

    pub fn is_empty(&self) -> (b: bool)
        ensures
            b == (self@.len() == 0),
    {
        self.entries.len() == 0
    }

    pub fn key_at(&self, i: usize) -> (k: &String)
        requires
            i < self@.len(),
        ensures
            k@ == self@[i as int].0,
    {
        &self.entries[i].0
    }

    pub fn value_at(&self, i: usize) -> (v: &V)
        requires
            i < self@.len(),
        ensures
            *v == self@[i as int].1,
    {
        &self.entries[i].1
    }

    /// The value under `k`.
    pub fn get<'a>(&'a self, k: &str) -> (r: Option<&'a V>)
        ensures
            match r {
                Some(v) => lookup(self@, k@) == Some(*v),
                None => lookup(self@, k@) is None,
            },
    {
        let mut i: usize = 0;
        let ghost m = self@;
        assert(m.skip(0) =~= m);
        while i < self.entries.len()
            invariant
                i <= self.entries@.len(),
                m == self@,
                lookup(m, k@) == lookup(m.skip(i as int), k@),
            decreases self.entries@.len() - i,
        {
            assert(m.skip(i as int)[0] == m[i as int]);
            assert(m.skip(i as int).drop_first() =~= m.skip(i as int + 1));
            if same(self.entries[i].0.as_str(), k) {
                return Some(&self.entries[i].1);
            }
            i = i + 1;
        }
        None
    }

    pub fn contains_key(&self, k: &str) -> (r: bool)
        ensures
            r == (lookup(self@, k@) is Some),
    {
        self.get(k).is_some()
    }

    /// Puts `v` under `k`.
    pub fn insert(&mut self, k: String, v: V)
        ensures
            final(self)@ == put(old(self)@, k@, v),
            sorted(old(self)@) ==> sorted(final(self)@),
    {
        let mut i: usize = 0;
        let ghost m = self@;
        proof {
            if sorted(m) {
                lemma_put_sorted(m, k@, v);
            }
        }
        assert(m.skip(0) =~= m);
        assert(put(m, k@, v) =~= m.take(0) + put(m.skip(0), k@, v));
        while i < self.entries.len()
            invariant
                i <= self.entries@.len(),
                m == self@,
                m == old(self)@,
                sorted(m) ==> sorted(put(m, k@, v)),
                put(m, k@, v) == m.take(i as int) + put(m.skip(i as int), k@, v),
            decreases self.entries@.len() - i,
        {
            let ghost rest = m.skip(i as int);
            assert(rest[0] == m[i as int]);
            assert(rest.drop_first() =~= m.skip(i as int + 1));
            if same(self.entries[i].0.as_str(), k.as_str()) {
                self.entries.set(i, (k, v));
                assert(self@ =~= put(m, k@, v));
                return ;
            }
            if comes_before(k.as_str(), self.entries[i].0.as_str()) {
                self.entries.insert(i, (k, v));
                assert(self@ =~= put(m, k@, v));
                return ;
            }
            assert(put(m, k@, v) =~= m.take(i as int + 1) + put(m.skip(i as int + 1), k@, v));
            i = i + 1;
        }
        assert(m.skip(i as int) =~= Seq::<(Seq<char>, V)>::empty());
        self.entries.push((k, v));
        assert(self@ =~= put(m, k@, v));
    }

    /// Takes out what is under `k`.
    pub fn remove(&mut self, k: &str) -> (r: Option<V>)
        ensures
            final(self)@ == without(old(self)@, k@),
            r == lookup(old(self)@, k@),
            sorted(old(self)@) ==> sorted(final(self)@),
    {
        let mut i: usize = 0;
        let ghost m = self@;
        proof {
            if sorted(m) {
                lemma_without_sorted(m, k@);
            }
        }
        assert(m.skip(0) =~= m);
        assert(without(m, k@) =~= m.take(0) + without(m.skip(0), k@));
        while i < self.entries.len()
            invariant
                i <= self.entries@.len(),
                m == self@,
                m == old(self)@,
                sorted(m) ==> sorted(without(m, k@)),
                lookup(m, k@) == lookup(m.skip(i as int), k@),
                without(m, k@) == m.take(i as int) + without(m.skip(i as int), k@),
            decreases self.entries@.len() - i,
        {
            let ghost rest = m.skip(i as int);
            assert(rest[0] == m[i as int]);
            assert(rest.drop_first() =~= m.skip(i as int + 1));
            if same(self.entries[i].0.as_str(), k) {
                let e = self.entries.remove(i);
                assert(self@ =~= without(m, k@));
                return Some(e.1);
            }
            assert(without(m, k@) =~= m.take(i as int + 1) + without(m.skip(i as int + 1), k@));
            i = i + 1;
        }
        assert(m.skip(i as int) =~= Seq::<(Seq<char>, V)>::empty());
        assert(self@ =~= without(m, k@));
        None
    }
}

} // verus!

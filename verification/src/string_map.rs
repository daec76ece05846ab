//! Maps from texts to values whose entries stand in the order of their keys.
use vstd::prelude::*;

use crate::order::{
    before, comes_before, lemma_before_asymmetric, lemma_before_irreflexive, lemma_before_total,
    lemma_before_transitive,
};
use crate::text::same_text;

verus! {

/// The keys of the entries rise strictly.
pub open spec fn in_key_order<T>(p: Seq<(Seq<char>, T)>) -> bool {
    forall|i: int, j: int| 0 <= i < j < p.len() ==> before((#[trigger] p[i]).0, (#[trigger] p[j]).0)
}

/// Some entry has the key `k`.
pub open spec fn has_key<T>(p: Seq<(Seq<char>, T)>, k: Seq<char>) -> bool {
    exists|i: int| 0 <= i < p.len() && (#[trigger] p[i]).0 == k
}

/// The index of an entry with the key `k`.
pub open spec fn index_of_key<T>(p: Seq<(Seq<char>, T)>, k: Seq<char>) -> int {
    choose|i: int| 0 <= i < p.len() && (#[trigger] p[i]).0 == k
}

/// The map of the entries.
pub open spec fn map_of<T>(p: Seq<(Seq<char>, T)>) -> Map<Seq<char>, T> {
    Map::new(|k: Seq<char>| has_key(p, k), |k: Seq<char>| p[index_of_key(p, k)].1)
}

/// The entries of a map in the order of their keys.
pub open spec fn ordered<T>(m: Map<Seq<char>, T>) -> Seq<(Seq<char>, T)> {
    choose|p: Seq<(Seq<char>, T)>| in_key_order(p) && map_of(p) == m
}

/// In order, a key stands at one place only.
pub proof fn lemma_key_index<T>(p: Seq<(Seq<char>, T)>, i: int)
    requires
        in_key_order(p),
        0 <= i < p.len(),
    ensures
        has_key(p, p[i].0),
        index_of_key(p, p[i].0) == i,
        map_of(p).dom().contains(p[i].0),
        map_of(p)[p[i].0] == p[i].1,
{
    assert(has_key(p, p[i].0));
    let j = index_of_key(p, p[i].0);
    if i < j {
        lemma_before_irreflexive(p[i].0);
        assert(before(p[i].0, p[j].0));
    } else if j < i {
        lemma_before_irreflexive(p[i].0);
        assert(before(p[j].0, p[i].0));
    }
}

/// Entries in order are determined by their map.
pub proof fn lemma_ordered_unique<T>(p: Seq<(Seq<char>, T)>, q: Seq<(Seq<char>, T)>)
    requires
        in_key_order(p),
        in_key_order(q),
        map_of(p) == map_of(q),
    ensures
        p == q,
    decreases p.len(),
{
    if p.len() == 0 {
        if q.len() > 0 {
            lemma_key_index(q, 0);
            assert(has_key(p, q[0].0));
        }
        assert(p =~= q);
    } else {
        let n = p.len() - 1;
        lemma_key_index(p, n);
        assert(has_key(q, p[n].0));
        let m = q.len() - 1;
        lemma_key_index(q, m);
        assert(has_key(p, q[m].0));
        let a = index_of_key(q, p[n].0);
        let b = index_of_key(p, q[m].0);
        if a < m {
            assert(before(q[a].0, q[m].0));
            if b < n {
                assert(before(p[b].0, p[n].0));
                lemma_before_asymmetric(p[n].0, q[m].0);
            } else {
                lemma_before_irreflexive(p[n].0);
            }
        }
        assert(p[n].0 == q[m].0);
        assert(p[n] == q[m]);
        let p1 = p.drop_last();
        let q1 = q.drop_last();
        assert forall|k: Seq<char>| has_key(p, k) == has_key(q, k) by {
            assert(map_of(p).dom().contains(k) == has_key(p, k));
            assert(map_of(q).dom().contains(k) == has_key(q, k));
        }
        assert forall|k: Seq<char>| has_key(p1, k) == (has_key(p, k) && k != p[n].0) by {
            lemma_drop_last_keys(p, k);
        }
        assert forall|k: Seq<char>| has_key(q1, k) == (has_key(q, k) && k != q[m].0) by {
            lemma_drop_last_keys(q, k);
        }
        assert forall|k: Seq<char>| #[trigger] map_of(p1).dom().contains(k) implies map_of(p1)[k]
            == map_of(q1)[k] by {
            assert(has_key(p1, k) && has_key(q1, k));
            let i = index_of_key(p1, k);
            let j = index_of_key(q1, k);
            lemma_key_index(p, i);
            lemma_key_index(q, j);
            assert(map_of(p)[k] == p[i].1);
            assert(map_of(q)[k] == q[j].1);
        }
        assert(map_of(p1) =~= map_of(q1));
        lemma_ordered_unique(p1, q1);
        assert(p =~= p1.push(p[n]));
        assert(q =~= q1.push(q[m]));
    }
}

proof fn lemma_drop_last_keys<T>(p: Seq<(Seq<char>, T)>, k: Seq<char>)
    requires
        in_key_order(p),
        p.len() > 0,
    ensures
        has_key(p.drop_last(), k) == (has_key(p, k) && k != p.last().0),
{
    let p1 = p.drop_last();
    if has_key(p1, k) {
        let i = index_of_key(p1, k);
        assert(p[i] == p1[i]);
        lemma_key_index(p, i);
        lemma_key_index(p, p.len() - 1);
    }
    if has_key(p, k) && k != p.last().0 {
        let i = index_of_key(p, k);
        assert(p1[i] == p[i]);
    }
}

/// Entries in order are the ordered entries of their map.
pub proof fn lemma_ordered<T>(p: Seq<(Seq<char>, T)>)
    requires
        in_key_order(p),
    ensures
        ordered(map_of(p)) == p,
{
    let q = ordered(map_of(p));
    assert(in_key_order(p) && map_of(p) == map_of(p));
    assert(in_key_order(q) && map_of(q) == map_of(p));
    lemma_ordered_unique(p, q);
}

proof fn lemma_set_value<T>(p: Seq<(Seq<char>, T)>, i: int, v: T)
    requires
        in_key_order(p),
        0 <= i < p.len(),
    ensures
        in_key_order(p.update(i, (p[i].0, v))),
        map_of(p.update(i, (p[i].0, v))) == map_of(p).insert(p[i].0, v),
{
    let q = p.update(i, (p[i].0, v));
    assert forall|a: int, b: int| 0 <= a < b < q.len() implies before(
        (#[trigger] q[a]).0,
        (#[trigger] q[b]).0,
    ) by {
        assert(q[a].0 == p[a].0 && q[b].0 == p[b].0);
    }
    let m = map_of(p).insert(p[i].0, v);
    lemma_key_index(q, i);
    assert forall|k: Seq<char>| #[trigger] map_of(q).dom().contains(k) == m.dom().contains(k) by {
        if has_key(q, k) {
            let a = index_of_key(q, k);
            assert(p[a].0 == k);
        }
        if has_key(p, k) {
            let a = index_of_key(p, k);
            assert(q[a].0 == k);
        }
    }
    assert forall|k: Seq<char>| #[trigger] m.dom().contains(k) implies map_of(q)[k] == m[k] by {
        assert(map_of(q).dom().contains(k));
        let a = index_of_key(q, k);
        lemma_key_index(q, a);
        lemma_key_index(p, a);
    }
    assert(map_of(q) =~= m);
}

proof fn lemma_insert_entry<T>(p: Seq<(Seq<char>, T)>, i: int, k: Seq<char>, v: T)
    requires
        in_key_order(p),
        0 <= i <= p.len(),
        forall|j: int| 0 <= j < i ==> before((#[trigger] p[j]).0, k),
        forall|j: int| i <= j < p.len() ==> before(k, (#[trigger] p[j]).0),
    ensures
        in_key_order(p.insert(i, (k, v))),
        map_of(p.insert(i, (k, v))) == map_of(p).insert(k, v),
{
    let q = p.insert(i, (k, v));
    assert forall|a: int, b: int| 0 <= a < b < q.len() implies before(
        (#[trigger] q[a]).0,
        (#[trigger] q[b]).0,
    ) by {
        if a < i {
            assert(q[a] == p[a]);
            if b == i {
            } else if b < i {
                assert(q[b] == p[b]);
            } else {
                assert(q[b] == p[b - 1]);
            }
        } else if a == i {
            assert(q[b] == p[b - 1]);
        } else {
            assert(q[a] == p[a - 1]);
            assert(q[b] == p[b - 1]);
        }
    }
    let m = map_of(p).insert(k, v);
    lemma_key_index(q, i);
    assert forall|x: Seq<char>| #[trigger] map_of(q).dom().contains(x) == m.dom().contains(x) by {
        if has_key(q, x) {
            let a = index_of_key(q, x);
            if a < i {
                assert(p[a].0 == x);
            } else if a > i {
                assert(p[a - 1].0 == x);
            }
        }
        if has_key(p, x) {
            let a = index_of_key(p, x);
            if a < i {
                assert(q[a].0 == x);
            } else {
                assert(q[a + 1].0 == x);
            }
        }
    }
    assert forall|x: Seq<char>| #[trigger] m.dom().contains(x) implies map_of(q)[x] == m[x] by {
        assert(map_of(q).dom().contains(x));
        let a = index_of_key(q, x);
        lemma_key_index(q, a);
        if a < i {
            lemma_before_irreflexive(k);
            lemma_key_index(p, a);
        } else if a > i {
            lemma_before_irreflexive(k);
            lemma_key_index(p, a - 1);
        }
    }
    assert(map_of(q) =~= m);
}

/// There is one place in the order for a new key.
proof fn lemma_place<T>(p: Seq<(Seq<char>, T)>, k: Seq<char>) -> (i: int)
    requires
        in_key_order(p),
        !has_key(p, k),
    ensures
        0 <= i <= p.len(),
        forall|j: int| 0 <= j < i ==> before((#[trigger] p[j]).0, k),
        forall|j: int| i <= j < p.len() ==> before(k, (#[trigger] p[j]).0),
    decreases p.len(),
{
    if p.len() == 0 {
        0
    } else {
        let rest = p.drop_last();
        let last = p[p.len() - 1].0;
        assert forall|a: int, b: int| 0 <= a < b < rest.len() implies before(
            (#[trigger] rest[a]).0,
            (#[trigger] rest[b]).0,
        ) by {
            assert(rest[a] == p[a] && rest[b] == p[b]);
        }
        if has_key(rest, k) {
            let a = index_of_key(rest, k);
            assert(p[a].0 == k);
        }
        assert(last != k);
        lemma_before_total(last, k);
        if before(last, k) {
            assert forall|j: int| 0 <= j < p.len() implies before((#[trigger] p[j]).0, k) by {
                if j < p.len() - 1 {
                    assert(before(p[j].0, p[p.len() - 1].0));
                    lemma_before_transitive(p[j].0, last, k);
                }
            }
            p.len() as int
        } else {
            let i = lemma_place(rest, k);
            assert forall|j: int| 0 <= j < i implies before((#[trigger] p[j]).0, k) by {
                assert(rest[j] == p[j]);
            }
            assert forall|j: int| i <= j < p.len() implies before(k, (#[trigger] p[j]).0) by {
                if j < p.len() - 1 {
                    assert(rest[j] == p[j]);
                }
            }
            i
        }
    }
}

/// The entries of a finite map can be put in order.
pub proof fn lemma_ordered_of_finite<T>(m: Map<Seq<char>, T>)
    requires
        m.dom().finite(),
    ensures
        in_key_order(ordered(m)),
        map_of(ordered(m)) == m,
    decreases m.dom().len(),
{
    if m.dom().len() == 0 {
        let none = Seq::<(Seq<char>, T)>::empty();
        assert(in_key_order(none));
        assert(m.dom() =~= Set::empty());
        assert(map_of(none) =~= m);
    } else {
        let k = m.dom().choose();
        let less = m.remove(k);
        lemma_ordered_of_finite(less);
        let p = ordered(less);
        assert(!has_key(p, k)) by {
            if has_key(p, k) {
                assert(map_of(p).dom().contains(k));
            }
        }
        let i = lemma_place(p, k);
        lemma_insert_entry(p, i, k, m[k]);
        let q = p.insert(i, (k, m[k]));
        assert(less.insert(k, m[k]) =~= m);
        assert(in_key_order(q) && map_of(q) == m);
    }
}

/// A map from texts to values. Its entries stand in the order of their keys, each key once.
#[derive(Debug, PartialEq, Eq)]
pub struct StringMap<V> {
    keys: Vec<String>,
    values: Vec<V>,
}

impl<V: View> View for StringMap<V> {
    type V = Map<Seq<char>, V::V>;

    open spec fn view(&self) -> Map<Seq<char>, V::V> {
        map_of(self.entries())
    }
}

impl<V: View> StringMap<V> {
    /// The entries, first to last.
    pub closed spec fn entries(&self) -> Seq<(Seq<char>, V::V)> {
        Seq::new(self.keys@.len(), |i: int| (self.keys@[i]@, self.values@[i]@))
    }

    /// Every key has a value, and the keys rise strictly.
    pub closed spec fn wf(&self) -> bool {
        self.keys@.len() == self.values@.len() && in_key_order(self.entries())
    }

    /// The entries are those of the map in the order of their keys.
    pub proof fn lemma_entries(&self)
        requires
            self.wf(),
        ensures
            in_key_order(self.entries()),
            self.entries() == ordered(self@),
    {
        lemma_ordered(self.entries());
    }

    /// A map without entries.
    pub fn new() -> (r: Self)
        ensures
            r.wf(),
            r@ == Map::<Seq<char>, V::V>::empty(),
            r.entries().len() == 0,
    {
        let r = StringMap { keys: Vec::new(), values: Vec::new() };
        proof {
            assert(r@ =~= Map::<Seq<char>, V::V>::empty());
        }
        r
    }

    /// The number of entries.
    pub fn len(&self) -> (r: usize)
        requires
            self.wf(),
        ensures
            r == self.entries().len(),
    {
        self.keys.len()
    }

    /// Whether there is no entry.
    pub fn is_empty(&self) -> (r: bool)
        requires
            self.wf(),
        ensures
            r == (self.entries().len() == 0),
            r == (self@ == Map::<Seq<char>, V::V>::empty()),
    {
        proof {
            if self.entries().len() == 0 {
                assert(self@ =~= Map::<Seq<char>, V::V>::empty());
            } else {
                lemma_key_index(self.entries(), 0);
            }
        }
        self.keys.len() == 0
    }

    /// The key of the entry at `i`.
    pub fn key_at(&self, i: usize) -> (r: &String)
        requires
            self.wf(),
            i < self.entries().len(),
        ensures
            r@ == self.entries()[i as int].0,
            self@.dom().contains(r@),
    {
        proof {
            lemma_key_index(self.entries(), i as int);
        }
        &self.keys[i]
    }

    /// The value of the entry at `i`.
    pub fn value_at(&self, i: usize) -> (r: &V)
        requires
            self.wf(),
            i < self.entries().len(),
        ensures
            r@ == self.entries()[i as int].1,
            r@ == self@[self.entries()[i as int].0],
    {
        proof {
            lemma_key_index(self.entries(), i as int);
        }
        &self.values[i]
    }

    /// The first index whose key does not come before `key`.
    fn place_of(&self, key: &str) -> (r: usize)
        requires
            self.wf(),
        ensures
            r <= self.entries().len(),
            forall|j: int| 0 <= j < r ==> before((#[trigger] self.entries()[j]).0, key@),
            r < self.entries().len() ==> !before(self.entries()[r as int].0, key@),
    {
        let mut i: usize = 0;
        while i < self.keys.len() && comes_before(self.keys[i].as_str(), key)
            invariant
                i <= self.keys@.len(),
                forall|j: int| 0 <= j < i ==> before((#[trigger] self.entries()[j]).0, key@),
            decreases self.keys@.len() - i,
        {
            i = i + 1;
        }
        i
    }

    /// The value of `key`, where it has one.
    pub fn get(&self, key: &str) -> (r: Option<&V>)
        requires
            self.wf(),
        ensures
            r is Some == self@.dom().contains(key@),
            r matches Some(v) ==> v@ == self@[key@],
    {
        let i = self.place_of(key);
        let ghost p = self.entries();
        if i < self.keys.len() && same_text(self.keys[i].as_str(), key) {
            proof {
                lemma_key_index(p, i as int);
            }
            Some(&self.values[i])
        } else {
            proof {
                if has_key(p, key@) {
                    let j = index_of_key(p, key@);
                    lemma_before_irreflexive(key@);
                    if i < j {
                        assert(before(p[i as int].0, p[j].0));
                    }
                }
            }
            None
        }
    }

    /// Gives `key` the value `value`, whether or not it had one.
    pub fn insert(&mut self, key: String, value: V)
        requires
            old(self).wf(),
        ensures
            final(self).wf(),
            final(self)@ == old(self)@.insert(key@, value@),
    {
        let i = self.place_of(key.as_str());
        let ghost p = self.entries();
        if i < self.keys.len() && same_text(self.keys[i].as_str(), key.as_str()) {
            self.values.set(i, value);
            proof {
                lemma_set_value(p, i as int, value@);
                assert(self.entries() =~= p.update(i as int, (p[i as int].0, value@)));
            }
        } else {
            proof {
                assert forall|j: int| i <= j < p.len() implies before(key@, (#[trigger] p[j]).0) by {
                    lemma_before_total(p[i as int].0, key@);
                    if i < j {
                        assert(before(p[i as int].0, p[j].0));
                        lemma_before_transitive(key@, p[i as int].0, p[j].0);
                    }
                }
                lemma_insert_entry(p, i as int, key@, value@);
            }
            self.keys.insert(i, key);
            self.values.insert(i, value);
            proof {
                assert(self.entries() =~= p.insert(i as int, (key@, value@)));
            }
        }
    }
}

/// The entries of a map are all of its keys, each once and with its value, and the keys rise
/// strictly.
pub proof fn law_ordered_entries<T>(m: Map<Seq<char>, T>)
    requires
        m.dom().finite(),
    ensures
        forall|i: int, j: int|
            0 <= i < j < ordered(m).len() ==> before(
                (#[trigger] ordered(m)[i]).0,
                (#[trigger] ordered(m)[j]).0,
            ),
        forall|i: int|
            0 <= i < ordered(m).len() ==> m.dom().contains((#[trigger] ordered(m)[i]).0)
                && m[ordered(m)[i].0] == ordered(m)[i].1,
        forall|k: Seq<char>| #[trigger]
            m.dom().contains(k) ==> ordered(m).contains((k, m[k])),
{
    lemma_ordered_of_finite(m);
    let p = ordered(m);
    assert forall|i: int| 0 <= i < p.len() implies m.dom().contains((#[trigger] p[i]).0)
        && m[p[i].0] == p[i].1 by {
        lemma_key_index(p, i);
    }
    assert forall|k: Seq<char>| #[trigger] m.dom().contains(k) implies p.contains((k, m[k])) by {
        assert(map_of(p).dom().contains(k));
        assert(has_key(p, k));
        let i = index_of_key(p, k);
        lemma_key_index(p, i);
        assert(p[i] == (k, m[k]));
    }
}

} // verus!

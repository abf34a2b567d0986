//! A map with string keys that is walked in key order.

use vstd::prelude::*;
use vstd::string::*;

use crate::text::{self, place, Place};

verus! {

/// A map from strings to values. Its entries stand in key order, and no key
/// stands twice.
#[derive(Debug)]
pub struct StrMap<V> {
    entries: Vec<(String, V)>,
}

/// The keys of a list of entries, in their order.
pub open spec fn keys_of<V>(entries: Seq<(String, V)>) -> Seq<Seq<char>> {
    Seq::new(entries.len(), |i: int| entries[i].0@)
}

/// Each key comes before the next ones.
pub open spec fn ascending(keys: Seq<Seq<char>>) -> bool {
    forall|i: int, j: int| 0 <= i < j < keys.len() ==> #[trigger] text::precedes(keys[i], keys[j])
}

/// The map that a list of entries with ascending keys stands for.
pub open spec fn map_of<V>(entries: Seq<(String, V)>) -> Map<Seq<char>, V> {
    Map::new(
        |k: Seq<char>| keys_of(entries).contains(k),
        |k: Seq<char>| entries[keys_of(entries).index_of(k)].1,
    )
}

impl<V> View for StrMap<V> {
    type V = Map<Seq<char>, V>;

    closed spec fn view(&self) -> Map<Seq<char>, V> {
        map_of(self.entries@)
    }
}

/// Distinct positions of an ascending list hold distinct keys.
proof fn lemma_ascending_distinct(keys: Seq<Seq<char>>)
    requires
        ascending(keys),
    ensures
        forall|i: int, j: int| 0 <= i < keys.len() && 0 <= j < keys.len() && i != j ==> keys[i] != keys[j],
        forall|i: int| 0 <= i < keys.len() ==> #[trigger] keys.index_of(keys[i]) == i,
{
    assert forall|i: int, j: int| 0 <= i < keys.len() && 0 <= j < keys.len() && i != j implies keys[i]
        != keys[j] by {
        text::lemma_precedes_irreflexive(keys[i]);
        if i < j {
            assert(text::precedes(keys[i], keys[j]));
        } else {
            assert(text::precedes(keys[j], keys[i]));
        }
    }
    assert forall|i: int| 0 <= i < keys.len() implies #[trigger] keys.index_of(keys[i]) == i by {
        assert(keys.contains(keys[i]));
    }
}

/// What a list of entries with ascending keys maps each of them to.
proof fn lemma_map_of<V>(entries: Seq<(String, V)>)
    requires
        ascending(keys_of(entries)),
    ensures
        forall|k: Seq<char>| #[trigger]
            map_of(entries).contains_key(k) <==> exists|i: int| 0 <= i < entries.len() && #[trigger] entries[i].0@ == k,
        forall|i: int| 0 <= i < entries.len() ==> map_of(entries).contains_pair(#[trigger] entries[i].0@, entries[i].1),
{
    let keys = keys_of(entries);
    lemma_ascending_distinct(keys);
    assert forall|k: Seq<char>| #[trigger] map_of(entries).contains_key(k) <==> exists|i: int|
        0 <= i < entries.len() && #[trigger] entries[i].0@ == k by {
        if map_of(entries).contains_key(k) {
            let i = keys.index_of(k);
            assert(entries[i].0@ == k);
        }
        if exists|i: int| 0 <= i < entries.len() && #[trigger] entries[i].0@ == k {
            let i = choose|i: int| 0 <= i < entries.len() && #[trigger] entries[i].0@ == k;
            assert(keys[i] == k);
        }
    }
    assert forall|i: int| 0 <= i < entries.len() implies map_of(entries).contains_pair(
        #[trigger] entries[i].0@,
        entries[i].1,
    ) by {
        assert(keys[i] == entries[i].0@);
        assert(keys.index_of(keys[i]) == i);
    }
}

/// The order of the keys is determined by which keys there are: two ascending
/// lists of the same keys are the same list. So it does not matter in which
/// order the entries of a map were inserted.
pub proof fn lemma_order_is_canonical(a: Seq<Seq<char>>, b: Seq<Seq<char>>)
    requires
        ascending(a),
        ascending(b),
        a.to_set() == b.to_set(),
    ensures
        a == b,
    decreases a.len(),
{
    lemma_ascending_distinct(a);
    lemma_ascending_distinct(b);
    assert(forall|k: Seq<char>| a.contains(k) <==> a.to_set().contains(k));
    assert(forall|k: Seq<char>| b.contains(k) <==> b.to_set().contains(k));
    if a.len() == 0 {
        if b.len() > 0 {
            assert(b.contains(b[0]));
        }
    } else {
        assert(a.contains(a[0]));
        assert(b.contains(a[0]));
        assert(b.contains(b[0]));
        assert(a.contains(b[0]));
        let i = a.index_of(b[0]);
        let j = b.index_of(a[0]);
        if i > 0 {
            assert(text::precedes(a[0], a[i]));
            if j > 0 {
                assert(text::precedes(b[0], b[j]));
                text::lemma_precedes_asymmetric(a[0], b[0]);
            }
        }
        assert(a[0] == b[0]);
        let x = a.drop_first();
        let y = b.drop_first();
        assert(ascending(x)) by {
            assert forall|p: int, q: int| 0 <= p < q < x.len() implies #[trigger] text::precedes(x[p], x[q]) by {
                assert(text::precedes(a[p + 1], a[q + 1]));
            }
        }
        assert(ascending(y)) by {
            assert forall|p: int, q: int| 0 <= p < q < y.len() implies #[trigger] text::precedes(y[p], y[q]) by {
                assert(text::precedes(b[p + 1], b[q + 1]));
            }
        }
        assert(x.to_set() =~= y.to_set()) by {
            assert forall|k: Seq<char>| x.contains(k) implies y.contains(k) by {
                let p = choose|p: int| 0 <= p < x.len() && x[p] == k;
                assert(a[p + 1] == k);
                assert(a.contains(k));
                let q = choose|q: int| 0 <= q < b.len() && b[q] == k;
                assert(q != 0);
                assert(y[q - 1] == k);
            }
            assert forall|k: Seq<char>| y.contains(k) implies x.contains(k) by {
                let p = choose|p: int| 0 <= p < y.len() && y[p] == k;
                assert(b[p + 1] == k);
                assert(b.contains(k));
                let q = choose|q: int| 0 <= q < a.len() && a[q] == k;
                assert(q != 0);
                assert(x[q - 1] == k);
            }
        }
        lemma_order_is_canonical(x, y);
        assert(a =~= seq![a[0]] + x);
        assert(b =~= seq![b[0]] + y);
    }
}

impl<V: Clone> Clone for StrMap<V> {
    /// A map with the same keys, and a clone of the value of each.
    fn clone(&self) -> (r: Self)
        ensures
            r.keys() == self.keys(),
            r@.dom() == self@.dom(),
            forall|k: Seq<char>| #[trigger] self@.contains_key(k) ==> cloned(self@[k], r@[k]),
    {
        proof {
            use_type_invariant(self);
        }
        let mut entries: Vec<(String, V)> = Vec::new();
        let mut i: usize = 0;
        while i < self.entries.len()
            invariant
                i <= self.entries@.len(),
                entries@.len() == i,
                forall|j: int|
                    0 <= j < i ==> (#[trigger] entries@[j]).0@ == self.entries@[j].0@ && cloned(
                        self.entries@[j].1,
                        entries@[j].1,
                    ),
            decreases self.entries@.len() - i,
        {
            let e = &self.entries[i];
            entries.push((e.0.clone(), e.1.clone()));
            i += 1;
        }
        proof {
            assert(keys_of(entries@) =~= keys_of(self.entries@));
            lemma_map_of(entries@);
            lemma_map_of(self.entries@);
            assert(map_of(entries@).dom() =~= map_of(self.entries@).dom());
            assert forall|k: Seq<char>| #[trigger] self@.contains_key(k) implies cloned(
                self@[k],
                map_of(entries@)[k],
            ) by {
                let j = choose|j: int| 0 <= j < self.entries@.len() && #[trigger] self.entries@[j].0@ == k;
                assert(map_of(self.entries@).contains_pair(self.entries@[j].0@, self.entries@[j].1));
                assert(map_of(entries@).contains_pair(entries@[j].0@, entries@[j].1));
            }
        }
        StrMap { entries }
    }
}

impl<V> StrMap<V> {
    /// The keys in the order in which the map is walked.
    pub closed spec fn keys(&self) -> Seq<Seq<char>> {
        keys_of(self.entries@)
    }

    #[verifier::type_invariant]
    closed spec fn wf(&self) -> bool {
        ascending(keys_of(self.entries@))
    }

    /// The map without entries.
    pub fn new() -> (r: Self)
        ensures
            r@ == Map::<Seq<char>, V>::empty(),
    {
        let r = StrMap { entries: Vec::new() };
        assert(r@ =~= Map::<Seq<char>, V>::empty());
        r
    }

    /// The number of entries. The keys are ascending, and they are those that
    /// the map has a value for.
    pub fn len(&self) -> (n: usize)
        ensures
            n == self.keys().len(),
            ascending(self.keys()),
            self.keys().to_set() == self@.dom(),
    {
        proof {
            use_type_invariant(self);
            assert(self.keys().to_set() =~= self@.dom());
        }
        self.entries.len()
    }

    /// The key at a position, and its value.
    pub fn at(&self, i: usize) -> (r: (&str, &V))
        requires
            i < self.keys().len(),
        ensures
            r.0@ == self.keys()[i as int],
            self@.contains_pair(r.0@, *r.1),
    {
        proof {
            use_type_invariant(self);
            lemma_map_of(self.entries@);
        }
        let e = &self.entries[i];
        (e.0.as_str(), &e.1)
    }

    /// The first position whose key does not come before `k`.
    fn find(entries: &Vec<(String, V)>, k: &str) -> (r: (usize, bool))
        requires
            ascending(keys_of(entries@)),
        ensures
            r.0 <= entries@.len(),
            forall|i: int| 0 <= i < r.0 ==> text::precedes(#[trigger] entries@[i].0@, k@),
            r.1 ==> r.0 < entries@.len() && entries@[r.0 as int].0@ == k@,
            !r.1 ==> forall|i: int| r.0 <= i < entries@.len() ==> text::precedes(k@, #[trigger] entries@[i].0@),
    {
        let mut n: usize = 0;
        while n < entries.len()
            invariant
                n <= entries@.len(),
                ascending(keys_of(entries@)),
                forall|i: int| 0 <= i < n ==> text::precedes(#[trigger] entries@[i].0@, k@),
            decreases entries@.len() - n,
        {
            match place(entries[n].0.as_str(), k) {
                Place::Before => {
                    n += 1;
                },
                Place::Same => {
                    return (n, true);
                },
                Place::After => {
                    proof {
                        let keys = keys_of(entries@);
                        assert forall|i: int| n <= i < entries@.len() implies text::precedes(
                            k@,
                            #[trigger] entries@[i].0@,
                        ) by {
                            if i > n {
                                assert(text::precedes(keys[n as int], keys[i]));
                                text::lemma_precedes_transitive(k@, keys[n as int], keys[i]);
                            }
                        }
                    }
                    return (n, false);
                },
            }
        }
        (n, false)
    }

    /// A key that a search does not find has no entry.
    proof fn lemma_absent(entries: Seq<(String, V)>, k: Seq<char>, n: int)
        requires
            ascending(keys_of(entries)),
            0 <= n <= entries.len(),
            forall|i: int| 0 <= i < n ==> text::precedes(#[trigger] entries[i].0@, k),
            forall|i: int| n <= i < entries.len() ==> text::precedes(k, #[trigger] entries[i].0@),
        ensures
            !map_of(entries).contains_key(k),
    {
        lemma_map_of(entries);
        text::lemma_precedes_irreflexive(k);
    }

    /// The value of a key.
    pub fn get(&self, k: &str) -> (r: Option<&V>)
        ensures
            match r {
                Some(v) => self@.contains_pair(k@, *v),
                None => !self@.contains_key(k@),
            },
    {
        proof {
            use_type_invariant(self);
            lemma_map_of(self.entries@);
        }
        let (n, found) = Self::find(&self.entries, k);
        if found {
            Some(&self.entries[n].1)
        } else {
            proof {
                Self::lemma_absent(self.entries@, k@, n as int);
            }
            None
        }
    }

    /// Sets the value of a key and hands back the value it had.
    pub fn insert(&mut self, k: String, v: V) -> (r: Option<V>)
        ensures
            final(self)@ == old(self)@.insert(k@, v),
            match r {
                Some(v) => old(self)@.contains_pair(k@, v),
                None => !old(self)@.contains_key(k@),
            },
    {
        proof {
            use_type_invariant(&*self);
        }
        let mut entries: Vec<(String, V)> = Vec::new();
        std::mem::swap(&mut entries, &mut self.entries);
        let ghost before = entries@;
        let ghost key = k@;
        proof {
            lemma_map_of(before);
        }
        let (n, found) = Self::find(&entries, k.as_str());
        let mut r = None;
        if found {
            let (_, v0) = entries.remove(n);
            r = Some(v0);
        } else {
            proof {
                Self::lemma_absent(before, key, n as int);
            }
        }
        entries.insert(n, (k, v));
        proof {
            let keys = keys_of(entries@);
            let keys0 = keys_of(before);
            let shift: int = if found { 0 } else { 1 };
            assert forall|i: int, j: int| 0 <= i < j < keys.len() implies #[trigger] text::precedes(
                keys[i],
                keys[j],
            ) by {
                if i != n && j != n {
                    let p = if i < n { i } else { i - shift };
                    let q = if j < n { j } else { j - shift };
                    assert(text::precedes(keys0[p], keys0[q]));
                } else if i == n {
                    let q = j - shift;
                    if found {
                        assert(text::precedes(keys0[n as int], keys0[q]));
                    } else {
                        assert(text::precedes(key, before[q].0@));
                    }
                } else {
                    assert(text::precedes(before[i].0@, key));
                }
            }
            lemma_map_of(entries@);
            let target = map_of(before).insert(key, v);
            assert forall|x: Seq<char>| #[trigger] map_of(entries@).contains_key(x) <==> target.contains_key(x) by {
                if map_of(entries@).contains_key(x) {
                    let i = choose|i: int| 0 <= i < entries@.len() && #[trigger] entries@[i].0@ == x;
                    if i != n {
                        let p = if i < n { i } else { i - shift };
                        assert(before[p].0@ == x);
                    }
                }
                if target.contains_key(x) {
                    if x == key {
                        assert(entries@[n as int].0@ == x);
                    } else {
                        let p = choose|p: int| 0 <= p < before.len() && #[trigger] before[p].0@ == x;
                        let i = if p < n { p } else { p + shift };
                        assert(entries@[i].0@ == x);
                    }
                }
            }
            assert forall|x: Seq<char>| map_of(entries@).contains_key(x) implies #[trigger] map_of(entries@)[x]
                == target[x] by {
                let i = choose|i: int| 0 <= i < entries@.len() && #[trigger] entries@[i].0@ == x;
                assert(map_of(entries@).contains_pair(entries@[i].0@, entries@[i].1));
                if i == n {
                } else {
                    let p = if i < n { i } else { i - shift };
                    assert(map_of(before).contains_pair(before[p].0@, before[p].1));
                    assert(x != key) by {
                        lemma_ascending_distinct(keys);
                        assert(keys[i] == x);
                        assert(keys[n as int] == key);
                    }
                }
            }
            assert(map_of(entries@) =~= target);
        }
        self.entries = entries;
        r
    }

    /// Takes the entry of a key out of the map and hands back its value.
    pub fn remove(&mut self, k: &str) -> (r: Option<V>)
        ensures
            final(self)@ == old(self)@.remove(k@),
            match r {
                Some(v) => old(self)@.contains_pair(k@, v),
                None => !old(self)@.contains_key(k@),
            },
    {
        proof {
            use_type_invariant(&*self);
        }
        let mut entries: Vec<(String, V)> = Vec::new();
        std::mem::swap(&mut entries, &mut self.entries);
        let ghost before = entries@;
        proof {
            lemma_map_of(before);
        }
        let (n, found) = Self::find(&entries, k);
        if !found {
            proof {
                Self::lemma_absent(before, k@, n as int);
                assert(map_of(before) =~= map_of(before).remove(k@));
            }
            self.entries = entries;
            return None;
        }
        let (_, v) = entries.remove(n);
        proof {
            let keys = keys_of(entries@);
            let keys0 = keys_of(before);
            assert forall|i: int, j: int| 0 <= i < j < keys.len() implies #[trigger] text::precedes(
                keys[i],
                keys[j],
            ) by {
                let p = if i < n { i } else { i + 1 };
                let q = if j < n { j } else { j + 1 };
                assert(text::precedes(keys0[p], keys0[q]));
            }
            lemma_map_of(entries@);
            lemma_ascending_distinct(keys0);
            let target = map_of(before).remove(k@);
            assert forall|x: Seq<char>| #[trigger] map_of(entries@).contains_key(x) <==> target.contains_key(x) by {
                if map_of(entries@).contains_key(x) {
                    let i = choose|i: int| 0 <= i < entries@.len() && #[trigger] entries@[i].0@ == x;
                    let p = if i < n { i } else { i + 1 };
                    assert(before[p].0@ == x);
                    assert(keys0[p] == x && keys0[n as int] == k@);
                }
                if target.contains_key(x) {
                    let p = choose|p: int| 0 <= p < before.len() && #[trigger] before[p].0@ == x;
                    let i = if p < n { p } else { p - 1 };
                    assert(entries@[i].0@ == x);
                }
            }
            assert forall|x: Seq<char>| map_of(entries@).contains_key(x) implies #[trigger] map_of(entries@)[x]
                == target[x] by {
                let i = choose|i: int| 0 <= i < entries@.len() && #[trigger] entries@[i].0@ == x;
                let p = if i < n { i } else { i + 1 };
                assert(map_of(entries@).contains_pair(entries@[i].0@, entries@[i].1));
                assert(map_of(before).contains_pair(before[p].0@, before[p].1));
            }
            assert(map_of(entries@) =~= target);
        }
        self.entries = entries;
        Some(v)
    }
}

} // verus!

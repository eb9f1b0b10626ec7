//! A map from strings to values that keeps its keys in ascending order, as
//! the bindings and macros of a bank are kept.
//!
//! It is a sorted vector rather than a `BTreeMap<String, _>`: vstd's
//! contracts for `BTreeMap` hold only for key types whose `Ord` obeys its
//! order model (`key_obeys_cmp_spec`), and vstd establishes that for no
//! `String`. Here the order is `str_lt`, proved a strict total order, and
//! the sortedness the tree kept is the type's invariant.
use vstd::prelude::*;
use crate::text::{
    chars_eq, chars_of, lemma_str_lt_irreflexive, lemma_str_lt_total,
    lemma_str_lt_transitive, str_less, str_lt,
};

verus! {

/// Entries sorted by key, no key twice.
pub struct StrMap<V> {
    entries: Vec<(String, V)>,
}

/// The keys of an entry sequence, by their characters.
pub open spec fn keys_of<V>(s: Seq<(String, V)>) -> Seq<Seq<char>> {
    s.map_values(|e: (String, V)| e.0@)
}

pub open spec fn sorted_keys(k: Seq<Seq<char>>) -> bool {
    forall|i: int, j: int| 0 <= i < j < k.len() ==> str_lt(#[trigger] k[i], #[trigger] k[j])
}

/// The map that an entry sequence stands for.
pub open spec fn map_of<V>(s: Seq<(String, V)>) -> Map<Seq<char>, V> {
    Map::new(
        |k: Seq<char>| exists|i: int| 0 <= i < s.len() && (#[trigger] s[i]).0@ == k,
        |k: Seq<char>| s[index_of(s, k)].1,
    )
}

/// An index at which `k` is a key, if there is one.
pub open spec fn index_of<V>(s: Seq<(String, V)>, k: Seq<char>) -> int {
    choose|i: int| 0 <= i < s.len() && (#[trigger] s[i]).0@ == k
}

/// A key that is not at or before position `i` comes after every key from
/// `i` on.
proof fn lemma_after_position<V>(s: Seq<(String, V)>, i: int, k: Seq<char>, x: int)
    requires
        sorted_keys(keys_of(s)),
        0 <= i <= x < s.len(),
        forall|y: int| i <= y < s.len() ==> !str_lt(#[trigger] keys_of(s)[y], k),
        keys_of(s)[i] != k,
    ensures
        str_lt(k, keys_of(s)[x]),
{
    if keys_of(s)[x] == k {
        assert(x != i);
        assert(str_lt(keys_of(s)[i], keys_of(s)[x]));
    } else {
        lemma_str_lt_total(keys_of(s)[x], k);
    }
}

/// In a sorted entry sequence an index is fixed by its key.
proof fn lemma_index_unique<V>(s: Seq<(String, V)>, i: int, j: int)
    requires
        sorted_keys(keys_of(s)),
        0 <= i < s.len(),
        0 <= j < s.len(),
        s[i].0@ == s[j].0@,
    ensures
        i == j,
{
    if i < j {
        assert(str_lt(keys_of(s)[i], keys_of(s)[j]));
        lemma_str_lt_irreflexive(s[i].0@);
    } else if j < i {
        assert(str_lt(keys_of(s)[j], keys_of(s)[i]));
        lemma_str_lt_irreflexive(s[i].0@);
    }
}

/// The value the map holds for the key at index `i`.
proof fn lemma_map_of_at<V>(s: Seq<(String, V)>, i: int)
    requires
        sorted_keys(keys_of(s)),
        0 <= i < s.len(),
    ensures
        map_of(s).dom().contains(s[i].0@),
        map_of(s)[s[i].0@] == s[i].1,
{
    let k = s[i].0@;
    assert(exists|j: int| 0 <= j < s.len() && (#[trigger] s[j]).0@ == k);
    let j = index_of(s, k);
    lemma_index_unique(s, i, j);
}

impl<V> StrMap<V> {
    #[verifier::type_invariant]
    spec fn sorted(self) -> bool {
        sorted_keys(keys_of(self.entries@))
    }

    /// The entries in key order, keys taken by their characters.
    pub closed spec fn entries(self) -> Seq<(String, V)> {
        self.entries@
    }

    /// The keys in ascending order.
    pub open spec fn keys(self) -> Seq<Seq<char>> {
        keys_of(self.entries())
    }

    /// The map that the entries stand for.
    pub open spec fn map(self) -> Map<Seq<char>, V> {
        map_of(self.entries())
    }

    proof fn lemma_shape(self)
        requires
            self.sorted(),
        ensures
            sorted_keys(self.keys()),
            forall|i: int|
                #![trigger self.entries()[i]]
                0 <= i < self.entries().len() ==> self.map().dom().contains(
                    self.entries()[i].0@,
                ) && self.map()[self.entries()[i].0@] == self.entries()[i].1,
            forall|k: Seq<char>|
                #[trigger] self.map().dom().contains(k) ==> exists|i: int|
                    0 <= i < self.entries().len() && (#[trigger] self.entries()[i]).0@ == k,
    {
        assert forall|i: int|
            #![trigger self.entries()[i]]
            0 <= i < self.entries().len() implies self.map().dom().contains(
            self.entries()[i].0@,
        ) && self.map()[self.entries()[i].0@] == self.entries()[i].1 by {
            lemma_map_of_at(self.entries@, i);
        }
    }

    pub fn new() -> (m: Self)
        ensures
            m.entries() == Seq::<(String, V)>::empty(),
            m.map() == Map::<Seq<char>, V>::empty(),
    {
        let m = StrMap { entries: Vec::new() };
        assert(m.map() =~= Map::<Seq<char>, V>::empty());
        m
    }

    /// The number of keys: one entry per key of the map.
    pub fn len(&self) -> (n: usize)
        ensures
            n == self.entries().len(),
            n == self.map().dom().len(),
            self.map().dom().finite(),
    {
        proof {
            use_type_invariant(self);
            self.lemma_shape();
            let k = self.keys();
            assert(self.map().dom() =~= k.to_set()) by {
                assert forall|x: Seq<char>| #[trigger] k.to_set().contains(x) implies self.map().dom().contains(x) by {
                    let i = choose|i: int| 0 <= i < k.len() && k[i] == x;
                    assert(self.entries()[i].0@ == x);
                }
                assert forall|x: Seq<char>| #[trigger] self.map().dom().contains(x) implies k.to_set().contains(x) by {
                    let i = choose|i: int| 0 <= i < self.entries().len() && (#[trigger] self.entries()[i]).0@ == x;
                    assert(k[i] == x);
                }
            }
            assert(k.no_duplicates()) by {
                assert forall|i: int, j: int| 0 <= i < k.len() && 0 <= j < k.len() && i != j implies k[i] != k[j] by {
                    if k[i] == k[j] {
                        assert(self.entries()[i].0@ == k[i]);
                        assert(self.entries()[j].0@ == k[j]);
                        lemma_index_unique(self.entries(), i, j);
                    }
                }
            }
            k.unique_seq_to_set();
        }
        self.entries.len()
    }

    pub fn key_at(&self, i: usize) -> (k: &String)
        requires
            i < self.entries().len(),
        ensures
            *k == self.entries()[i as int].0,
            self.map().dom().contains(k@),
            self.map()[k@] == self.entries()[i as int].1,
    {
        proof {
            use_type_invariant(self);
            self.lemma_shape();
        }
        &self.entries[i].0
    }

    pub fn value_at(&self, i: usize) -> (v: &V)
        requires
            i < self.entries().len(),
        ensures
            *v == self.entries()[i as int].1,
            self.map()[self.entries()[i as int].0@] == *v,
    {
        proof {
            use_type_invariant(self);
            self.lemma_shape();
        }
        &self.entries[i].1
    }

    /// The first index whose key is not before `key`, and whether the key
    /// there is `key`.
    fn position(&self, key: &Vec<char>) -> (r: (usize, bool))
        ensures
            r.0 <= self.entries().len(),
            forall|i: int| 0 <= i < r.0 ==> str_lt(#[trigger] self.keys()[i], key@),
            forall|i: int| r.0 <= i < self.entries().len() ==> !str_lt(#[trigger] self.keys()[i], key@),
            r.1 == (r.0 < self.entries().len() && self.keys()[r.0 as int] == key@),
    {
        proof {
            use_type_invariant(self);
        }
        let mut i: usize = 0;
        while i < self.entries.len()
            invariant
                i <= self.entries@.len(),
                sorted_keys(keys_of(self.entries@)),
                forall|j: int| 0 <= j < i ==> str_lt(#[trigger] keys_of(self.entries@)[j], key@),
            decreases self.entries@.len() - i,
        {
            let k = chars_of(self.entries[i].0.as_str());
            if !str_less(&k, key) {
                assert forall|j: int| i <= j < self.entries@.len() implies !str_lt(
                    #[trigger] keys_of(self.entries@)[j],
                    key@,
                ) by {
                    if j > i && str_lt(keys_of(self.entries@)[j], key@) {
                        assert(str_lt(keys_of(self.entries@)[i as int], keys_of(self.entries@)[j]));
                        lemma_str_lt_transitive(
                            keys_of(self.entries@)[i as int],
                            keys_of(self.entries@)[j],
                            key@,
                        );
                    }
                }
                let same = chars_eq(&k, key);
                return (i, same);
            }
            i = i + 1;
        }
        (i, false)
    }

    pub fn contains_key(&self, key: &str) -> (r: bool)
        ensures
            r == self.map().dom().contains(key@),
    {
        proof {
            use_type_invariant(self);
            self.lemma_shape();
        }
        let k = chars_of(key);
        let (i, found) = self.position(&k);
        proof {
            if !found && self.map().dom().contains(key@) {
                let j = choose|j: int|
                    0 <= j < self.entries().len() && (#[trigger] self.entries()[j]).0@ == key@;
                if j < i {
                    assert(str_lt(self.keys()[j], key@));
                    lemma_str_lt_irreflexive(key@);
                } else if j > i {
                    assert(!str_lt(self.keys()[i as int], key@));
                    assert(str_lt(self.keys()[i as int], self.keys()[j]));
                } else {
                    assert(self.keys()[j] == key@);
                }
            }
        }
        found
    }

    pub fn get(&self, key: &str) -> (r: Option<&V>)
        ensures
            match r {
                Some(v) => self.map().dom().contains(key@) && *v == self.map()[key@],
                None => !self.map().dom().contains(key@),
            },
    {
        proof {
            use_type_invariant(self);
            self.lemma_shape();
        }
        let k = chars_of(key);
        let (i, found) = self.position(&k);
        if found {
            assert(self.entries()[i as int].0@ == key@);
            Some(&self.entries[i].1)
        } else {
            proof {
                if self.map().dom().contains(key@) {
                    let j = choose|j: int|
                        0 <= j < self.entries().len() && (#[trigger] self.entries()[j]).0@ == key@;
                    if j < i {
                        assert(str_lt(self.keys()[j], key@));
                        lemma_str_lt_irreflexive(key@);
                    } else if j > i {
                        assert(str_lt(self.keys()[i as int], self.keys()[j]));
                    } else {
                        assert(self.keys()[j] == key@);
                    }
                }
            }
            None
        }
    }

    /// Sets the value of `key`, keeping the keys in order.
    pub fn insert(&mut self, key: String, value: V)
        ensures
            final(self).map() == old(self).map().insert(key@, value),
    {
        proof {
            use_type_invariant(&*self);
        }
        let k = chars_of(key.as_str());
        let (i, found) = self.position(&k);
        let ghost old_e = self.entries@;
        proof {
            assert(self.keys() == keys_of(old_e));
            assert forall|x: int| 0 <= x < i implies str_lt(#[trigger] keys_of(old_e)[x], k@) by {
                assert(self.keys()[x] == keys_of(old_e)[x]);
            }
            assert forall|x: int| i <= x < old_e.len() implies !str_lt(
                #[trigger] keys_of(old_e)[x],
                k@,
            ) by {
                assert(self.keys()[x] == keys_of(old_e)[x]);
            }
        }
        let mut e: Vec<(String, V)> = Vec::new();
        std::mem::swap(&mut e, &mut self.entries);
        assert(e@ == old_e);
        if found {
            e.remove(i);
            e.insert(i, (key, value));
            proof {
                let ne = e@;
                assert(ne =~= old_e.update(i as int, ne[i as int]));
                assert(keys_of(ne) =~= keys_of(old_e));
                assert forall|x: Seq<char>|
                    #[trigger] map_of(ne).dom().contains(x) == map_of(old_e).insert(
                        k@,
                        ne[i as int].1,
                    ).dom().contains(x) by {
                    if x != k@ && map_of(old_e).dom().contains(x) {
                        let j = choose|j: int|
                            0 <= j < old_e.len() && (#[trigger] old_e[j]).0@ == x;
                        assert(ne[j].0@ == x);
                    }
                    if map_of(ne).dom().contains(x) {
                        let j = choose|j: int| 0 <= j < ne.len() && (#[trigger] ne[j]).0@ == x;
                        assert(keys_of(ne)[j] == keys_of(old_e)[j]);
                    }
                }
                assert forall|x: Seq<char>| #[trigger] map_of(ne).dom().contains(x) implies map_of(
                    ne,
                )[x] == map_of(old_e).insert(k@, ne[i as int].1)[x] by {
                    let j = choose|j: int| 0 <= j < ne.len() && (#[trigger] ne[j]).0@ == x;
                    assert(keys_of(ne)[j] == keys_of(old_e)[j]);
                    lemma_map_of_at(ne, j);
                    if x != k@ {
                        lemma_map_of_at(old_e, j);
                    } else {
                        lemma_index_unique(ne, i as int, j);
                    }
                }
                assert(map_of(ne) =~= map_of(old_e).insert(k@, ne[i as int].1));
            }
        } else {
            e.insert(i, (key, value));
            proof {
                let ne = e@;
                assert(ne[i as int].0@ == k@);
                assert(keys_of(ne)[i as int] == k@);
                assert forall|x: int| 0 <= x < i implies #[trigger] keys_of(ne)[x] == keys_of(old_e)[x] by {
                    assert(ne[x] == old_e[x]);
                }
                assert forall|x: int| i < x < ne.len() implies #[trigger] keys_of(ne)[x] == keys_of(old_e)[x - 1] by {
                    assert(ne[x] == old_e[x - 1]);
                }
                assert forall|a: int, b: int| 0 <= a < b < ne.len() implies str_lt(
                    #[trigger] keys_of(ne)[a],
                    #[trigger] keys_of(ne)[b],
                ) by {
                    if b < i {
                        assert(str_lt(keys_of(old_e)[a], keys_of(old_e)[b]));
                    } else if b == i {
                        assert(str_lt(keys_of(old_e)[a], k@));
                    } else if a == i {
                        lemma_after_position(old_e, i as int, k@, b - 1);
                    } else if a < i {
                        assert(str_lt(keys_of(old_e)[a], k@));
                        lemma_after_position(old_e, i as int, k@, b - 1);
                        lemma_str_lt_transitive(keys_of(old_e)[a], k@, keys_of(old_e)[b - 1]);
                    } else {
                        assert(str_lt(keys_of(old_e)[a - 1], keys_of(old_e)[b - 1]));
                    }
                }
                assert forall|x: Seq<char>|
                    #[trigger] map_of(ne).dom().contains(x) == map_of(old_e).insert(
                        k@,
                        ne[i as int].1,
                    ).dom().contains(x) by {
                    if x != k@ && map_of(old_e).dom().contains(x) {
                        let j = choose|j: int|
                            0 <= j < old_e.len() && (#[trigger] old_e[j]).0@ == x;
                        if j < i {
                            assert(ne[j].0@ == x);
                        } else {
                            assert(ne[j + 1].0@ == x);
                        }
                    }
                    if x == k@ {
                        assert(ne[i as int].0@ == x);
                    }
                    if map_of(ne).dom().contains(x) && x != k@ {
                        let j = choose|j: int| 0 <= j < ne.len() && (#[trigger] ne[j]).0@ == x;
                        if j < i {
                            assert(old_e[j].0@ == x);
                        } else if j > i {
                            assert(old_e[j - 1].0@ == x);
                        }
                    }
                }
                assert forall|x: Seq<char>| #[trigger] map_of(ne).dom().contains(x) implies map_of(
                    ne,
                )[x] == map_of(old_e).insert(k@, ne[i as int].1)[x] by {
                    let j = choose|j: int| 0 <= j < ne.len() && (#[trigger] ne[j]).0@ == x;
                    lemma_map_of_at(ne, j);
                    if x != k@ {
                        if j < i {
                            assert(old_e[j].0@ == x);
                            lemma_map_of_at(old_e, j);
                        } else if j > i {
                            assert(old_e[j - 1].0@ == x);
                            lemma_map_of_at(old_e, j - 1);
                        }
                    } else {
                        lemma_index_unique(ne, i as int, j);
                    }
                }
                assert(map_of(ne) =~= map_of(old_e).insert(k@, ne[i as int].1));
            }
        }
        self.entries = e;
    }

    /// Takes out the value of `key`, if there is one.
    pub fn remove(&mut self, key: &str) -> (r: Option<V>)
        ensures
            final(self).map() == old(self).map().remove(key@),
            match r {
                Some(v) => old(self).map().dom().contains(key@) && v == old(self).map()[key@],
                None => !old(self).map().dom().contains(key@),
            },
    {
        proof {
            use_type_invariant(&*self);
            self.lemma_shape();
        }
        let k = chars_of(key);
        let (i, found) = self.position(&k);
        let ghost old_e = self.entries@;
        if !found {
            proof {
                if map_of(old_e).dom().contains(key@) {
                    let j = choose|j: int| 0 <= j < old_e.len() && (#[trigger] old_e[j]).0@ == key@;
                    if j < i {
                        assert(str_lt(keys_of(old_e)[j], key@));
                        lemma_str_lt_irreflexive(key@);
                    } else if j > i {
                        assert(str_lt(keys_of(old_e)[i as int], keys_of(old_e)[j]));
                    } else {
                        assert(keys_of(old_e)[j] == key@);
                    }
                }
                assert(map_of(old_e) =~= map_of(old_e).remove(key@));
            }
            return None;
        }
        let mut e: Vec<(String, V)> = Vec::new();
        std::mem::swap(&mut e, &mut self.entries);
        let (_, v) = e.remove(i);
        proof {
            let ne = e@;
            assert(old_e[i as int].0@ == key@);
            lemma_map_of_at(old_e, i as int);
            assert forall|a: int, b: int| 0 <= a < b < ne.len() implies str_lt(
                #[trigger] keys_of(ne)[a],
                #[trigger] keys_of(ne)[b],
            ) by {
                let oa = if a < i {
                    a
                } else {
                    a + 1
                };
                let ob = if b < i {
                    b
                } else {
                    b + 1
                };
                assert(keys_of(ne)[a] == keys_of(old_e)[oa]);
                assert(keys_of(ne)[b] == keys_of(old_e)[ob]);
            }
            assert forall|x: Seq<char>|
                #[trigger] map_of(ne).dom().contains(x) == map_of(old_e).remove(
                    key@,
                ).dom().contains(x) by {
                if x != key@ && map_of(old_e).dom().contains(x) {
                    let j = choose|j: int| 0 <= j < old_e.len() && (#[trigger] old_e[j]).0@ == x;
                    if j < i {
                        assert(ne[j].0@ == x);
                    } else if j > i {
                        assert(ne[j - 1].0@ == x);
                    }
                }
                if map_of(ne).dom().contains(x) {
                    let j = choose|j: int| 0 <= j < ne.len() && (#[trigger] ne[j]).0@ == x;
                    let oj = if j < i {
                        j
                    } else {
                        j + 1
                    };
                    assert(old_e[oj].0@ == x);
                    if x == key@ {
                        lemma_index_unique(old_e, i as int, oj);
                    }
                }
            }
            assert forall|x: Seq<char>| #[trigger] map_of(ne).dom().contains(x) implies map_of(
                ne,
            )[x] == map_of(old_e).remove(key@)[x] by {
                let j = choose|j: int| 0 <= j < ne.len() && (#[trigger] ne[j]).0@ == x;
                lemma_map_of_at(ne, j);
                let oj = if j < i {
                    j
                } else {
                    j + 1
                };
                assert(old_e[oj].0@ == x);
                lemma_map_of_at(old_e, oj);
            }
            assert(map_of(ne) =~= map_of(old_e).remove(key@));
        }
        self.entries = e;
        Some(v)
    }
}

impl StrMap<String> {
    /// A copy of the map.
    pub fn duplicate(&self) -> (r: Self)
        ensures
            r.entries() == self.entries(),
            r.map() == self.map(),
    {
        proof {
            use_type_invariant(self);
        }
        let mut e: Vec<(String, String)> = Vec::new();
        let mut i: usize = 0;
        while i < self.entries.len()
            invariant
                i <= self.entries@.len(),
                e@ == self.entries@.take(i as int),
            decreases self.entries@.len() - i,
        {
            e.push((self.entries[i].0.clone(), self.entries[i].1.clone()));
            i = i + 1;
            assert(e@ =~= self.entries@.take(i as int));
        }
        assert(e@ =~= self.entries@);
        StrMap { entries: e }
    }
}

/// What a map gives back of a write: once `inserted` is `m` after
/// `insert(k, v)` (as `insert` ensures) and `removed` is `m` after
/// `remove(k)`, `get(k)` gives `v` on the first and nothing on the second,
/// and every other key reads as in `m`.
pub proof fn lemma_read_after_write<V>(
    m: StrMap<V>,
    inserted: StrMap<V>,
    removed: StrMap<V>,
    k: Seq<char>,
    v: V,
    other: Seq<char>,
)
    requires
        inserted.map() == m.map().insert(k, v),
        removed.map() == m.map().remove(k),
        other != k,
    ensures
        inserted.map().dom().contains(k) && inserted.map()[k] == v,
        !removed.map().dom().contains(k),
        inserted.map().dom().contains(other) == m.map().dom().contains(other),
        removed.map().dom().contains(other) == m.map().dom().contains(other),
        m.map().dom().contains(other) ==> inserted.map()[other] == m.map()[other]
            && removed.map()[other] == m.map()[other],
{
}

} // verus!

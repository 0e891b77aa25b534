//! A map keyed by nickname, kept as a vector of entries with distinct keys.
//!
//! vstd's specification of `std::collections::HashMap` ties a `String` key to
//! its characters only through a key model that it leaves unproved for
//! `String`, so nothing about lookups by name could be proved through it, and
//! vstd's `StringHashMap` has no way to change a stored value in place or to
//! take it back out. This map states every operation over the `Map` from
//! character sequences to values, and proves it.

use vstd::prelude::*;
use crate::text::str_eq;

verus! {

/// The key of the entry at index `i`.
pub open spec fn key_at<V>(s: Seq<(String, V)>, i: int) -> Seq<char> {
    s[i].0@
}

/// No two entries share a key.
pub open spec fn distinct_keys<V>(s: Seq<(String, V)>) -> bool {
    forall|i: int, j: int|
        0 <= i < s.len() && 0 <= j < s.len() && i != j ==> key_at(s, i) != key_at(s, j)
}

/// Some entry has key `k`.
pub open spec fn has_key<V>(s: Seq<(String, V)>, k: Seq<char>) -> bool {
    exists|i: int| 0 <= i < s.len() && key_at(s, i) == k
}

/// The map that a sequence of entries stands for.
pub open spec fn entries_map<V>(s: Seq<(String, V)>) -> Map<Seq<char>, V> {
    Map::new(
        |k: Seq<char>| has_key(s, k),
        |k: Seq<char>| s[choose|i: int| 0 <= i < s.len() && key_at(s, i) == k].1,
    )
}

/// The entry at index `i` is what the map holds for its key.
pub proof fn lemma_entries_map_at<V>(s: Seq<(String, V)>, i: int)
    requires
        distinct_keys(s),
        0 <= i < s.len(),
    ensures
        entries_map(s).contains_key(key_at(s, i)),
        entries_map(s)[key_at(s, i)] == s[i].1,
{
    let k = key_at(s, i);
    assert(has_key(s, k));
    let j = choose|j: int| 0 <= j < s.len() && key_at(s, j) == k;
    assert(j == i);
}

/// Appending an entry with a fresh key inserts it into the map.
pub proof fn lemma_entries_map_push<V>(s: Seq<(String, V)>, e: (String, V))
    requires
        distinct_keys(s),
        !has_key(s, e.0@),
    ensures
        distinct_keys(s.push(e)),
        entries_map(s.push(e)) =~= entries_map(s).insert(e.0@, e.1),
{
    let t = s.push(e);
    assert forall|i: int, j: int|
        0 <= i < t.len() && 0 <= j < t.len() && i != j implies key_at(t, i) != key_at(t, j) by {
        if i < s.len() && j < s.len() {
            assert(key_at(t, i) == key_at(s, i));
            assert(key_at(t, j) == key_at(s, j));
        } else if i < s.len() {
            assert(key_at(t, i) == key_at(s, i));
        } else if j < s.len() {
            assert(key_at(t, j) == key_at(s, j));
        }
    }
    let m = entries_map(s).insert(e.0@, e.1);
    assert forall|k: Seq<char>| #[trigger] has_key(t, k) <==> m.contains_key(k) by {
        if has_key(t, k) {
            let i = choose|i: int| 0 <= i < t.len() && key_at(t, i) == k;
            if i < s.len() {
                assert(key_at(s, i) == k);
            }
        }
        if has_key(s, k) {
            let i = choose|i: int| 0 <= i < s.len() && key_at(s, i) == k;
            assert(key_at(t, i) == k);
        }
        if k == e.0@ {
            assert(key_at(t, s.len() as int) == k);
        }
    }
    assert forall|k: Seq<char>| #[trigger] entries_map(t).contains_key(k) implies entries_map(t)[k]
        == m[k] by {
        let i = choose|i: int| 0 <= i < t.len() && key_at(t, i) == k;
        lemma_entries_map_at(t, i);
        if i < s.len() {
            assert(key_at(s, i) == k);
            lemma_entries_map_at(s, i);
        }
    }
}

/// Overwriting an entry with one of the same key replaces its value in the map.
pub proof fn lemma_entries_map_update<V>(s: Seq<(String, V)>, i: int, e: (String, V))
    requires
        distinct_keys(s),
        0 <= i < s.len(),
        e.0@ == key_at(s, i),
    ensures
        distinct_keys(s.update(i, e)),
        entries_map(s.update(i, e)) =~= entries_map(s).insert(e.0@, e.1),
{
    let t = s.update(i, e);
    assert forall|a: int| 0 <= a < t.len() implies #[trigger] key_at(t, a) == key_at(s, a) by {}
    let m = entries_map(s).insert(e.0@, e.1);
    assert forall|k: Seq<char>| #[trigger] has_key(t, k) <==> m.contains_key(k) by {
        if has_key(t, k) {
            let a = choose|a: int| 0 <= a < t.len() && key_at(t, a) == k;
            assert(key_at(s, a) == k);
        }
        if has_key(s, k) {
            let a = choose|a: int| 0 <= a < s.len() && key_at(s, a) == k;
            assert(key_at(t, a) == k);
        }
    }
    assert forall|k: Seq<char>| #[trigger] entries_map(t).contains_key(k) implies entries_map(t)[k]
        == m[k] by {
        let a = choose|a: int| 0 <= a < t.len() && key_at(t, a) == k;
        lemma_entries_map_at(t, a);
        if a != i {
            assert(key_at(s, a) == k);
            lemma_entries_map_at(s, a);
        }
    }
}

/// Removing the entry at index `i` removes its key from the map.
pub proof fn lemma_entries_map_remove<V>(s: Seq<(String, V)>, i: int)
    requires
        distinct_keys(s),
        0 <= i < s.len(),
    ensures
        distinct_keys(s.remove(i)),
        entries_map(s.remove(i)) =~= entries_map(s).remove(key_at(s, i)),
{
    let t = s.remove(i);
    assert forall|a: int| 0 <= a < t.len() implies #[trigger] key_at(t, a) == key_at(
        s,
        if a < i {
            a
        } else {
            a + 1
        },
    ) by {}
    assert forall|a: int, b: int|
        0 <= a < t.len() && 0 <= b < t.len() && a != b implies key_at(t, a) != key_at(t, b) by {
        let a2 = if a < i {
            a
        } else {
            a + 1
        };
        let b2 = if b < i {
            b
        } else {
            b + 1
        };
        assert(key_at(t, a) == key_at(s, a2));
        assert(key_at(t, b) == key_at(s, b2));
    }
    let m = entries_map(s).remove(key_at(s, i));
    assert forall|k: Seq<char>| #[trigger] has_key(t, k) <==> m.contains_key(k) by {
        if has_key(t, k) {
            let a = choose|a: int| 0 <= a < t.len() && key_at(t, a) == k;
            let a2 = if a < i {
                a
            } else {
                a + 1
            };
            assert(key_at(s, a2) == k);
        }
        if has_key(s, k) && k != key_at(s, i) {
            let a = choose|a: int| 0 <= a < s.len() && key_at(s, a) == k;
            if a < i {
                assert(key_at(t, a) == k);
            } else {
                assert(key_at(t, a - 1) == k);
            }
        }
    }
    assert forall|k: Seq<char>| #[trigger] entries_map(t).contains_key(k) implies entries_map(t)[k]
        == m[k] by {
        let a = choose|a: int| 0 <= a < t.len() && key_at(t, a) == k;
        let a2 = if a < i {
            a
        } else {
            a + 1
        };
        lemma_entries_map_at(t, a);
        assert(key_at(s, a2) == k);
        lemma_entries_map_at(s, a2);
    }
}

/// A test that decides, value by value, what [`NickMap::retain`] keeps.
pub trait KeepTest<V> {
    /// Whether a value is kept.
    spec fn keeps(&self, v: V) -> bool;

    /// Computes [`KeepTest::keeps`].
    fn test(&self, v: &V) -> (r: bool)
        ensures
            r == self.keeps(*v),
    ;
}

/// The part of `m` whose values `p` keeps.
pub open spec fn kept_map<V, P: KeepTest<V>>(m: Map<Seq<char>, V>, p: P) -> Map<Seq<char>, V> {
    Map::new(|k: Seq<char>| m.contains_key(k) && p.keeps(m[k]), |k: Seq<char>| m[k])
}

/// A map from nicknames to values. Iteration follows insertion order, except
/// that removals close the gap they leave.
pub struct NickMap<V> {
    entries: Vec<(String, V)>,
}

impl<V> NickMap<V> {
    #[verifier::type_invariant]
    spec fn keys_distinct(self) -> bool {
        distinct_keys(self.entries@)
    }

    /// The keys in iteration order.
    pub closed spec fn order(self) -> Seq<Seq<char>> {
        Seq::new(self.entries@.len(), |i: int| key_at(self.entries@, i))
    }
}

impl<V> View for NickMap<V> {
    type V = Map<Seq<char>, V>;

    closed spec fn view(&self) -> Map<Seq<char>, V> {
        entries_map(self.entries@)
    }
}

impl<V> NickMap<V> {
    /// An empty map.
    pub fn new() -> (r: Self)
        ensures
            r@ == Map::<Seq<char>, V>::empty(),
            r.order() == Seq::<Seq<char>>::empty(),
    {
        let r = NickMap { entries: Vec::new() };
        assert(r@ =~= Map::<Seq<char>, V>::empty());
        assert(r.order() =~= Seq::<Seq<char>>::empty());
        r
    }

    /// References to the values, in the map's order. The order lists each key
    /// of the map exactly once.
    pub fn values(&self) -> (r: Vec<&V>)
        ensures
            self.order().no_duplicates(),
            forall|k: Seq<char>| self@.contains_key(k) <==> #[trigger] self.order().contains(k),
            r@.len() == self.order().len(),
            forall|i: int| 0 <= i < r@.len() ==> *r@[i] == self@[#[trigger] self.order()[i]],
    {
        proof {
            use_type_invariant(self);
        }
        let o = Ghost(self.order());
        assert forall|k: Seq<char>| self@.contains_key(k) <==> #[trigger] o@.contains(k) by {
            if self@.contains_key(k) {
                let i = choose|i: int| 0 <= i < self.entries@.len() && key_at(self.entries@, i) == k;
                assert(o@[i] == k);
            }
            if o@.contains(k) {
                let i = choose|i: int| 0 <= i < o@.len() && o@[i] == k;
                assert(key_at(self.entries@, i) == k);
            }
        }
        let n = self.entries.len();
        let mut r: Vec<&V> = Vec::new();
        let mut i: usize = 0;
        while i < n
            invariant
                n == self.entries@.len(),
                o@ == self.order(),
                distinct_keys(self.entries@),
                i <= n,
                r@.len() == i,
                forall|j: int| 0 <= j < i ==> *r@[j] == self@[#[trigger] o@[j]],
            decreases n - i,
        {
            proof {
                lemma_entries_map_at(self.entries@, i as int);
            }
            r.push(&self.entries[i].1);
            i = i + 1;
        }
        r
    }

    /// The index of the entry for `k`, if there is one.
    fn find(&self, k: &str) -> (r: Option<usize>)
        ensures
            match r {
                Some(i) => i < self.entries@.len() && key_at(self.entries@, i as int) == k@,
                None => !has_key(self.entries@, k@),
            },
    {
        let n = self.entries.len();
        let mut i: usize = 0;
        while i < n
            invariant
                n == self.entries@.len(),
                i <= n,
                forall|j: int| 0 <= j < i ==> key_at(self.entries@, j) != k@,
            decreases n - i,
        {
            if str_eq(self.entries[i].0.as_str(), k) {
                return Some(i);
            }
            i = i + 1;
        }
        None
    }

    /// Whether `k` has an entry.
    pub fn contains_key(&self, k: &str) -> (r: bool)
        ensures
            r == self@.contains_key(k@),
    {
        self.find(k).is_some()
    }

    /// The value stored for `k`.
    pub fn get(&self, k: &str) -> (r: Option<&V>)
        ensures
            match r {
                Some(v) => self@.contains_key(k@) && *v == self@[k@],
                None => !self@.contains_key(k@),
            },
    {
        proof {
            use_type_invariant(self);
        }
        match self.find(k) {
            Some(i) => {
                proof {
                    lemma_entries_map_at(self.entries@, i as int);
                }
                Some(&self.entries[i].1)
            },
            None => None,
        }
    }

    /// Stores `v` under `k`, replacing what was there. A new key goes last in
    /// the order; an existing key keeps its place.
    pub fn insert(&mut self, k: String, v: V)
        ensures
            final(self)@ == old(self)@.insert(k@, v),
            old(self)@.contains_key(k@) ==> final(self).order() == old(self).order(),
            !old(self)@.contains_key(k@) ==> final(self).order() == old(self).order().push(k@),
    {
        proof {
            use_type_invariant(&*self);
        }
        let found = self.find(k.as_str());
        let mut entries: Vec<(String, V)> = Vec::new();
        std::mem::swap(&mut entries, &mut self.entries);
        match found {
            Some(i) => {
                proof {
                    lemma_entries_map_update(entries@, i as int, (k, v));
                }
                entries.set(i, (k, v));
            },
            None => {
                proof {
                    lemma_entries_map_push(entries@, (k, v));
                }
                entries.push((k, v));
            },
        }
        self.entries = entries;
        assert(found is Some ==> self.order() =~= old(self).order());
        assert(found is None ==> self.order() =~= old(self).order().push(k@));
    }

    /// Removes the entry for `k` and hands its value back.
    pub fn take(&mut self, k: &str) -> (r: Option<V>)
        ensures
            final(self)@ == old(self)@.remove(k@),
            match r {
                Some(v) => old(self)@.contains_key(k@) && v == old(self)@[k@],
                None => !old(self)@.contains_key(k@),
            },
    {
        proof {
            use_type_invariant(&*self);
        }
        match self.find(k) {
            Some(i) => {
                proof {
                    lemma_entries_map_at(self.entries@, i as int);
                    lemma_entries_map_remove(self.entries@, i as int);
                }
                let mut entries: Vec<(String, V)> = Vec::new();
                std::mem::swap(&mut entries, &mut self.entries);
                let e = entries.remove(i);
                self.entries = entries;
                Some(e.1)
            },
            None => {
                assert(old(self)@.remove(k@) =~= old(self)@);
                None
            },
        }
    }

    /// Drops every entry whose value `p` does not keep.
    pub fn retain<P: KeepTest<V>>(&mut self, p: &P)
        ensures
            final(self)@ == kept_map(old(self)@, *p),
    {
        proof {
            use_type_invariant(&*self);
        }
        let ghost orig = self.entries@;
        let mut rest: Vec<(String, V)> = Vec::new();
        std::mem::swap(&mut rest, &mut self.entries);
        let mut kept: Vec<(String, V)> = Vec::new();
        let ghost mut j: int = 0;
        assert(entries_map(kept@) =~= kept_map(entries_map(orig.take(0)), *p));
        while rest.len() > 0
            invariant
                0 <= j <= orig.len(),
                rest@ == orig.subrange(j, orig.len() as int),
                distinct_keys(orig),
                distinct_keys(kept@),
                forall|k: Seq<char>| has_key(kept@, k) ==> has_key(orig.take(j), k),
                entries_map(kept@) == kept_map(entries_map(orig.take(j)), *p),
            decreases rest.len(),
        {
            let e = rest.remove(0);
            let ghost prefix = orig.take(j);
            let ghost m = entries_map(prefix);
            proof {
                assert(e == orig[j]);
                assert(orig.take(j + 1) =~= prefix.push(e));
                assert(distinct_keys(prefix)) by {
                    assert forall|a: int, b: int|
                        0 <= a < prefix.len() && 0 <= b < prefix.len() && a != b implies key_at(
                        prefix,
                        a,
                    ) != key_at(prefix, b) by {
                        assert(key_at(prefix, a) == key_at(orig, a));
                        assert(key_at(prefix, b) == key_at(orig, b));
                    }
                }
                assert(!has_key(prefix, e.0@)) by {
                    if has_key(prefix, e.0@) {
                        let a = choose|a: int| 0 <= a < prefix.len() && key_at(prefix, a) == e.0@;
                        assert(key_at(orig, a) == key_at(orig, j));
                    }
                }
                lemma_entries_map_push(prefix, e);
            }
            let ghost old_kept = kept@;
            let keep = p.test(&e.1);
            if keep {
                proof {
                    lemma_entries_map_push(kept@, e);
                }
                kept.push(e);
            }
            proof {
                j = j + 1;
                let m2 = entries_map(orig.take(j));
                assert(m2 =~= m.insert(e.0@, e.1));
                assert(forall|k: Seq<char>| has_key(kept@, k) ==> has_key(orig.take(j), k)) by {
                    assert forall|k: Seq<char>| has_key(kept@, k) implies has_key(
                        orig.take(j),
                        k,
                    ) by {
                        if k == e.0@ {
                            assert(key_at(orig.take(j), j - 1) == k);
                        } else {
                            let c = choose|c: int| 0 <= c < kept@.len() && key_at(kept@, c) == k;
                            assert(c < old_kept.len() && key_at(old_kept, c) == k);
                            assert(has_key(old_kept, k));
                            assert(has_key(prefix, k));
                            let a = choose|a: int| 0 <= a < prefix.len() && key_at(prefix, a) == k;
                            assert(key_at(orig.take(j), a) == k);
                        }
                    }
                }
                assert(entries_map(kept@) =~= kept_map(m2, *p));
            }
        }
        proof {
            assert(orig.take(j) =~= orig);
        }
        self.entries = kept;
    }

    /// Removes the entry for `k`, if any.
    pub fn remove(&mut self, k: &str)
        ensures
            final(self)@ == old(self)@.remove(k@),
    {
        let _ = self.take(k);
    }
}

} // verus!

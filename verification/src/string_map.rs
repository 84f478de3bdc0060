//! A map keyed by strings.
use vstd::prelude::*;

use crate::text::str_eq;

verus! {

/// The map that a sequence of key and value pairs describes, a later pair
/// taking the place of an earlier one with the same key.
pub open spec fn map_of<V>(pairs: Seq<(Seq<char>, V)>) -> Map<Seq<char>, V>
    decreases pairs.len(),
{
    if pairs.len() == 0 {
        Map::empty()
    } else {
        map_of(pairs.drop_last()).insert(pairs.last().0, pairs.last().1)
    }
}

/// Whether no key occurs twice.
pub open spec fn distinct_keys<V>(pairs: Seq<(Seq<char>, V)>) -> bool {
    forall|i: int, j: int| 0 <= i < j < pairs.len() ==> (#[trigger] pairs[i]).0 != (#[trigger] pairs[j]).0
}

/// A map from strings to values that remembers the order in which its keys
/// came in. No key occurs twice.
#[derive(Debug)]
pub struct StringMap<V> {
    entries: Vec<(String, V)>,
}

impl<V> View for StringMap<V> {
    type V = Map<Seq<char>, V>;

    closed spec fn view(&self) -> Map<Seq<char>, V> {
        map_of(self.pairs())
    }
}

impl<V: DeepView> DeepView for StringMap<V> {
    type V = Map<Seq<char>, V::V>;

    open spec fn deep_view(&self) -> Map<Seq<char>, V::V> {
        self@.map_values(|v: V| v.deep_view())
    }
}

/// A key that occurs at one place maps to the value at that place.
proof fn lemma_present<V>(pairs: Seq<(Seq<char>, V)>, i: int)
    requires
        distinct_keys(pairs),
        0 <= i < pairs.len(),
    ensures
        map_of(pairs).contains_key(pairs[i].0),
        map_of(pairs)[pairs[i].0] == pairs[i].1,
    decreases pairs.len(),
{
    if i < pairs.len() - 1 {
        lemma_present(pairs.drop_last(), i);
        assert(pairs.drop_last()[i] == pairs[i]);
        assert(pairs[i].0 != pairs[pairs.len() - 1].0);
    }
}

/// A key that occurs nowhere is not in the map.
proof fn lemma_absent<V>(pairs: Seq<(Seq<char>, V)>, key: Seq<char>)
    requires
        forall|i: int| 0 <= i < pairs.len() ==> (#[trigger] pairs[i]).0 != key,
    ensures
        !map_of(pairs).contains_key(key),
    decreases pairs.len(),
{
    if pairs.len() > 0 {
        assert(pairs[pairs.len() - 1].0 != key);
        assert forall|i: int| 0 <= i < pairs.drop_last().len() implies (
        #[trigger] pairs.drop_last()[i]).0 != key by {
            assert(pairs.drop_last()[i] == pairs[i]);
        }
        lemma_absent(pairs.drop_last(), key);
    }
}

/// Exchanging the value at one place changes the map at that key alone.
proof fn lemma_update<V>(pairs: Seq<(Seq<char>, V)>, i: int, value: V)
    requires
        distinct_keys(pairs),
        0 <= i < pairs.len(),
    ensures
        map_of(pairs.update(i, (pairs[i].0, value))) == map_of(pairs).insert(pairs[i].0, value),
    decreases pairs.len(),
{
    let updated = pairs.update(i, (pairs[i].0, value));
    let front = pairs.drop_last();
    if i < pairs.len() - 1 {
        lemma_update(front, i, value);
        assert(updated.drop_last() =~= front.update(i, (front[i].0, value)));
        assert(pairs[i].0 != pairs[pairs.len() - 1].0);
        assert(map_of(updated) =~= map_of(pairs).insert(pairs[i].0, value));
    } else {
        assert(updated.drop_last() =~= front);
        assert(map_of(updated) =~= map_of(pairs).insert(pairs[i].0, value));
    }
}

/// A map has as many keys as there are pairs with distinct keys.
proof fn lemma_len<V>(pairs: Seq<(Seq<char>, V)>)
    requires
        distinct_keys(pairs),
    ensures
        map_of(pairs).dom().finite(),
        map_of(pairs).len() == pairs.len(),
    decreases pairs.len(),
{
    if pairs.len() > 0 {
        let front = pairs.drop_last();
        assert forall|i: int| 0 <= i < front.len() implies (#[trigger] front[i]).0
            != pairs.last().0 by {
            assert(pairs[i].0 != pairs[pairs.len() - 1].0);
        }
        lemma_len(front);
        lemma_absent(front, pairs.last().0);
    }
}

impl<V> StringMap<V> {
    #[verifier::type_invariant]
    spec fn well_formed(self) -> bool {
        distinct_keys(self.pairs())
    }

    /// The keys and values in the order in which the keys came in.
    pub closed spec fn pairs(self) -> Seq<(Seq<char>, V)> {
        Seq::new(self.entries@.len(), |i: int| (self.entries@[i].0@, self.entries@[i].1))
    }

    /// An empty map.
    pub fn new() -> (map: Self)
        ensures
            map.pairs() == Seq::<(Seq<char>, V)>::empty(),
            map@ == Map::<Seq<char>, V>::empty(),
    {
        let map = StringMap { entries: Vec::new() };
        assert(map.pairs() =~= Seq::<(Seq<char>, V)>::empty());
        map
    }

    /// How many keys the map holds.
    pub fn len(&self) -> (n: usize)
        ensures
            n == self.pairs().len(),
            n == self@.len(),
            distinct_keys(self.pairs()),
            self@ == map_of(self.pairs()),
    {
        proof {
            use_type_invariant(self);
            lemma_len(self.pairs());
        }
        self.entries.len()
    }

    /// Whether the map holds no key.
    pub fn is_empty(&self) -> (empty: bool)
        ensures
            empty == (self.pairs().len() == 0),
            empty == (self@ == Map::<Seq<char>, V>::empty()),
    {
        proof {
            use_type_invariant(self);
            if self.pairs().len() > 0 {
                lemma_present(self.pairs(), 0);
            }
        }
        self.entries.len() == 0
    }

    /// The `i`-th key and value, in the order in which the keys came in.
    pub fn entry(&self, i: usize) -> (pair: (&String, &V))
        requires
            i < self.pairs().len(),
        ensures
            pair.0@ == self.pairs()[i as int].0,
            *pair.1 == self.pairs()[i as int].1,
    {
        let pair = &self.entries[i];
        (&pair.0, &pair.1)
    }

    /// The place at which a key stands, if the map holds it.
    fn position(&self, key: &str) -> (at: Option<usize>)
        ensures
            match at {
                Some(i) => i < self.pairs().len() && self.pairs()[i as int].0 == key@,
                None => forall|j: int|
                    0 <= j < self.pairs().len() ==> (#[trigger] self.pairs()[j]).0 != key@,
            },
    {
        let mut i: usize = 0;
        while i < self.entries.len()
            invariant
                i <= self.entries@.len(),
                forall|j: int| 0 <= j < i ==> (#[trigger] self.pairs()[j]).0 != key@,
            decreases self.entries@.len() - i,
        {
            if str_eq(self.entries[i].0.as_str(), key) {
                return Some(i);
            }
            i += 1;
        }
        None
    }

    /// The value for a key, if the map holds it.
    pub fn get(&self, key: &str) -> (value: Option<&V>)
        ensures
            match value {
                Some(v) => self@.contains_key(key@) && *v == self@[key@],
                None => !self@.contains_key(key@),
            },
    {
        proof {
            use_type_invariant(self);
        }
        match self.position(key) {
            Some(i) => {
                proof {
                    lemma_present(self.pairs(), i as int);
                }
                Some(&self.entries[i].1)
            },
            None => {
                proof {
                    lemma_absent(self.pairs(), key@);
                }
                None
            },
        }
    }

    /// Whether the map holds a key.
    pub fn contains_key(&self, key: &str) -> (holds: bool)
        ensures
            holds == self@.contains_key(key@),
    {
        self.get(key).is_some()
    }

    /// Sets the value for a key, in place of any that the map held for it.
    pub fn insert(&mut self, key: String, value: V)
        ensures
            final(self)@ == old(self)@.insert(key@, value),
            !old(self)@.contains_key(key@) ==> final(self).pairs() == old(self).pairs().push(
                (key@, value),
            ),
            old(self)@.contains_key(key@) ==> exists|i: int|
                0 <= i < old(self).pairs().len() && (#[trigger] old(self).pairs()[i]).0 == key@
                    && final(self).pairs() == old(self).pairs().update(i, (key@, value)),
    {
        proof {
            use_type_invariant(&*self);
        }
        let ghost before = self.pairs();
        let at = self.position(key.as_str());
        let mut entries: Vec<(String, V)> = Vec::new();
        core::mem::swap(&mut entries, &mut self.entries);
        let ghost ghost_key = key@;
        match at {
            Some(i) => {
                entries[i] = (key, value);
                let ghost after = StringMap { entries };
                proof {
                    assert(after.pairs() =~= before.update(i as int, (before[i as int].0, value)));
                    lemma_update(before, i as int, value);
                    lemma_present(before, i as int);
                }
            },
            None => {
                entries.push((key, value));
                let ghost after = StringMap { entries };
                proof {
                    assert(after.pairs() =~= before.push((ghost_key, value)));
                    assert(after.pairs().drop_last() =~= before);
                    lemma_absent(before, ghost_key);
                }
            },
        }
        self.entries = entries;
    }
}

impl<V: Clone> Clone for StringMap<V> {
    fn clone(&self) -> (copy: Self)
        ensures
            copy.pairs().len() == self.pairs().len(),
            forall|i: int|
                0 <= i < self.pairs().len() ==> (#[trigger] copy.pairs()[i]).0
                    == self.pairs()[i].0 && cloned::<V>(self.pairs()[i].1, copy.pairs()[i].1),
    {
        proof {
            use_type_invariant(self);
        }
        let mut entries: Vec<(String, V)> = Vec::new();
        let mut i: usize = 0;
        while i < self.entries.len()
            invariant
                i <= self.entries@.len(),
                entries@.len() == i,
                forall|j: int|
                    0 <= j < i ==> (#[trigger] entries@[j]).0@ == self.entries@[j].0@ && cloned::<V>(
                        self.entries@[j].1,
                        entries@[j].1,
                    ),
            decreases self.entries@.len() - i,
        {
            entries.push((self.entries[i].0.clone(), self.entries[i].1.clone()));
            i += 1;
        }
        let ghost pairs = StringMap { entries }.pairs();
        assert forall|a: int, b: int| 0 <= a < b < pairs.len() implies (#[trigger] pairs[a]).0 != (
        #[trigger] pairs[b]).0 by {
            assert(pairs[a].0 == self.pairs()[a].0);
            assert(pairs[b].0 == self.pairs()[b].0);
        }
        StringMap { entries }
    }
}

/// Maps with the same keys in the same order and with values that show the same
/// show the same as a whole.
pub proof fn lemma_same_entries<V: DeepView>(a: StringMap<V>, b: StringMap<V>)
    requires
        a.pairs().len() == b.pairs().len(),
        forall|i: int|
            0 <= i < a.pairs().len() ==> (#[trigger] a.pairs()[i]).0 == b.pairs()[i].0
                && a.pairs()[i].1.deep_view() == b.pairs()[i].1.deep_view(),
    ensures
        a.deep_view() == b.deep_view(),
{
    lemma_same_pairs(a.pairs(), b.pairs());
}

/// As [`lemma_same_entries`], for the pairs by themselves.
proof fn lemma_same_pairs<V: DeepView>(a: Seq<(Seq<char>, V)>, b: Seq<(Seq<char>, V)>)
    requires
        a.len() == b.len(),
        forall|i: int|
            0 <= i < a.len() ==> (#[trigger] a[i]).0 == b[i].0 && a[i].1.deep_view()
                == b[i].1.deep_view(),
    ensures
        map_of(a).map_values(|v: V| v.deep_view()) == map_of(b).map_values(|v: V| v.deep_view()),
    decreases a.len(),
{
    let show = |v: V| v.deep_view();
    if a.len() > 0 {
        let last = a.len() - 1;
        assert(a[last].0 == b[last].0);
        assert forall|i: int| 0 <= i < a.drop_last().len() implies (#[trigger] a.drop_last()[i]).0
            == b.drop_last()[i].0 && a.drop_last()[i].1.deep_view()
            == b.drop_last()[i].1.deep_view() by {
            assert(a.drop_last()[i] == a[i]);
        }
        lemma_same_pairs(a.drop_last(), b.drop_last());
        assert(map_of(a).map_values(show) =~= map_of(a.drop_last()).map_values(show).insert(
            a[last].0,
            a[last].1.deep_view(),
        ));
        assert(map_of(b).map_values(show) =~= map_of(b.drop_last()).map_values(show).insert(
            b[last].0,
            b[last].1.deep_view(),
        ));
    } else {
        assert(map_of(a).map_values(show) =~= map_of(b).map_values(show));
    }
}

/// A map is seen with every key that it holds and what is seen of its value.
pub proof fn string_map_shows_every_entry<V: DeepView>(map: StringMap<V>, key: Seq<char>)
    ensures
        map.deep_view().contains_key(key) <==> map@.contains_key(key),
        map@.contains_key(key) ==> map.deep_view()[key] == map@[key].deep_view(),
{
}

/// The pairs of a map with distinct keys are what it holds: each pair is found under
/// its key.
pub proof fn every_pair_is_found<V>(pairs: Seq<(Seq<char>, V)>, i: int)
    requires
        forall|a: int, b: int|
            0 <= a < b < pairs.len() ==> (#[trigger] pairs[a]).0 != (#[trigger] pairs[b]).0,
        0 <= i < pairs.len(),
    ensures
        map_of(pairs).contains_key(pairs[i].0),
        map_of(pairs)[pairs[i].0] == pairs[i].1,
{
    lemma_present(pairs, i);
}

} // verus!

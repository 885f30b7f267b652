//! A small map from strings to values that keeps its entries in the order in
//! which their keys were first inserted.
//!
//! The map is an association list.  Its model is the sequence of its entries,
//! `pairs()`; its mathematical value, `view()`, is the `Map` that this sequence
//! stands for.  Callers that look keys up reason about the `Map`; callers that
//! walk the entries by index reason about the sequence.
use vstd::prelude::*;

verus! {

/// The map that a list of pairs stands for.  Where a key occurs more than
/// once, its last pair counts.
pub open spec fn map_of<V>(pairs: Seq<(Seq<char>, V)>) -> Map<Seq<char>, V>
    decreases pairs.len(),
{
    if pairs.len() == 0 {
        Map::empty()
    } else {
        map_of(pairs.drop_last()).insert(pairs.last().0, pairs.last().1)
    }
}

/// No key occurs twice in `pairs`.
pub open spec fn distinct_keys<V>(pairs: Seq<(Seq<char>, V)>) -> bool {
    forall|i: int, j: int| 0 <= i < j < pairs.len() ==> pairs[i].0 != pairs[j].0
}

/// The key at place `i` does not occur again behind place `i`.
pub open spec fn last_of_its_key<V>(pairs: Seq<(Seq<char>, V)>, i: int) -> bool {
    forall|j: int| i < j < pairs.len() ==> pairs[j].0 != pairs[i].0
}

/// `pairs` with `f` applied to every value.
pub open spec fn with_values<V>(pairs: Seq<(Seq<char>, V)>, f: spec_fn(V) -> V) -> Seq<
    (Seq<char>, V),
> {
    Seq::new(pairs.len(), |i: int| (pairs[i].0, f(pairs[i].1)))
}

/// A key is in the map exactly if it is the key of some pair.
pub proof fn lemma_map_of_keys<V>(pairs: Seq<(Seq<char>, V)>, k: Seq<char>)
    ensures
        map_of(pairs).contains_key(k) <==> exists|i: int| 0 <= i < pairs.len() && pairs[i].0 == k,
        map_of(pairs).dom().finite(),
    decreases pairs.len(),
{
    if pairs.len() > 0 {
        let front = pairs.drop_last();
        lemma_map_of_keys(front, k);
        if map_of(pairs).contains_key(k) {
            if pairs.last().0 == k {
                assert(pairs[pairs.len() - 1].0 == k);
            } else {
                let i = choose|i: int| 0 <= i < front.len() && front[i].0 == k;
                assert(pairs[i].0 == k);
            }
        }
        if exists|i: int| 0 <= i < pairs.len() && pairs[i].0 == k {
            let i = choose|i: int| 0 <= i < pairs.len() && pairs[i].0 == k;
            if i < front.len() {
                assert(front[i].0 == k);
            }
        }
    }
}

/// The map gives each key the value of the last pair that holds the key.
pub proof fn lemma_map_of_at<V>(pairs: Seq<(Seq<char>, V)>, i: int)
    requires
        0 <= i < pairs.len(),
        last_of_its_key(pairs, i),
    ensures
        map_of(pairs).contains_key(pairs[i].0),
        map_of(pairs)[pairs[i].0] == pairs[i].1,
    decreases pairs.len(),
{
    if i < pairs.len() - 1 {
        let front = pairs.drop_last();
        assert(last_of_its_key(front, i)) by {
            assert forall|j: int| i < j < front.len() implies front[j].0 != front[i].0 by {
                assert(pairs[j].0 != pairs[i].0);
            }
        }
        lemma_map_of_at(front, i);
        assert(pairs[pairs.len() - 1].0 != pairs[i].0);
    }
}

/// Replacing the value of the last pair of a key updates the map at that key.
pub proof fn lemma_map_of_update<V>(pairs: Seq<(Seq<char>, V)>, i: int, value: V)
    requires
        0 <= i < pairs.len(),
        last_of_its_key(pairs, i),
    ensures
        map_of(pairs.update(i, (pairs[i].0, value))) == map_of(pairs).insert(pairs[i].0, value),
    decreases pairs.len(),
{
    let after = pairs.update(i, (pairs[i].0, value));
    let front = pairs.drop_last();
    if i == pairs.len() - 1 {
        assert(after.drop_last() =~= front);
        assert(map_of(after) =~= map_of(pairs).insert(pairs[i].0, value));
    } else {
        assert(last_of_its_key(front, i)) by {
            assert forall|j: int| i < j < front.len() implies front[j].0 != front[i].0 by {
                assert(pairs[j].0 != pairs[i].0);
            }
        }
        lemma_map_of_update(front, i, value);
        assert(after.drop_last() =~= front.update(i, (pairs[i].0, value)));
        assert(after.last() == pairs.last());
        assert(pairs[pairs.len() - 1].0 != pairs[i].0);
        assert(map_of(after) =~= map_of(pairs).insert(pairs[i].0, value));
    }
}

/// Applying `f` to every value of the list applies it to every value of the
/// map.
pub proof fn lemma_map_of_with_values<V>(pairs: Seq<(Seq<char>, V)>, f: spec_fn(V) -> V)
    ensures
        map_of(with_values(pairs, f)) == map_of(pairs).map_values(f),
    decreases pairs.len(),
{
    let after = with_values(pairs, f);
    if pairs.len() == 0 {
        assert(map_of(after) =~= map_of(pairs).map_values(f));
    } else {
        let front = pairs.drop_last();
        lemma_map_of_with_values(front, f);
        assert(after.drop_last() =~= with_values(front, f));
        assert(after.last() == (pairs.last().0, f(pairs.last().1)));
        assert(map_of(after) =~= map_of(pairs).map_values(f));
    }
}

/// A list without a repeated key stands for a map with as many keys as the
/// list has pairs, and each of its pairs is the last of its key.
pub proof fn lemma_map_of_distinct<V>(pairs: Seq<(Seq<char>, V)>)
    requires
        distinct_keys(pairs),
    ensures
        map_of(pairs).dom().finite(),
        map_of(pairs).dom().len() == pairs.len(),
        forall|i: int| 0 <= i < pairs.len() ==> last_of_its_key(pairs, i),
    decreases pairs.len(),
{
    if pairs.len() > 0 {
        let front = pairs.drop_last();
        assert(distinct_keys(front)) by {
            assert forall|i: int, j: int| 0 <= i < j < front.len() implies front[i].0 != front[j].0 by {
                assert(pairs[i].0 != pairs[j].0);
            }
        }
        lemma_map_of_distinct(front);
        lemma_map_of_keys(front, pairs.last().0);
        assert(!map_of(front).contains_key(pairs.last().0)) by {
            if map_of(front).contains_key(pairs.last().0) {
                let i = choose|i: int| 0 <= i < front.len() && front[i].0 == pairs.last().0;
                assert(pairs[i].0 != pairs[pairs.len() - 1].0);
            }
        }
    }
}

/// A map from strings to values of the type `V`.
#[derive(Debug, Clone)]
pub struct StringMap<V> {
    entries: Vec<(String, V)>,
}

impl<V: View> View for StringMap<V> {
    type V = Map<Seq<char>, V::V>;

    open spec fn view(&self) -> Map<Seq<char>, V::V> {
        map_of(self.pairs())
    }
}

impl<V: View> StringMap<V> {
    /// The entries in the order in which their keys were first inserted.
    pub closed spec fn pairs(&self) -> Seq<(Seq<char>, V::V)> {
        Seq::new(self.entries@.len(), |i: int| (self.entries@[i].0@, self.entries@[i].1@))
    }

    /// No key is stored twice.  Every map that this module hands out is
    /// well-formed, and its methods keep a map so.
    pub open spec fn wf(&self) -> bool {
        distinct_keys(self.pairs())
    }

    /// A map has finitely many keys.
    pub proof fn lemma_view_is_finite(&self)
        ensures
            self@.dom().finite(),
    {
        lemma_map_of_keys(self.pairs(), Seq::empty());
    }

    /// An empty map.
    pub fn new() -> (r: Self)
        ensures
            r.pairs() == Seq::<(Seq<char>, V::V)>::empty(),
            r@ == Map::<Seq<char>, V::V>::empty(),
            r.wf(),
    {
        let r = StringMap { entries: Vec::new() };
        assert(r.pairs() =~= Seq::<(Seq<char>, V::V)>::empty());
        r
    }

    /// The number of entries.
    pub fn len(&self) -> (r: usize)
        ensures
            r == self.pairs().len(),
            self.wf() ==> r == self@.dom().len(),
    {
        proof {
            if self.wf() {
                lemma_map_of_distinct(self.pairs());
            }
        }
        self.entries.len()
    }

    /// Whether the map holds no entry.
    pub fn is_empty(&self) -> (r: bool)
        ensures
            r == (self.pairs().len() == 0),
            r == (self@ == Map::<Seq<char>, V::V>::empty()),
    {
        proof {
            if self.entries.len() > 0 {
                lemma_map_of_keys(self.pairs(), self.pairs()[0].0);
            }
        }
        self.entries.len() == 0
    }

    /// The last place that holds `key`, if any.
    fn position(&self, key: &String) -> (r: Option<usize>)
        ensures
            match r {
                Some(i) => i < self.pairs().len() && self.pairs()[i as int].0 == key@
                    && last_of_its_key(self.pairs(), i as int) && self@.contains_key(key@),
                None => (forall|j: int| 0 <= j < self.pairs().len() ==> self.pairs()[j].0 != key@)
                    && !self@.contains_key(key@),
            },
    {
        let mut i: usize = self.entries.len();
        while i > 0
            invariant
                i <= self.entries.len(),
                forall|j: int| i <= j < self.entries.len() ==> self.entries[j].0@ != key@,
            decreases i,
        {
            i = i - 1;
            if self.entries[i].0 == *key {
                proof {
                    lemma_map_of_at(self.pairs(), i as int);
                }
                return Some(i);
            }
        }
        proof {
            lemma_map_of_keys(self.pairs(), key@);
        }
        None
    }

    /// Whether `key` has a value.
    pub fn contains_key(&self, key: &String) -> (r: bool)
        ensures
            r == self@.contains_key(key@),
    {
        self.position(key).is_some()
    }

    /// The value stored under `key`, if there is one.
    pub fn get(&self, key: &String) -> (r: Option<&V>)
        ensures
            match r {
                Some(v) => self@.contains_key(key@) && v@ == self@[key@],
                None => !self@.contains_key(key@),
            },
    {
        match self.position(key) {
            Some(i) => {
                proof {
                    lemma_map_of_at(self.pairs(), i as int);
                }
                Some(&self.entries[i].1)
            },
            None => None,
        }
    }

    /// Mutable access to the value stored under `key`, if there is one.  What
    /// the caller leaves in the value is what the map holds afterwards.
    pub fn get_mut(&mut self, key: &String) -> (r: Option<&mut V>)
        ensures
            final(self).pairs().len() == old(self).pairs().len(),
            old(self).wf() ==> final(self).wf(),
            match r {
                Some(v) => old(self)@.contains_key(key@) && (*v)@ == old(self)@[key@] && final(self)@
                    == old(self)@.insert(key@, (*final(v))@),
                None => !old(self)@.contains_key(key@) && final(self).pairs() == old(self).pairs(),
            },
    {
        match self.position(key) {
            Some(i) => {
                proof {
                    lemma_map_of_at(self.pairs(), i as int);
                }
                Some(self.slot(i))
            },
            None => None,
        }
    }

    fn slot(&mut self, i: usize) -> (r: &mut V)
        requires
            i < old(self).pairs().len(),
        ensures
            (*r)@ == old(self).pairs()[i as int].1,
            final(self).pairs() == old(self).pairs().update(
                i as int,
                (old(self).pairs()[i as int].0, (*final(r))@),
            ),
            old(self).wf() ==> final(self).wf(),
            last_of_its_key(old(self).pairs(), i as int) ==> final(self)@ == old(self)@.insert(
                old(self).pairs()[i as int].0,
                (*final(r))@,
            ),
    {
        let ghost before = self.pairs();
        let ghost entries = self.entries@;
        let r = &mut self.entries[i].1;
        proof {
            let after = before.update(i as int, (before[i as int].0, (*final(r))@));
            let new_entries = entries.update(i as int, (entries[i as int].0, *final(r)));
            assert(Seq::new(new_entries.len(), |j: int| (new_entries[j].0@, new_entries[j].1@))
                =~= after);
            if last_of_its_key(before, i as int) {
                lemma_map_of_update(before, i as int, (*final(r))@);
            }
        }
        r
    }

    /// Stores `value` under `key` and hands back the value that `key` had
    /// before, if any.  A new key goes behind the keys that are already there.
    pub fn insert(&mut self, key: String, value: V) -> (r: Option<V>)
        ensures
            final(self)@ == old(self)@.insert(key@, value@),
            old(self).wf() ==> final(self).wf(),
            match r {
                Some(v) => {
                    &&& old(self)@.contains_key(key@)
                    &&& v@ == old(self)@[key@]
                    &&& final(self).pairs().len() == old(self).pairs().len()
                },
                None => {
                    &&& !old(self)@.contains_key(key@)
                    &&& final(self).pairs() == old(self).pairs().push((key@, value@))
                },
            },
    {
        match self.position(&key) {
            Some(i) => {
                let ghost before = self.pairs();
                let ghost new_value = value@;
                proof {
                    lemma_map_of_at(before, i as int);
                    lemma_map_of_update(before, i as int, new_value);
                }
                let mut value = value;
                std::mem::swap(&mut self.entries[i].1, &mut value);
                assert(self.pairs() =~= before.update(i as int, (before[i as int].0, new_value)));
                Some(value)
            },
            None => {
                let ghost before = self.pairs();
                let ghost pair = (key@, value@);
                self.entries.push((key, value));
                assert(self.pairs() =~= before.push(pair));
                assert(self.pairs().drop_last() =~= before);
                None
            },
        }
    }

    /// The key at place `i`.
    pub fn key_at(&self, i: usize) -> (r: &String)
        requires
            i < self.pairs().len(),
        ensures
            r@ == self.pairs()[i as int].0,
    {
        &self.entries[i].0
    }

    /// The value at place `i`.
    pub fn value_at(&self, i: usize) -> (r: &V)
        requires
            i < self.pairs().len(),
        ensures
            r@ == self.pairs()[i as int].1,
    {
        &self.entries[i].1
    }

    /// Mutable access to the value at place `i`.
    pub fn value_at_mut(&mut self, i: usize) -> (r: &mut V)
        requires
            i < old(self).pairs().len(),
        ensures
            old(self).wf() ==> final(self).wf(),
            (*r)@ == old(self).pairs()[i as int].1,
            final(self).pairs() == old(self).pairs().update(
                i as int,
                (old(self).pairs()[i as int].0, (*final(r))@),
            ),
    {
        self.slot(i)
    }

    /// The keys, in the order of the entries.
    pub fn keys(&self) -> (r: Vec<String>)
        ensures
            r@.len() == self.pairs().len(),
            forall|i: int| 0 <= i < r@.len() ==> (#[trigger] r@[i])@ == self.pairs()[i].0,
    {
        let mut out: Vec<String> = Vec::new();
        let mut i: usize = 0;
        while i < self.entries.len()
            invariant
                i <= self.entries.len(),
                out@.len() == i,
                forall|j: int| 0 <= j < i ==> (#[trigger] out@[j])@ == self.entries[j].0@,
            decreases self.entries.len() - i,
        {
            out.push(self.entries[i].0.clone());
            i = i + 1;
        }
        out
    }

    /// A copy of the map in which each value is what `copy` made of it.  With
    /// a `copy` that keeps the value, the copy equals the map.
    pub fn duplicate_with<G: Fn(&V) -> V>(&self, copy: G) -> (r: Self)
        requires
            forall|v: &V| call_requires(copy, (v,)),
            forall|v: &V, w: V| call_ensures(copy, (v,), w) ==> w@ == v@,
        ensures
            r.pairs() == self.pairs(),
            r@ == self@,
    {
        let mut entries: Vec<(String, V)> = Vec::new();
        let mut i: usize = 0;
        while i < self.entries.len()
            invariant
                i <= self.entries.len(),
                entries@.len() == i,
                forall|v: &V| call_requires(copy, (v,)),
                forall|v: &V, w: V| call_ensures(copy, (v,), w) ==> w@ == v@,
                forall|j: int|
                    0 <= j < i ==> (#[trigger] entries@[j]).0@ == self.entries[j].0@ && entries@[j].1@
                        == self.entries[j].1@,
            decreases self.entries.len() - i,
        {
            let value = copy(&self.entries[i].1);
            entries.push((self.entries[i].0.clone(), value));
            i = i + 1;
        }
        let r = StringMap { entries };
        assert(r.pairs() =~= self.pairs());
        r
    }
}

} // verus!

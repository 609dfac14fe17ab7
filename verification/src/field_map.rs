//! A map from field ids to values that keeps the order in which the fields
//! were first set.

use vstd::prelude::*;
use crate::id::FieldId;

verus! {

/// The position of the first entry of `keys` that equals `key`, or the length
/// of `keys` where there is none.
pub open spec fn position_in(keys: Seq<Seq<char>>, key: Seq<char>) -> int
    decreases keys.len(),
{
    if keys.len() == 0 {
        0
    } else if keys[0] == key {
        0
    } else {
        1 + position_in(keys.drop_first(), key)
    }
}

/// `position_in` lies in the sequence or at its end, no earlier entry is the
/// key, and inside the sequence it points at the key.
pub proof fn lemma_position_in(keys: Seq<Seq<char>>, key: Seq<char>)
    ensures
        0 <= position_in(keys, key) <= keys.len(),
        forall|i: int| 0 <= i < position_in(keys, key) ==> keys[i] != key,
        position_in(keys, key) < keys.len() ==> keys[position_in(keys, key)] == key,
    decreases keys.len(),
{
    if keys.len() > 0 && keys[0] != key {
        lemma_position_in(keys.drop_first(), key);
        assert forall|i: int| 0 <= i < position_in(keys, key) implies keys[i] != key by {
            if i > 0 {
                assert(keys[i] == keys.drop_first()[i - 1]);
            }
        }
    }
}

/// A position that holds the key, with no earlier one that does, is
/// `position_in`.
pub proof fn lemma_position_in_is(keys: Seq<Seq<char>>, key: Seq<char>, k: int)
    requires
        0 <= k <= keys.len(),
        forall|i: int| 0 <= i < k ==> keys[i] != key,
        k < keys.len() ==> keys[k] == key,
    ensures
        position_in(keys, key) == k,
{
    lemma_position_in(keys, key);
    let j = position_in(keys, key);
    if j < k {
        assert(keys[j] != key);
    } else if j > k {
        assert(k < keys.len());
    }
}

/// No key occurs twice.
pub open spec fn distinct(keys: Seq<Seq<char>>) -> bool {
    forall|i: int, j: int| 0 <= i < j < keys.len() ==> keys[i] != keys[j]
}

/// The ids of a sequence of pairs of id and value.
pub open spec fn model_keys<V>(model: Seq<(Seq<char>, V)>) -> Seq<Seq<char>> {
    Seq::new(model.len(), |i: int| model[i].0)
}

/// Pairs of id and value after `key` is set to `value`: an id that is there
/// keeps its place, a new one goes to the end.
pub open spec fn model_with<V>(model: Seq<(Seq<char>, V)>, key: Seq<char>, value: V) -> Seq<
    (Seq<char>, V),
> {
    let at = position_in(model_keys(model), key);
    if at < model.len() {
        model.update(at, (key, value))
    } else {
        model.push((key, value))
    }
}

/// Setting a key makes it present with the value given, leaves the other
/// keys and their values alone, and keeps distinct keys distinct.
pub proof fn lemma_model_with<V>(model: Seq<(Seq<char>, V)>, key: Seq<char>, value: V)
    ensures
        ({
            let after = model_with(model, key, value);
            let at = position_in(model_keys(after), key);
            &&& at < after.len()
            &&& at == position_in(model_keys(model), key)
            &&& after[at] == (key, value)
            &&& distinct(model_keys(model)) ==> distinct(model_keys(after))
            &&& model.len() <= after.len() <= model.len() + 1
            &&& forall|other: Seq<char>|
                other != key ==> {
                    let was = position_in(model_keys(model), other);
                    let is = #[trigger] position_in(model_keys(after), other);
                    &&& (is < after.len()) == (was < model.len())
                    &&& was < model.len() ==> is == was && after[is] == model[was]
                }
        }),
{
    let before = model_keys(model);
    let after = model_with(model, key, value);
    let keys = model_keys(after);
    let at = position_in(before, key);
    lemma_position_in(before, key);
    if at < model.len() {
        assert(keys =~= before);
        assert forall|other: Seq<char>| other != key implies ({
            let was = position_in(before, other);
            let is = #[trigger] position_in(keys, other);
            &&& (is < after.len()) == (was < model.len())
            &&& was < model.len() ==> is == was && after[is] == model[was]
        }) by {
            lemma_position_in(before, other);
        }
    } else {
        assert(keys =~= before.push(key));
        lemma_position_in_is(keys, key, at);
        assert forall|other: Seq<char>| other != key implies ({
            let was = position_in(before, other);
            let is = #[trigger] position_in(keys, other);
            &&& (is < after.len()) == (was < model.len())
            &&& was < model.len() ==> is == was && after[is] == model[was]
        }) by {
            lemma_position_in(before, other);
            let p = position_in(before, other);
            if p < before.len() {
                lemma_position_in_is(keys, other, p);
            } else {
                lemma_position_in_is(keys, other, keys.len() as int);
            }
        }
    }
}

/// Fields by id. Each id occurs once; the entries stand in the order in which
/// their ids were first inserted.
#[derive(Debug, Clone, PartialEq)]
pub struct FieldMap<V> {
    entries: Vec<(FieldId, V)>,
}

impl<V> View for FieldMap<V> {
    type V = Seq<(Seq<char>, V)>;

    /// The pairs of id and value, in insertion order.
    open spec fn view(&self) -> Seq<(Seq<char>, V)> {
        Seq::new(self.entries().len(), |i: int| (self.entries()[i].0@, self.entries()[i].1))
    }
}

impl<V> FieldMap<V> {
    /// The entries, in insertion order.
    pub closed spec fn entries(self) -> Seq<(FieldId, V)> {
        self.entries@
    }

    /// The ids of the entries, in insertion order.
    pub open spec fn keys(self) -> Seq<Seq<char>> {
        Seq::new(self.entries().len(), |i: int| self.entries()[i].0@)
    }

    /// Whether the ids are distinct. `new` gives such a map and `insert`
    /// keeps it so.
    pub open spec fn wf(self) -> bool {
        distinct(self.keys())
    }

    /// Whether `key` has an entry.
    pub open spec fn has(self, key: Seq<char>) -> bool {
        position_in(self.keys(), key) < self.entries().len()
    }

    /// The value under `key`, where it has an entry.
    pub open spec fn value(self, key: Seq<char>) -> V
        recommends
            self.has(key),
    {
        self.entries()[position_in(self.keys(), key)].1
    }

    /// The map after `key` is set to `value`: an existing entry keeps its
    /// place and its id, a new one goes to the end.
    pub open spec fn with(self, key: FieldId, value: V) -> Seq<(FieldId, V)> {
        let at = position_in(self.keys(), key@);
        if at < self.entries().len() {
            self.entries().update(at, (self.entries()[at].0, value))
        } else {
            self.entries().push((key, value))
        }
    }

    /// An empty map.
    pub fn new() -> (r: Self)
        ensures
            r.entries() == Seq::<(FieldId, V)>::empty(),
            r@ == Seq::<(Seq<char>, V)>::empty(),
            r.wf(),
    {
        let map = FieldMap { entries: Vec::new() };
        assert(map@ =~= Seq::<(Seq<char>, V)>::empty());
        map
    }

    /// The number of entries.
    pub fn len(&self) -> (r: usize)
        ensures
            r == self.entries().len(),
    {
        self.entries.len()
    }

    /// Whether the map has no entry.
    pub fn is_empty(&self) -> (r: bool)
        ensures
            r == (self.entries().len() == 0),
    {
        self.entries.len() == 0
    }

    /// The id of the entry at `index`.
    pub fn key_at(&self, index: usize) -> (r: &FieldId)
        requires
            index < self.entries().len(),
        ensures
            *r == self.entries()[index as int].0,
    {
        &self.entries[index].0
    }

    /// The value of the entry at `index`.
    pub fn value_at(&self, index: usize) -> (r: &V)
        requires
            index < self.entries().len(),
        ensures
            *r == self.entries()[index as int].1,
    {
        &self.entries[index].1
    }

    /// The position of `key`, or the number of entries where it has none.
    pub fn find(&self, key: &FieldId) -> (r: usize)
        ensures
            r == position_in(self.keys(), key@),
            r <= self.entries().len(),
    {
        let mut i: usize = 0;
        while i < self.entries.len() && !self.entries[i].0.same_as(key)
            invariant
                i <= self.entries.len(),
                forall|j: int| 0 <= j < i ==> self.keys()[j] != key@,
            decreases self.entries.len() - i,
        {
            i += 1;
        }
        proof {
            lemma_position_in_is(self.keys(), key@, i as int);
        }
        i
    }

    /// Whether `key` has an entry.
    pub fn contains_key(&self, key: &FieldId) -> (r: bool)
        ensures
            r == self.has(key@),
    {
        self.find(key) < self.entries.len()
    }

    /// The value under `key`, if it has an entry.
    pub fn get(&self, key: &FieldId) -> (r: Option<&V>)
        ensures
            r is Some <==> self.has(key@),
            r is Some ==> *r->0 == self.value(key@),
    {
        let at = self.find(key);
        if at < self.entries.len() {
            Some(&self.entries[at].1)
        } else {
            None
        }
    }

    /// Sets `key` to `value` and returns the value it had before, if any.
    pub fn insert(&mut self, key: FieldId, value: V) -> (r: Option<V>)
        ensures
            final(self).entries() == old(self).with(key, value),
            final(self)@ == model_with(old(self)@, key@, value),
            r is Some <==> old(self).has(key@),
            r is Some ==> r->0 == old(self).value(key@),
            final(self).has(key@),
            final(self).value(key@) == value,
            old(self).wf() ==> final(self).wf(),
            forall|other: Seq<char>|
                other != key@ ==> final(self).has(other) == old(self).has(other) && (old(
                    self,
                ).has(other) ==> final(self).value(other) == old(self).value(other)),
    {
        let at = self.find(&key);
        let ghost before = self.keys();
        let ghost old_entries = self.entries@;
        let ghost old_model = self@;
        proof {
            assert(model_keys(old_model) =~= before);
        }
        if at < self.entries.len() {
            let (id, previous) = self.entries.remove(at);
            self.entries.insert(at, (id, value));
            proof {
                assert(self.entries@ =~= old_entries.update(at as int, (id, value)));
                lemma_position_in(before, key@);
                assert(before[at as int] == id@);
                assert(self@ =~= old_model.update(at as int, (key@, value)));
                assert(self.keys() =~= before);
                lemma_position_in(before, key@);
                assert forall|other: Seq<char>| other != key@ implies self.has(other) == old(
                    self,
                ).has(other) && (old(self).has(other) ==> self.value(other) == old(self).value(
                    other,
                )) by {
                    lemma_position_in(before, other);
                }
            }
            Some(previous)
        } else {
            self.entries.push((key, value));
            proof {
                let after = self.keys();
                assert(after =~= before.push(key@));
                assert(self@ =~= old_model.push((key@, value)));
                lemma_position_in(before, key@);
                lemma_position_in_is(after, key@, at as int);
                assert forall|other: Seq<char>| other != key@ implies self.has(other) == old(
                    self,
                ).has(other) && (old(self).has(other) ==> self.value(other) == old(self).value(
                    other,
                )) by {
                    lemma_position_in(before, other);
                    let p = position_in(before, other);
                    if p < before.len() {
                        lemma_position_in_is(after, other, p);
                    } else {
                        lemma_position_in_is(after, other, after.len() as int);
                    }
                }
            }
            None
        }
    }
}

} // verus!

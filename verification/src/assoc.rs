//! Association lists keyed by text: the mathematical model of every keyed
//! table in this crate, and the executable table that refines it.
//!
//! A table is a sequence of `(key, value)` pairs in insertion order in which no
//! key occurs twice. Replacing a value keeps its position; removing a key closes
//! the gap.

use vstd::prelude::*;

use crate::text::str_eq;

verus! {

/// `key` occurs in the list.
pub open spec fn known<V>(list: Seq<(Seq<char>, V)>, key: Seq<char>) -> bool {
    exists|i: int| 0 <= i < list.len() && #[trigger] list[i].0 == key
}

/// The position at which `key` occurs (meaningful only where it does).
pub open spec fn position<V>(list: Seq<(Seq<char>, V)>, key: Seq<char>) -> int {
    choose|i: int| 0 <= i < list.len() && #[trigger] list[i].0 == key
}

/// The value stored under `key` (meaningful only where it occurs).
pub open spec fn at<V>(list: Seq<(Seq<char>, V)>, key: Seq<char>) -> V {
    list[position(list, key)].1
}

/// The value stored under `key`, if there is one.
pub open spec fn lookup<V>(list: Seq<(Seq<char>, V)>, key: Seq<char>) -> Option<V> {
    if known(list, key) {
        Some(at(list, key))
    } else {
        None
    }
}

/// The list with `value` stored under `key`: in place where the key is known,
/// at the end otherwise.
pub open spec fn put<V>(list: Seq<(Seq<char>, V)>, key: Seq<char>, value: V) -> Seq<
    (Seq<char>, V),
> {
    if known(list, key) {
        list.update(position(list, key), (key, value))
    } else {
        list.push((key, value))
    }
}

/// The list without `key`.
pub open spec fn del<V>(list: Seq<(Seq<char>, V)>, key: Seq<char>) -> Seq<(Seq<char>, V)> {
    if known(list, key) {
        list.remove(position(list, key))
    } else {
        list
    }
}

/// No key occurs twice.
pub open spec fn distinct<V>(list: Seq<(Seq<char>, V)>) -> bool {
    forall|i: int, j: int|
        #![trigger list[i], list[j]]
        0 <= i < j < list.len() ==> list[i].0 != list[j].0
}

/// In a list without repeated keys, the position of a key that occurs is the
/// index at which it was found.
pub proof fn lemma_position<V>(list: Seq<(Seq<char>, V)>, i: int)
    requires
        distinct(list),
        0 <= i < list.len(),
    ensures
        known(list, list[i].0),
        position(list, list[i].0) == i,
        at(list, list[i].0) == list[i].1,
{
    assert(list[i].0 == list[i].0);
    let p = position(list, list[i].0);
    assert(0 <= p < list.len() && list[p].0 == list[i].0);
    if p < i {
        assert(list[p].0 != list[i].0);
    } else if i < p {
        assert(list[i].0 != list[p].0);
    }
}

/// Storing a value keeps the list without repeated keys, answers the stored
/// value under its key, and leaves every other key as it was.
pub proof fn lemma_put<V>(list: Seq<(Seq<char>, V)>, key: Seq<char>, value: V)
    requires
        distinct(list),
    ensures
        distinct(put(list, key, value)),
        known(put(list, key, value), key),
        at(put(list, key, value), key) == value,
        forall|k: Seq<char>|
            #![trigger known(put(list, key, value), k)]
            k != key ==> known(put(list, key, value), k) == known(list, k),
        forall|k: Seq<char>|
            #![trigger at(put(list, key, value), k)]
            k != key && known(list, k) ==> at(put(list, key, value), k) == at(list, k),
        put(list, key, value).len() == list.len() + if known(list, key) { 0int } else { 1int },
{
    let new = put(list, key, value);
    let p = if known(list, key) { position(list, key) } else { list.len() as int };
    assert(forall|i: int| 0 <= i < new.len() && i != p ==> #[trigger] new[i] == list[i]);
    assert(new[p] == (key, value));
    if known(list, key) {
        assert(list[p].0 == key);
    }
    assert forall|i: int, j: int|
        #![trigger new[i], new[j]]
        0 <= i < j < new.len() implies new[i].0 != new[j].0 by {
        if i != p && j != p {
            assert(list[i].0 != list[j].0);
        } else if i == p {
            if known(list, key) {
                assert(list[i].0 != list[j].0);
            }
        } else {
            if known(list, key) {
                assert(list[i].0 != list[j].0);
            } else {
                assert(list[i].0 != key);
            }
        }
    }
    lemma_position(new, p);
    assert forall|k: Seq<char>| k != key implies #[trigger] known(new, k) == known(list, k) by {
        if known(list, k) {
            let q = position(list, k);
            assert(list[q].0 == k);
            assert(new[q].0 == k);
        }
        if known(new, k) {
            let q = position(new, k);
            assert(new[q].0 == k);
            assert(list[q].0 == k);
        }
    }
    assert forall|k: Seq<char>| k != key && known(list, k) implies #[trigger] at(new, k) == at(
        list,
        k,
    ) by {
        let q = position(list, k);
        assert(list[q].0 == k);
        assert(new[q] == list[q]);
        lemma_position(new, q);
    }
}

/// Removing a key keeps the list without repeated keys, forgets the key, and
/// leaves every other key as it was.
pub proof fn lemma_del<V>(list: Seq<(Seq<char>, V)>, key: Seq<char>)
    requires
        distinct(list),
    ensures
        distinct(del(list, key)),
        !known(del(list, key), key),
        forall|k: Seq<char>|
            #![trigger known(del(list, key), k)]
            k != key ==> known(del(list, key), k) == known(list, k),
        forall|k: Seq<char>|
            #![trigger at(del(list, key), k)]
            k != key && known(list, k) ==> at(del(list, key), k) == at(list, k),
        del(list, key).len() == list.len() - if known(list, key) { 1int } else { 0int },
{
    let new = del(list, key);
    if known(list, key) {
        let p = position(list, key);
        assert(list[p].0 == key);
        assert(forall|i: int|
            0 <= i < new.len() ==> #[trigger] new[i] == list[if i < p { i } else { i + 1 }]);
        assert forall|i: int, j: int|
            #![trigger new[i], new[j]]
            0 <= i < j < new.len() implies new[i].0 != new[j].0 by {
            let a = if i < p { i } else { i + 1 };
            let b = if j < p { j } else { j + 1 };
            assert(list[a].0 != list[b].0);
        }
        if known(new, key) {
            let q = position(new, key);
            assert(new[q].0 == key);
            let a = if q < p { q } else { q + 1 };
            assert(list[a].0 == key);
            if a < p {
                assert(list[a].0 != list[p].0);
            } else {
                assert(list[p].0 != list[a].0);
            }
        }
        assert forall|k: Seq<char>| k != key implies #[trigger] known(new, k) == known(list, k) by {
            if known(list, k) {
                let q = position(list, k);
                assert(list[q].0 == k);
                let b = if q < p { q } else { q - 1 };
                assert(new[b].0 == k);
            }
            if known(new, k) {
                let q = position(new, k);
                assert(new[q].0 == k);
                assert(list[if q < p { q } else { q + 1 }].0 == k);
            }
        }
        assert forall|k: Seq<char>| k != key && known(list, k) implies #[trigger] at(new, k) == at(
            list,
            k,
        ) by {
            let q = position(list, k);
            assert(list[q].0 == k);
            let b = if q < p { q } else { q - 1 };
            assert(new[b] == list[q]);
            lemma_position(new, b);
        }
    }
}

/// Dropping entries keeps the list without repeated keys.
pub proof fn lemma_filter_distinct<V>(
    list: Seq<(Seq<char>, V)>,
    keep: spec_fn((Seq<char>, V)) -> bool,
)
    requires
        distinct(list),
    ensures
        distinct(list.filter(keep)),
        forall|i: int|
            0 <= i < list.filter(keep).len() ==> list.contains(#[trigger] list.filter(keep)[i])
                && keep(list.filter(keep)[i]),
    decreases list.len(),
{
    reveal(Seq::filter);
    if list.len() > 0 {
        let init = list.drop_last();
        let kept = init.filter(keep);
        assert(distinct(init)) by {
            assert forall|i: int, j: int|
                #![trigger init[i], init[j]]
                0 <= i < j < init.len() implies init[i].0 != init[j].0 by {
                assert(list[i].0 != list[j].0);
            }
        }
        lemma_filter_distinct(init, keep);
        let all = list.filter(keep);
        assert forall|i: int| 0 <= i < all.len() implies list.contains(#[trigger] all[i])
            && keep(all[i]) by {
            if i < kept.len() {
                assert(init.contains(kept[i]));
                let j = choose|j: int| 0 <= j < init.len() && init[j] == kept[i];
                assert(list[j] == all[i]);
            } else {
                assert(list[list.len() - 1] == all[i]);
            }
        }
        assert forall|i: int, j: int|
            #![trigger all[i], all[j]]
            0 <= i < j < all.len() implies all[i].0 != all[j].0 by {
            if j < kept.len() {
                assert(kept[i].0 != kept[j].0);
            } else {
                assert(init.contains(kept[i]));
                let k = choose|k: int| 0 <= k < init.len() && init[k] == kept[i];
                assert(list[k].0 != list[list.len() - 1].0);
            }
        }
    }
}

/// A keyed table: distinct text keys, each with one value, in insertion order.
pub struct StrMap<V> {
    entries: Vec<(String, V)>,
}

impl<V: DeepView> DeepView for StrMap<V> {
    type V = Seq<(Seq<char>, V::V)>;

    closed spec fn deep_view(&self) -> Seq<(Seq<char>, V::V)> {
        Seq::new(self.entries@.len(), |i: int| (self.entries@[i].0@, self.entries@[i].1.deep_view()))
    }
}

impl<V: DeepView> View for StrMap<V> {
    type V = Seq<(Seq<char>, V::V)>;

    open spec fn view(&self) -> Seq<(Seq<char>, V::V)> {
        self.deep_view()
    }
}

impl<V: DeepView> StrMap<V> {
    /// No key occurs twice.
    pub open spec fn wf(&self) -> bool {
        distinct(self@)
    }

    /// An empty table.
    pub fn new() -> (r: Self)
        ensures
            r.wf(),
            r@ == Seq::<(Seq<char>, V::V)>::empty(),
    {
        let r = StrMap { entries: Vec::new() };
        assert(r@ =~= Seq::<(Seq<char>, V::V)>::empty());
        r
    }

    /// Number of keys.
    pub fn len(&self) -> (n: usize)
        ensures
            n == self@.len(),
    {
        self.entries.len()
    }

    /// The key at position `i`.
    pub fn key_at(&self, i: usize) -> (k: &String)
        requires
            i < self@.len(),
        ensures
            k@ == self@[i as int].0,
    {
        &self.entries[i].0
    }

    /// The value at position `i`.
    pub fn value_at(&self, i: usize) -> (v: &V)
        requires
            i < self@.len(),
        ensures
            v.deep_view() == self@[i as int].1,
    {
        &self.entries[i].1
    }

    /// The value at position `i`, to be changed in place.
    pub fn value_at_mut(&mut self, i: usize) -> (v: &mut V)
        requires
            i < old(self)@.len(),
        ensures
            v.deep_view() == old(self)@[i as int].1,
            final(self)@ == old(self)@.update(
                i as int,
                (old(self)@[i as int].0, final(v).deep_view()),
            ),
    {
        let entry = &mut self.entries[i];
        &mut entry.1
    }

    /// The position of `key`, if it is known.
    pub fn find(&self, key: &str) -> (r: Option<usize>)
        requires
            self.wf(),
        ensures
            match r {
                Some(i) => known(self@, key@) && i == position(self@, key@) && i < self@.len()
                    && self@[i as int].0 == key@,
                None => !known(self@, key@),
            },
    {
        let mut i: usize = 0;
        while i < self.entries.len()
            invariant
                self.wf(),
                i <= self@.len(),
                self@.len() == self.entries@.len(),
                forall|j: int| 0 <= j < i ==> #[trigger] self@[j].0 != key@,
            decreases self.entries.len() - i,
        {
            if str_eq(self.entries[i].0.as_str(), key) {
                proof {
                    lemma_position(self@, i as int);
                }
                return Some(i);
            }
            i = i + 1;
        }
        None
    }

    /// Whether `key` is known.
    pub fn contains_key(&self, key: &str) -> (r: bool)
        requires
            self.wf(),
        ensures
            r == known(self@, key@),
    {
        self.find(key).is_some()
    }

    /// The value stored under `key`.
    pub fn get(&self, key: &str) -> (r: Option<&V>)
        requires
            self.wf(),
        ensures
            match r {
                Some(v) => known(self@, key@) && v.deep_view() == at(self@, key@),
                None => !known(self@, key@),
            },
    {
        match self.find(key) {
            Some(i) => Some(self.value_at(i)),
            None => None,
        }
    }

    /// Stores `value` under `key` and hands back what it replaced.
    pub fn insert(&mut self, key: String, value: V) -> (r: Option<V>)
        requires
            old(self).wf(),
        ensures
            final(self).wf(),
            final(self)@ == put(old(self)@, key@, value.deep_view()),
            match r {
                Some(v) => known(old(self)@, key@) && v.deep_view() == at(old(self)@, key@),
                None => !known(old(self)@, key@),
            },
    {
        proof {
            lemma_put(self@, key@, value.deep_view());
        }
        match self.find(key.as_str()) {
            Some(i) => {
                let ghost before = self@;
                let mut slot: (String, V) = (key, value);
                let ghost stored = slot;
                std::mem::swap(&mut slot, &mut self.entries[i]);
                assert(self@ =~= put(before, stored.0@, stored.1.deep_view()));
                Some(slot.1)
            },
            None => {
                let ghost before = self@;
                let ghost stored = (key@, value.deep_view());
                self.entries.push((key, value));
                assert(self@ =~= put(before, stored.0, stored.1));
                None
            },
        }
    }

    /// Removes the entry at position `i`.
    pub fn remove_at(&mut self, i: usize) -> (r: (String, V))
        requires
            i < old(self)@.len(),
        ensures
            final(self)@ == old(self)@.remove(i as int),
            r.0@ == old(self)@[i as int].0,
            r.1.deep_view() == old(self)@[i as int].1,
    {
        let ghost before = self@;
        let r = self.entries.remove(i);
        assert(self@ =~= before.remove(i as int));
        r
    }

    /// Removes `key` and hands back its value.
    pub fn remove(&mut self, key: &str) -> (r: Option<V>)
        requires
            old(self).wf(),
        ensures
            final(self).wf(),
            final(self)@ == del(old(self)@, key@),
            match r {
                Some(v) => known(old(self)@, key@) && v.deep_view() == at(old(self)@, key@),
                None => !known(old(self)@, key@),
            },
    {
        proof {
            lemma_del(self@, key@);
        }
        match self.find(key) {
            Some(i) => {
                let r = self.remove_at(i);
                Some(r.1)
            },
            None => None,
        }
    }
}

} // verus!

//! Tombstones: a bounded memory of transfers that failed.
//!
//! A tombstone is a key and the last time a chunk for it was seen. Keys are held
//! in the order in which they were first recorded; at capacity the oldest leaves.

use std::collections::{HashMap, VecDeque};
use vstd::prelude::*;

verus! {

/// Most tombstones retained at once.
pub const TOMBSTONE_CAPACITY: usize = 1024;

/// Time passed since `then`, zero where `then` lies ahead.
pub open spec fn age(now: u128, then: u128) -> u128 {
    if now >= then {
        (now - then) as u128
    } else {
        0
    }
}

/// Time passed since `then`, zero where `then` lies ahead.
pub fn age_of(now: u128, then: u128) -> (r: u128)
    ensures
        r == age(now, then),
{
    if now >= then {
        now - then
    } else {
        0
    }
}

/// The tombstones as mathematical values.
#[verifier::ext_equal]
pub struct TombstonesView {
    /// When a chunk for each key was last seen.
    pub seen: Map<u64, u128>,
    /// The keys, oldest first.
    pub order: Seq<u64>,
}

impl TombstonesView {
    /// The order lists every key once, and there are no more than the capacity.
    pub open spec fn wf(self) -> bool {
        &&& self.order.no_duplicates()
        &&& self.order.to_set() =~= self.seen.dom()
        &&& self.order.len() <= TOMBSTONE_CAPACITY
    }

    /// `key` is tombstoned.
    pub open spec fn holds(self, key: u64) -> bool {
        self.seen.contains_key(key)
    }

    /// The tombstones after `key` was recorded at `now`: a known key is refreshed,
    /// a new one goes to the end, and the oldest leaves when there are too many.
    pub open spec fn record(self, key: u64, now: u128) -> TombstonesView {
        let seen = self.seen.insert(key, now);
        if self.holds(key) {
            TombstonesView { seen, order: self.order }
        } else if self.order.len() < TOMBSTONE_CAPACITY {
            TombstonesView { seen, order: self.order.push(key) }
        } else {
            TombstonesView {
                seen: seen.remove(self.order[0]),
                order: self.order.push(key).drop_first(),
            }
        }
    }

    /// The tombstones after a chunk for `key` was seen at `now`.
    pub open spec fn refresh(self, key: u64, now: u128) -> TombstonesView {
        if self.holds(key) {
            TombstonesView { seen: self.seen.insert(key, now), order: self.order }
        } else {
            self
        }
    }

    /// The tombstones with every last-seen time set to `then`.
    pub open spec fn all_seen_at(self, then: u128) -> TombstonesView {
        TombstonesView { seen: self.seen.map_values(|t: u128| then), order: self.order }
    }

    /// The tombstones that at `now` are no older than `max_age`.
    pub open spec fn unexpired(self, now: u128, max_age: u128) -> TombstonesView {
        let alive = |k: u64| self.holds(k) && age(now, self.seen[k]) <= max_age;
        TombstonesView {
            seen: Map::new(alive, |k: u64| self.seen[k]),
            order: self.order.filter(alive),
        }
    }
}

/// Recording keeps the tombstones well-formed and leaves the key tombstoned.
pub proof fn lemma_record(t: TombstonesView, key: u64, now: u128)
    requires
        t.wf(),
    ensures
        t.record(key, now).wf(),
        t.record(key, now).holds(key),
        t.record(key, now).seen[key] == now,
{
    let r = t.record(key, now);
    if t.holds(key) {
        assert(t.order.to_set().contains(key));
        assert(r.seen.dom() =~= t.seen.dom());
    } else {
        let pushed = t.order.push(key);
        assert(!t.order.contains(key)) by {
            if t.order.contains(key) {
                assert(t.order.to_set().contains(key));
            }
        }
        assert(pushed.no_duplicates());
        assert forall|k: u64| pushed.to_set().contains(k) == t.seen.insert(
            key,
            now,
        ).dom().contains(k) by {
            if pushed.contains(k) {
                let i = choose|i: int| 0 <= i < pushed.len() && pushed[i] == k;
                if i < t.order.len() {
                    assert(t.order[i] == k);
                    assert(t.order.to_set().contains(k));
                }
            }
            if t.seen.dom().contains(k) {
                assert(t.order.to_set().contains(k));
                let i = choose|i: int| 0 <= i < t.order.len() && t.order[i] == k;
                assert(pushed[i] == k);
            }
            assert(pushed[t.order.len() as int] == key);
        }
        assert(pushed.to_set() =~= t.seen.insert(key, now).dom());
        if t.order.len() >= TOMBSTONE_CAPACITY {
            let oldest = t.order[0];
            let rest = pushed.drop_first();
            assert(pushed[0] == oldest);
            assert(rest.no_duplicates()) by {
                assert forall|i: int, j: int|
                    0 <= i < rest.len() && 0 <= j < rest.len() && i != j implies rest[i]
                    != rest[j] by {
                    assert(rest[i] == pushed[i + 1]);
                    assert(rest[j] == pushed[j + 1]);
                }
            }
            assert forall|k: u64| rest.to_set().contains(k) == r.seen.dom().contains(k) by {
                if rest.contains(k) {
                    let i = choose|i: int| 0 <= i < rest.len() && rest[i] == k;
                    assert(pushed[i + 1] == k);
                    assert(pushed[0] != pushed[i + 1]);
                    assert(pushed.to_set().contains(k));
                }
                if r.seen.dom().contains(k) {
                    assert(pushed.to_set().contains(k));
                    let i = choose|i: int| 0 <= i < pushed.len() && pushed[i] == k;
                    assert(i > 0);
                    assert(rest[i - 1] == k);
                }
            }
            assert(rest.to_set() =~= r.seen.dom());
            assert(oldest != key) by {
                assert(t.order.contains(oldest));
            }
        }
    }
}

/// Tombstones of failed transfers.
pub struct Tombstones {
    seen: HashMap<u64, u128>,
    order: VecDeque<u64>,
}

impl View for Tombstones {
    type V = TombstonesView;

    closed spec fn view(&self) -> TombstonesView {
        TombstonesView { seen: self.seen@, order: self.order@ }
    }
}

impl Tombstones {
    /// No tombstones.
    pub fn new() -> (r: Self)
        ensures
            r@.wf(),
            r@ == (TombstonesView { seen: Map::empty(), order: Seq::empty() }),
    {
        let r = Tombstones { seen: HashMap::new(), order: VecDeque::new() };
        assert(r@.order =~= Seq::<u64>::empty());
        assert(r@.seen =~= Map::<u64, u128>::empty());
        assert(r@.order.to_set() =~= r@.seen.dom());
        r
    }

    /// Records a failure under `key`.
    pub fn record(&mut self, key: u64, now: u128)
        requires
            old(self)@.wf(),
        ensures
            final(self)@.wf(),
            final(self)@ == old(self)@.record(key, now),
    {
        let ghost before = self@;
        proof {
            lemma_record(self@, key, now);
        }
        let known = self.seen.contains_key(&key);
        self.seen.insert(key, now);
        if !known {
            self.order.push_back(key);
            if self.order.len() > TOMBSTONE_CAPACITY {
                let oldest = self.order.pop_front();
                if let Some(k) = oldest {
                    self.seen.remove(&k);
                    assert(self@.order =~= before.record(key, now).order);
                    assert(self@.seen =~= before.record(key, now).seen);
                }
            }
        }
    }

    /// Whether `key` is tombstoned; where it is, its last-seen time becomes `now`.
    pub fn check(&mut self, key: u64, now: u128) -> (r: bool)
        requires
            old(self)@.wf(),
        ensures
            r == old(self)@.holds(key),
            final(self)@.wf(),
            final(self)@ == old(self)@.refresh(key, now),
    {
        let ghost before = self@;
        if self.seen.contains_key(&key) {
            self.seen.insert(key, now);
            proof {
                assert(before.order.to_set().contains(key));
                assert(self@.seen.dom() =~= before.seen.dom());
            }
            true
        } else {
            false
        }
    }

    /// Sets every last-seen time to `then`.
    pub fn set_all(&mut self, then: u128)
        requires
            old(self)@.wf(),
        ensures
            final(self)@.wf(),
            final(self)@ == old(self)@.all_seen_at(then),
    {
        let ghost before = self@;
        let mut i: usize = 0;
        while i < self.order.len()
            invariant
                i <= self.order@.len(),
                self.order@ == before.order,
                before.wf(),
                self.seen@.dom() == before.seen.dom(),
                forall|j: int| 0 <= j < i ==> self.seen@[#[trigger] before.order[j]] == then,
            decreases self.order@.len() - i,
        {
            let key: u64 = self.order[i];
            proof {
                assert(before.order[i as int] == key);
                assert(before.order.to_set().contains(key));
            }
            self.seen.insert(key, then);
            assert(self.seen@.dom() =~= before.seen.dom());
            i = i + 1;
        }
        proof {
            assert forall|k: u64| before.seen.contains_key(k) implies self.seen@[k] == then by {
                assert(before.order.to_set().contains(k));
                let j = choose|j: int| 0 <= j < before.order.len() && before.order[j] == k;
                assert(self.seen@[before.order[j]] == then);
            }
            assert(self.seen@ =~= before.all_seen_at(then).seen);
        }
    }

    /// Forgets the tombstones older than `max_age`.
    pub fn expire(&mut self, now: u128, max_age: u128)
        requires
            old(self)@.wf(),
        ensures
            final(self)@.wf(),
            final(self)@ == old(self)@.unexpired(now, max_age),
    {
        let ghost before = self@;
        let ghost alive = |k: u64| before.holds(k) && age(now, before.seen[k]) <= max_age;
        let mut kept: VecDeque<u64> = VecDeque::new();
        let mut i: usize = 0;
        proof {
            reveal(Seq::filter);
            assert(before.order.take(0) =~= Seq::<u64>::empty());
        }
        while i < self.order.len()
            invariant
                i <= self.order@.len(),
                self.order@ == before.order,
                before.wf(),
                alive == (|k: u64| before.holds(k) && age(now, before.seen[k]) <= max_age),
                kept@ == before.order.take(i as int).filter(alive),
                forall|k: u64| #[trigger]
                    self.seen@.contains_key(k) ==> before.seen.contains_key(k) && self.seen@[k]
                        == before.seen[k],
                forall|k: u64|
                    before.holds(k) && alive(k) ==> #[trigger] self.seen@.contains_key(k),
                forall|j: int|
                    0 <= j < i && !alive(before.order[j]) ==> !self.seen@.contains_key(
                        #[trigger] before.order[j],
                    ),
                forall|j: int|
                    i <= j < before.order.len() ==> self.seen@.contains_key(
                        #[trigger] before.order[j],
                    ),
            decreases self.order@.len() - i,
        {
            let key: u64 = self.order[i];
            proof {
                reveal(Seq::filter);
                let next = before.order.take(i + 1);
                assert(next.drop_last() =~= before.order.take(i as int));
                assert(next.last() == key);
                assert(before.order[i as int] == key);
            }
            let last: u128 = match self.seen.get(&key) {
                Some(t) => *t,
                None => 0,
            };
            if age_of(now, last) <= max_age {
                kept.push_back(key);
            } else {
                self.seen.remove(&key);
            }
            i = i + 1;
        }
        self.order = kept;
        proof {
            let after = before.unexpired(now, max_age);
            assert(before.order.take(before.order.len() as int) =~= before.order);
            assert forall|k: u64| self.seen@.contains_key(k) == after.seen.contains_key(k) by {
                if self.seen@.contains_key(k) {
                    assert(before.order.to_set().contains(k));
                    let j = choose|j: int| 0 <= j < before.order.len() && before.order[j] == k;
                    assert(alive(before.order[j]));
                }
                if after.seen.contains_key(k) {
                    assert(alive(k));
                }
            }
            assert(self.seen@ =~= after.seen);
            assert(self@ =~= after);
            lemma_unexpired(before, now, max_age);
        }
    }
}

/// Expiry keeps the tombstones well-formed.
pub proof fn lemma_unexpired(t: TombstonesView, now: u128, max_age: u128)
    requires
        t.wf(),
    ensures
        t.unexpired(now, max_age).wf(),
{
    broadcast use vstd::seq_lib::group_filter_ensures;

    let alive = |k: u64| t.holds(k) && age(now, t.seen[k]) <= max_age;
    let r = t.unexpired(now, max_age);
    lemma_filter_no_duplicates(t.order, alive);
    assert forall|k: u64| r.order.to_set().contains(k) == r.seen.dom().contains(k) by {
        if r.order.contains(k) {
            let i = choose|i: int| 0 <= i < r.order.len() && r.order[i] == k;
            assert(alive(r.order[i]));
        }
        if r.seen.dom().contains(k) {
            assert(t.order.to_set().contains(k));
            let i = choose|i: int| 0 <= i < t.order.len() && t.order[i] == k;
            assert(alive(t.order[i]));
            assert(r.order.contains(t.order[i]));
        }
    }
    assert(r.order.to_set() =~= r.seen.dom());
}

proof fn lemma_filter_no_duplicates(s: Seq<u64>, pred: spec_fn(u64) -> bool)
    requires
        s.no_duplicates(),
    ensures
        s.filter(pred).no_duplicates(),
        forall|k: u64| s.filter(pred).contains(k) ==> s.contains(k),
        s.filter(pred).len() <= s.len(),
    decreases s.len(),
{
    reveal(Seq::filter);
    if s.len() > 0 {
        let init = s.drop_last();
        lemma_filter_no_duplicates(init, pred);
        assert forall|k: u64| s.filter(pred).contains(k) implies s.contains(k) by {
            let i = choose|i: int| 0 <= i < s.filter(pred).len() && s.filter(pred)[i] == k;
            if i < init.filter(pred).len() {
                assert(init.filter(pred)[i] == k);
                assert(init.contains(k));
                let j = choose|j: int| 0 <= j < init.len() && init[j] == k;
                assert(s[j] == k);
            } else {
                assert(s[s.len() - 1] == k);
            }
        }
        if pred(s.last()) {
            assert(!init.contains(s.last()));
            assert(!init.filter(pred).contains(s.last()));
        }
    }
}

} // verus!

//! What holds of failed transfers over runs of operations.

use vstd::prelude::*;

use crate::assoc::{at, known, lemma_del, lemma_put};
use crate::file_transfer::assembly::AssemblyView;
use crate::file_transfer::chunk::FileChunkView;
use crate::file_transfer::manager::{
    receive_keeps_invariant, release_keeps_invariant, tombstone_keeps_invariant,
};
use crate::file_transfer::model::{admissible, ChunkRejection, ManagerView};
use crate::file_transfer::tombstones::{
    age, lemma_record, lemma_unexpired, TombstonesView, TOMBSTONE_CAPACITY,
};

verus! {

impl TombstonesView {
    /// The tombstones after each key was recorded at its time, in order.
    pub open spec fn record_each(self, marks: Seq<(u64, u128)>) -> TombstonesView
        decreases marks.len(),
    {
        if marks.len() == 0 {
            self
        } else {
            self.record_each(marks.drop_last()).record(marks.last().0, marks.last().1)
        }
    }

    /// How many of the keys were new when their turn came.
    pub open spec fn newcomers(self, marks: Seq<(u64, u128)>) -> nat
        decreases marks.len(),
    {
        if marks.len() == 0 {
            0
        } else {
            self.newcomers(marks.drop_last()) + if self.record_each(marks.drop_last()).holds(
                marks.last().0,
            ) {
                0nat
            } else {
                1nat
            }
        }
    }

    /// How many tombstones are no older than the one of `key`, itself included.
    pub open spec fn rank(self, key: u64) -> int {
        self.order.len() - self.order.index_of(key)
    }
}

/// The key occurs in none of the marks.
pub open spec fn spares(marks: Seq<(u64, u128)>, key: u64) -> bool {
    forall|i: int| 0 <= i < marks.len() ==> (#[trigger] marks[i]).0 != key
}

/// A held key stands in the order, once.
proof fn lemma_rank(t: TombstonesView, key: u64)
    requires
        t.wf(),
    ensures
        t.holds(key) == t.order.contains(key),
        t.holds(key) ==> 0 <= t.order.index_of(key) < t.order.len() && t.order[t.order.index_of(
            key,
        )] == key,
        forall|i: int|
            0 <= i < t.order.len() && #[trigger] t.order[i] == key ==> t.order.index_of(key) == i,
{
    assert(t.order.to_set().contains(key) == t.seen.dom().contains(key));
    if t.order.contains(key) {
        let p = t.order.index_of(key);
        assert(0 <= p < t.order.len() && t.order[p] == key);
    }
}

/// Recording another key moves a tombstone one place on where that key is new,
/// and out once it is the oldest of a full memory.
proof fn lemma_record_other(t: TombstonesView, other: u64, now: u128, key: u64)
    requires
        t.wf(),
        other != key,
    ensures
        t.record(other, now).wf(),
        !t.holds(key) ==> !t.record(other, now).holds(key),
        t.holds(key) ==> {
            let moved = t.rank(key) + if t.holds(other) {
                0int
            } else {
                1int
            };
            &&& t.record(other, now).holds(key) == (moved <= TOMBSTONE_CAPACITY)
            &&& t.record(other, now).holds(key) ==> t.record(other, now).rank(key) == moved && t.record(
                other,
                now,
            ).seen[key] == t.seen[key]
        },
{
    let r = t.record(other, now);
    lemma_record(t, other, now);
    lemma_rank(t, key);
    lemma_rank(r, key);
    if t.holds(key) {
        let p = t.order.index_of(key);
        if !t.holds(other) {
            if t.order.len() < TOMBSTONE_CAPACITY {
                assert(r.order[p] == key);
            } else if p > 0 {
                assert(r.order[p - 1] == key);
                assert(t.order[0] != key);
            }
        }
    }
}

/// A run of records keeps a tombstone exactly while its rank, counting the
/// newcomers, is within the capacity.
proof fn lemma_record_each(t: TombstonesView, marks: Seq<(u64, u128)>, key: u64)
    requires
        t.wf(),
        spares(marks, key),
    ensures
        t.record_each(marks).wf(),
        t.record_each(marks).holds(key) <==> t.holds(key) && t.rank(key) + t.newcomers(marks)
            <= TOMBSTONE_CAPACITY,
        t.record_each(marks).holds(key) ==> t.record_each(marks).rank(key) == t.rank(key)
            + t.newcomers(marks) && t.record_each(marks).seen[key] == t.seen[key],
    decreases marks.len(),
{
    if marks.len() == 0 {
        lemma_rank(t, key);
    } else {
        let init = marks.drop_last();
        assert(spares(init, key)) by {
            assert forall|i: int| 0 <= i < init.len() implies (#[trigger] init[i]).0 != key by {
                assert(init[i] == marks[i]);
            }
        }
        lemma_record_each(t, init, key);
        assert(marks[marks.len() - 1].0 != key);
        lemma_record_other(t.record_each(init), marks.last().0, marks.last().1, key);
    }
}

/// The keys of these ids, all recorded at `now`.
pub open spec fn marks_of(v: ManagerView, ids: Seq<Seq<char>>, now: u128) -> Seq<(u64, u128)> {
    ids.map_values(|id: Seq<char>| (v.key(id), now))
}

proof fn lemma_tombstone_all(v: ManagerView, ids: Seq<Seq<char>>, now: u128)
    ensures
        v.tombstone_all(ids, now) == (ManagerView {
            tombstones: v.tombstones.record_each(marks_of(v, ids, now)),
            ..v
        }),
    decreases ids.len(),
{
    if ids.len() > 0 {
        lemma_tombstone_all(v, ids.drop_last(), now);
        assert(marks_of(v, ids, now).drop_last() =~= marks_of(v, ids.drop_last(), now));
    }
}

/// The ids that a sweep drops, oldest transfer first.
pub open spec fn swept_ids(v: ManagerView, now: u128, max_age: u128) -> Seq<Seq<char>> {
    v.stale_entries(now, max_age).map_values(|e: (Seq<char>, AssemblyView)| e.0)
}

/// A sweep ages tombstones out. An id whose transfer is not dropped in the sweep
/// stays tombstoned exactly while its last chunk is no older than the limit and
/// the ids dropped in the sweep do not crowd it out of the memory; the time of
/// its last chunk stays. Once the tombstone is gone, a chunk of the id is judged
/// as if nothing had ever failed.
pub proof fn tombstones_expire_with_age(
    v: ManagerView,
    file_id: Seq<char>,
    now: u128,
    max_age: u128,
    sender: Seq<char>,
    c: FileChunkView,
)
    requires
        v.wf(),
        spares(marks_of(v, swept_ids(v, now, max_age), now), v.key(file_id)),
        c.file_id == file_id,
    ensures
        ({
            let young = v.tombstones.unexpired(now, max_age);
            let w = v.sweep(now, max_age);
            &&& w.tombstoned(file_id) <==> {
                &&& v.tombstoned(file_id)
                &&& age(now, v.tombstones.seen[v.key(file_id)]) <= max_age
                &&& young.rank(v.key(file_id)) + young.newcomers(
                    marks_of(v, swept_ids(v, now, max_age), now),
                ) <= TOMBSTONE_CAPACITY
            }
            &&& w.tombstoned(file_id) ==> w.tombstones.seen[w.key(file_id)]
                == v.tombstones.seen[v.key(file_id)]
            &&& w.tombstoned(file_id) && admissible(w.config, c) ==> w.verdict(sender, c) == Some(
                ChunkRejection::PreviouslyFailed,
            )
            &&& !w.tombstoned(file_id) ==> w.verdict(sender, c) == without_tombstones(w).verdict(
                sender,
                c,
            )
        }),
{
    let key = v.key(file_id);
    let ids = swept_ids(v, now, max_age);
    let base = ManagerView {
        active: v.active.filter(
            |e: (Seq<char>, AssemblyView)| !ManagerView::stale(e.1, now, max_age),
        ),
        tombstones: v.tombstones.unexpired(now, max_age),
        ..v
    };
    lemma_unexpired(v.tombstones, now, max_age);
    lemma_tombstone_all(base, ids, now);
    assert(marks_of(base, ids, now) =~= marks_of(v, ids, now));
    lemma_record_each(base.tombstones, marks_of(v, ids, now), key);
}

/// The manager without any tombstone.
pub open spec fn without_tombstones(v: ManagerView) -> ManagerView {
    ManagerView { tombstones: TombstonesView { seen: Map::empty(), order: Seq::empty() }, ..v }
}

/// Failures: ids marked as failed, each at its time, in order.
pub open spec fn after_failures(v: ManagerView, failures: Seq<(Seq<char>, u128)>) -> ManagerView
    decreases failures.len(),
{
    if failures.len() == 0 {
        v
    } else {
        after_failures(v, failures.drop_last()).tombstone(
            failures.last().0,
            failures.last().1,
        )
    }
}

/// The keys of failures.
pub open spec fn failure_keys(v: ManagerView, failures: Seq<(Seq<char>, u128)>) -> Seq<u64> {
    failures.map_values(|f: (Seq<char>, u128)| v.key(f.0))
}

/// The last `n` elements, or all where there are fewer.
pub open spec fn last_of<A>(list: Seq<A>, n: nat) -> Seq<A> {
    if list.len() <= n {
        list
    } else {
        list.skip(list.len() - n)
    }
}

/// Failed ids are remembered first in, first out. After a run of failures with
/// keys that are all new, what is remembered are the newest of the earlier
/// tombstones and these keys, in order, and no more than the capacity; one of the
/// ids is remembered exactly where fewer than the capacity failed after it.
pub proof fn failures_are_forgotten_in_order(v: ManagerView, failures: Seq<(Seq<char>, u128)>)
    requires
        v.wf(),
        (v.tombstones.order + failure_keys(v, failures)).no_duplicates(),
    ensures
        ({
            let w = after_failures(v, failures);
            &&& w.tombstones.order == last_of(
                v.tombstones.order + failure_keys(v, failures),
                TOMBSTONE_CAPACITY as nat,
            )
            &&& w.tombstones.order.len() <= TOMBSTONE_CAPACITY
            &&& forall|i: int|
                #![trigger failures[i]]
                0 <= i < failures.len() ==> (w.tombstoned(failures[i].0) <==> failures.len() - i
                    <= TOMBSTONE_CAPACITY)
        }),
{
    lemma_failures(v, failures);
    let w = after_failures(v, failures);
    let all = v.tombstones.order + failure_keys(v, failures);
    assert forall|i: int|
        #![trigger failures[i]]
        0 <= i < failures.len() implies (w.tombstoned(failures[i].0) <==> failures.len() - i
        <= TOMBSTONE_CAPACITY) by {
        let key = v.key(failures[i].0);
        let p = v.tombstones.order.len() + i;
        assert(all[p] == key);
        lemma_rank(w.tombstones, key);
        let dropped = all.len() - w.tombstones.order.len();
        if p >= dropped {
            assert(w.tombstones.order[p - dropped] == key);
        } else if w.tombstones.order.contains(key) {
            let q = w.tombstones.order.index_of(key);
            assert(all[q + dropped] == key);
        }
    }
}

proof fn lemma_failures(v: ManagerView, failures: Seq<(Seq<char>, u128)>)
    requires
        v.wf(),
        (v.tombstones.order + failure_keys(v, failures)).no_duplicates(),
    ensures
        after_failures(v, failures) == (ManagerView {
            tombstones: after_failures(v, failures).tombstones,
            ..v
        }),
        after_failures(v, failures).tombstones.wf(),
        after_failures(v, failures).tombstones.order == last_of(
            v.tombstones.order + failure_keys(v, failures),
            TOMBSTONE_CAPACITY as nat,
        ),
    decreases failures.len(),
{
    let all = v.tombstones.order + failure_keys(v, failures);
    if failures.len() == 0 {
        assert(all =~= v.tombstones.order);
    } else {
        let init = failures.drop_last();
        let before = v.tombstones.order + failure_keys(v, init);
        assert(before =~= all.drop_last());
        lemma_failures(v, init);
        let u = after_failures(v, init);
        let key = v.key(failures.last().0);
        assert(all.last() == key);
        lemma_rank(u.tombstones, key);
        assert(!u.tombstones.order.contains(key)) by {
            if u.tombstones.order.contains(key) {
                let q = u.tombstones.order.index_of(key);
                let dropped = before.len() - u.tombstones.order.len();
                assert(all[q + dropped] == key);
            }
        }
        lemma_record(u.tombstones, key, failures.last().1);
        assert(after_failures(v, failures).tombstones.order =~= last_of(
            all,
            TOMBSTONE_CAPACITY as nat,
        ));
    }
}

/// An operation on a manager other than a sweep.
pub enum Operation {
    /// A chunk arrives.
    Chunk { sender: Seq<char>, chunk: FileChunkView, now: u128 },
    /// A transfer is finalized; its contents have this checksum.
    Finalize { file_id: Seq<char>, checksum: Seq<char>, now: u128 },
    /// A transfer is cancelled.
    Cancel { file_id: Seq<char> },
    /// A transfer is refused.
    Refuse { file_id: Seq<char>, now: u128 },
}

impl ManagerView {
    /// The manager after an operation.
    pub open spec fn step(self, operation: Operation) -> ManagerView {
        match operation {
            Operation::Chunk { sender, chunk, now } => self.receive(sender, chunk, now),
            Operation::Finalize { file_id, checksum, now } => self.finalize(file_id, checksum, now),
            Operation::Cancel { file_id } => self.release(file_id),
            Operation::Refuse { file_id, now } => self.release(file_id).tombstone(file_id, now),
        }
    }

    /// The id that an operation marks as failed, if any.
    pub open spec fn failing(self, operation: Operation) -> Option<Seq<char>> {
        match operation {
            Operation::Chunk { sender, chunk, now } => match self.verdict(sender, chunk) {
                Some(r) => if r.resource_exhaustion() {
                    Some(chunk.file_id)
                } else {
                    None
                },
                None => None,
            },
            Operation::Finalize { file_id, checksum, now } => if known(self.active, file_id) && at(
                self.active,
                file_id,
            ).complete() && !self.intact(file_id, checksum) {
                Some(file_id)
            } else {
                None
            },
            Operation::Cancel { .. } => None,
            Operation::Refuse { file_id, .. } => Some(file_id),
        }
    }

    /// The manager after a run of operations.
    pub open spec fn run(self, operations: Seq<Operation>) -> ManagerView
        decreases operations.len(),
    {
        if operations.len() == 0 {
            self
        } else {
            self.run(operations.drop_last()).step(operations.last())
        }
    }

    /// The ids that a run of operations marks as failed.
    pub open spec fn failed_in(self, operations: Seq<Operation>) -> Set<Seq<char>>
        decreases operations.len(),
    {
        if operations.len() == 0 {
            Set::empty()
        } else {
            let earlier = self.failed_in(operations.drop_last());
            match self.run(operations.drop_last()).failing(operations.last()) {
                Some(id) => earlier.insert(id),
                None => earlier,
            }
        }
    }
}

/// When an operation takes place, where that matters.
pub open spec fn time_of(operation: Operation) -> u128 {
    match operation {
        Operation::Chunk { now, .. } => now,
        Operation::Finalize { now, .. } => now,
        Operation::Cancel { .. } => 0,
        Operation::Refuse { now, .. } => now,
    }
}

proof fn lemma_step(v: ManagerView, operation: Operation)
    requires
        v.wf(),
    ensures
        v.step(operation).wf(),
        v.step(operation).config == v.config,
        v.step(operation).hasher == v.hasher,
        match v.failing(operation) {
            Some(id) => v.step(operation).tombstones == v.tombstones.record(
                v.key(id),
                time_of(operation),
            ),
            None => v.step(operation).tombstones.order == v.tombstones.order,
        },
        forall|id: Seq<char>|
            !known(v.active, id) && v.tombstoned(id) ==> !#[trigger] known(
                v.step(operation).active,
                id,
            ),
{
    match operation {
        Operation::Chunk { sender, chunk, now } => {
            receive_keeps_invariant(v, sender, chunk, now);
            lemma_del(v.active, chunk.file_id);
            lemma_put(
                v.active,
                chunk.file_id,
                v.assembly_for(sender, chunk, now).store(chunk.chunk_index, chunk.chunk_data, now),
            );
            match v.failing(operation) {
                Some(id) => {
                    assert(v.step(operation).tombstones == v.tombstones.record(v.key(id), now));
                },
                None => {
                    assert(v.step(operation).tombstones.order == v.tombstones.order);
                },
            }
        },
        Operation::Finalize { file_id, checksum, now } => {
            lemma_del(v.active, file_id);
            release_keeps_invariant(v, file_id);
            tombstone_keeps_invariant(v.release(file_id), file_id, now);
            if v.failing(operation) is Some {
                assert(v.step(operation).tombstones == v.tombstones.record(v.key(file_id), now));
            }
        },
        Operation::Cancel { file_id } => {
            lemma_del(v.active, file_id);
            release_keeps_invariant(v, file_id);
        },
        Operation::Refuse { file_id, now } => {
            lemma_del(v.active, file_id);
            release_keeps_invariant(v, file_id);
            tombstone_keeps_invariant(v.release(file_id), file_id, now);
            assert(v.step(operation).tombstones == v.tombstones.record(v.key(file_id), now));
        },
    }
}

/// Every tombstone younger than that of `key` belongs to one of the ids.
spec fn younger_are(t: TombstonesView, key: u64, keys: Set<u64>) -> bool {
    &&& t.holds(key)
    &&& forall|i: int|
        t.order.index_of(key) < i < t.order.len() ==> keys.contains(#[trigger] t.order[i])
}

/// Fewer than the capacity of other keys do not crowd a tombstone out.
proof fn lemma_not_crowded_out(
    t: TombstonesView,
    key: u64,
    keys: Set<u64>,
    other: u64,
    now: u128,
)
    requires
        t.wf(),
        younger_are(t, key, keys),
        keys.contains(other),
        keys.finite(),
        keys.remove(key).len() < TOMBSTONE_CAPACITY,
    ensures
        younger_are(t.record(other, now), key, keys),
{
    let r = t.record(other, now);
    lemma_record(t, other, now);
    lemma_rank(t, key);
    lemma_rank(r, key);
    lemma_rank(t, other);
    let p = t.order.index_of(key);
    if other != key {
        lemma_record_other(t, other, now, key);
        if !t.holds(other) && t.order.len() >= TOMBSTONE_CAPACITY {
            if p == 0 {
                let after = t.order.skip(1).push(other);
                assert(after.no_duplicates()) by {
                    assert forall|i: int, j: int|
                        0 <= i < after.len() && 0 <= j < after.len() && i != j implies after[i]
                        != after[j] by {
                        if i < after.len() - 1 {
                            assert(after[i] == t.order[i + 1]);
                        }
                        if j < after.len() - 1 {
                            assert(after[j] == t.order[j + 1]);
                        }
                    }
                }
                assert forall|k: u64| after.to_set().contains(k) implies keys.remove(
                    key,
                ).contains(k) by {
                    let i = choose|i: int| 0 <= i < after.len() && after[i] == k;
                    if i < after.len() - 1 {
                        assert(t.order[i + 1] == k);
                        assert(t.order[0] != t.order[i + 1]);
                    }
                }
                after.unique_seq_to_set();
                vstd::set_lib::lemma_len_subset(after.to_set(), keys.remove(key));
                assert(false);
            }
            assert forall|i: int| r.order.index_of(key) < i < r.order.len() implies keys.contains(
                #[trigger] r.order[i],
            ) by {
                assert(r.order.index_of(key) == p - 1) by {
                    assert(r.order[p - 1] == key);
                }
                if i < r.order.len() - 1 {
                    assert(r.order[i] == t.order[i + 1]);
                }
            }
        } else if !t.holds(other) {
            assert(r.order[p] == key);
            assert forall|i: int| r.order.index_of(key) < i < r.order.len() implies keys.contains(
                #[trigger] r.order[i],
            ) by {
                if i < r.order.len() - 1 {
                    assert(r.order[i] == t.order[i]);
                }
            }
        }
    }
}

/// The keys of ids.
spec fn keys_of(v: ManagerView, ids: Set<Seq<char>>) -> Set<u64> {
    ids.map(|id: Seq<char>| v.key(id))
}

proof fn lemma_failed_in_finite(v: ManagerView, operations: Seq<Operation>)
    ensures
        v.failed_in(operations).finite(),
    decreases operations.len(),
{
    if operations.len() > 0 {
        lemma_failed_in_finite(v, operations.drop_last());
    }
}

proof fn lemma_run(
    v: ManagerView,
    operations: Seq<Operation>,
    file_id: Seq<char>,
    ids: Set<Seq<char>>,
)
    requires
        v.wf(),
        v.tombstoned(file_id),
        v.tombstones.rank(v.key(file_id)) == 1,
        !known(v.active, file_id),
        v.failed_in(operations).subset_of(ids),
        keys_of(v, ids).finite(),
        keys_of(v, ids).remove(v.key(file_id)).len() < TOMBSTONE_CAPACITY,
    ensures
        v.run(operations).wf(),
        v.run(operations).config == v.config,
        v.run(operations).hasher == v.hasher,
        !known(v.run(operations).active, file_id),
        younger_are(v.run(operations).tombstones, v.key(file_id), keys_of(v, ids)),
    decreases operations.len(),
{
    let key = v.key(file_id);
    if operations.len() > 0 {
        let init = operations.drop_last();
        let u = v.run(init);
        assert(v.failed_in(init).subset_of(v.failed_in(operations)));
        lemma_run(v, init, file_id, ids);
        lemma_step(u, operations.last());
        match u.failing(operations.last()) {
            Some(id) => {
                assert(v.failed_in(operations).contains(id));
                assert(ids.contains(id));
                assert(keys_of(v, ids).contains(v.key(id)));
                lemma_not_crowded_out(
                    u.tombstones,
                    key,
                    keys_of(v, ids),
                    v.key(id),
                    time_of(operations.last()),
                );
            },
            None => {
                let w = u.step(operations.last());
                lemma_rank(u.tombstones, key);
                lemma_rank(w.tombstones, key);
            },
        }
    }
}

/// A transfer lost to a resource limit stays failed. Whatever happens after the
/// chunk that lost it, short of a sweep, every well-formed chunk of it from
/// whatever sender is answered `PreviouslyFailed`, nothing is buffered for it and
/// no other transfer changes, as long as fewer other ids failed than are
/// remembered; also where places or budget have come free.
pub proof fn a_lost_transfer_stays_failed(
    v: ManagerView,
    sender: Seq<char>,
    c: FileChunkView,
    now: u128,
    operations: Seq<Operation>,
    later_sender: Seq<char>,
    later: FileChunkView,
    later_now: u128,
)
    requires
        v.wf(),
        v.verdict(sender, c) matches Some(r) && r.resource_exhaustion(),
        v.receive(sender, c, now).failed_in(operations).remove(c.file_id).len()
            < TOMBSTONE_CAPACITY,
        later.file_id == c.file_id,
        admissible(v.config, later),
    ensures
        ({
            let w = v.receive(sender, c, now).run(operations);
            &&& w.verdict(later_sender, later) == Some(ChunkRejection::PreviouslyFailed)
            &&& w.receive(later_sender, later, later_now).active == w.active
            &&& !known(w.active, c.file_id)
        }),
{
    let u = v.receive(sender, c, now);
    let id = c.file_id;
    let key = v.key(id);
    let ids = u.failed_in(operations);
    receive_keeps_invariant(v, sender, c, now);
    lemma_del(v.active, id);
    lemma_record(v.tombstones, key, now);
    lemma_rank(v.tombstones, key);
    lemma_rank(u.tombstones, key);
    assert(u.tombstones == v.tombstones.record(key, now));
    assert(!v.tombstones.holds(key));
    assert(u.tombstones.order[u.tombstones.order.len() - 1] == key);
    assert(u.tombstones.rank(key) == 1);
    lemma_failed_in_finite(u, operations);
    let name = |x: Seq<char>| u.key(x);
    vstd::set_lib::lemma_map_size_bound(ids, ids.map(name), name);
    let others = ids.remove(id);
    vstd::set_lib::lemma_map_size_bound(others, others.map(name), name);
    assert(keys_of(u, ids) =~= ids.map(name));
    assert forall|k: u64| keys_of(u, ids).remove(key).contains(k) implies others.map(
        name,
    ).contains(k) by {
        let x = choose|x: Seq<char>| ids.contains(x) && k == name(x);
        assert(others.contains(x));
    }
    vstd::set_lib::lemma_len_subset(keys_of(u, ids).remove(key), others.map(name));
    lemma_run(u, operations, id, ids);
}

impl ManagerView {
    /// An operation marks `key` as failed, or is a chunk refused for its mark.
    pub open spec fn touches(self, operation: Operation, key: u64) -> bool {
        ||| self.failing(operation) matches Some(id) && self.key(id) == key
        ||| operation matches Operation::Chunk { sender, chunk, .. } && self.verdict(
            sender,
            chunk,
        ) == Some(ChunkRejection::PreviouslyFailed) && self.key(chunk.file_id) == key
    }

    /// When a run of operations last touched `key`; where it never did, the time
    /// that its mark had.
    pub open spec fn last_touched(self, operations: Seq<Operation>, key: u64) -> u128
        decreases operations.len(),
    {
        if operations.len() == 0 {
            self.tombstones.seen[key]
        } else if self.run(operations.drop_last()).touches(operations.last(), key) {
            time_of(operations.last())
        } else {
            self.last_touched(operations.drop_last(), key)
        }
    }
}

proof fn lemma_step_time(v: ManagerView, operation: Operation, key: u64)
    requires
        v.wf(),
    ensures
        v.step(operation).tombstones.holds(key) ==> v.step(operation).tombstones.seen[key] == (
        if v.touches(operation, key) {
            time_of(operation)
        } else {
            v.tombstones.seen[key]
        }),
{
    lemma_step(v, operation);
    match v.failing(operation) {
        Some(id) => {
            lemma_record(v.tombstones, v.key(id), time_of(operation));
            if v.key(id) != key {
                lemma_record_other(v.tombstones, v.key(id), time_of(operation), key);
            }
        },
        None => {},
    }
}

proof fn lemma_last_touched(v: ManagerView, operations: Seq<Operation>, key: u64)
    requires
        v.wf(),
    ensures
        v.run(operations).wf(),
        v.run(operations).config == v.config,
        v.run(operations).hasher == v.hasher,
        v.run(operations).tombstones.holds(key) ==> v.run(operations).tombstones.seen[key]
            == v.last_touched(operations, key),
    decreases operations.len(),
{
    if operations.len() > 0 {
        let u = v.run(operations.drop_last());
        lemma_last_touched(v, operations.drop_last(), key);
        lemma_step(u, operations.last());
        lemma_step_time(u, operations.last(), key);
        match u.failing(operations.last()) {
            Some(id) => {
                if u.key(id) != key {
                    lemma_record_other(u.tombstones, u.key(id), time_of(operations.last()), key);
                }
            },
            None => {
                lemma_rank(u.tombstones, key);
                lemma_rank(u.step(operations.last()).tombstones, key);
            },
        }
    }
}

proof fn lemma_newcomers(t: TombstonesView, marks: Seq<(u64, u128)>)
    ensures
        t.newcomers(marks) <= marks.len(),
    decreases marks.len(),
{
    if marks.len() > 0 {
        lemma_newcomers(t, marks.drop_last());
    }
}

/// A mark lasts as long as chunks keep coming, and the limit longer. Whatever
/// happened to a manager, take an id that is marked as failed, and the later of
/// when it failed and when a chunk of it was last refused for that. A sweep more
/// than the limit after that ends the mark, and a chunk of the id is judged as if
/// nothing had ever failed. A sweep before that leaves the mark, and the chunk is
/// answered `PreviouslyFailed`; but for a mark that the ids dropped in the sweep
/// crowd out, which they cannot where all marks fit together.
pub proof fn a_mark_expires_after_its_last_chunk(
    v: ManagerView,
    operations: Seq<Operation>,
    now: u128,
    max_age: u128,
    sender: Seq<char>,
    c: FileChunkView,
)
    requires
        v.wf(),
        v.run(operations).tombstoned(c.file_id),
        admissible(v.config, c),
        spares(
            marks_of(
                v.run(operations),
                swept_ids(v.run(operations), now, max_age),
                now,
            ),
            v.key(c.file_id),
        ),
    ensures
        ({
            let u = v.run(operations);
            let w = u.sweep(now, max_age);
            let key = v.key(c.file_id);
            let ids = swept_ids(u, now, max_age);
            let young = u.tombstones.unexpired(now, max_age);
            let places = young.rank(key) + young.newcomers(marks_of(u, ids, now));
            let seen = v.last_touched(operations, key);
            &&& age(now, seen) > max_age ==> !w.tombstoned(c.file_id) && w.verdict(sender, c)
                == without_tombstones(w).verdict(sender, c)
            &&& age(now, seen) <= max_age && places <= TOMBSTONE_CAPACITY ==> w.verdict(sender, c)
                == Some(ChunkRejection::PreviouslyFailed)
            &&& age(now, seen) <= max_age && u.tombstones.order.len() + ids.len()
                <= TOMBSTONE_CAPACITY ==> places <= TOMBSTONE_CAPACITY
        }),
{
    let u = v.run(operations);
    let key = v.key(c.file_id);
    let young = u.tombstones.unexpired(now, max_age);
    lemma_last_touched(v, operations, key);
    tombstones_expire_with_age(u, c.file_id, now, max_age, sender, c);
    let marks = marks_of(u, swept_ids(u, now, max_age), now);
    lemma_newcomers(young, marks);
    lemma_unexpired(u.tombstones, now, max_age);
    lemma_rank(young, key);
    broadcast use vstd::seq_lib::group_filter_ensures;

    assert(young.order.len() <= u.tombstones.order.len());
    assert(u.sweep(now, max_age).config == v.config) by {
        let base = ManagerView {
            active: u.active.filter(
                |e: (Seq<char>, AssemblyView)| !ManagerView::stale(e.1, now, max_age),
            ),
            tombstones: young,
            ..u
        };
        lemma_tombstone_all(base, swept_ids(u, now, max_age), now);
    }
}

} // verus!

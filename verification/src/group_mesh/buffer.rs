//! Per-group buffers of entries that wait for group state to catch up, and the
//! global bound that holds across all of them.
//!
//! Group ids come straight off the wire, so a cap per group says nothing about
//! the total. The bound is on three things at once: entries, payload bytes and
//! distinct groups.

use vstd::prelude::*;

use crate::assoc;
use crate::assoc::StrMap;
use crate::group_mesh::dated::{age, age_of, lemma_filter_front};

verus! {

/// An entry that can wait in a buffer.
pub trait Buffered: DeepView {
    /// Payload bytes of an entry.
    spec fn weight(entry: Self::V) -> nat;

    /// When an entry was buffered.
    spec fn since(entry: Self::V) -> u128;

    /// Payload bytes of this entry.
    fn entry_bytes(&self) -> (n: usize)
        ensures
            n == Self::weight(self.deep_view()),
    ;

    /// When this entry was buffered.
    fn buffered_since(&self) -> (t: u128)
        ensures
            t == Self::since(self.deep_view()),
    ;
}

/// Global limits across all per-group buffers.
#[derive(Debug, Clone, Copy, PartialEq, Eq)]
pub struct GlobalBufferCaps {
    /// Most distinct group ids.
    pub max_groups: usize,
    /// Most buffered entries across all groups.
    pub max_entries: usize,
    /// Most buffered payload bytes across all groups.
    pub max_bytes: usize,
}

/// Payload bytes in one buffer.
pub open spec fn queue_bytes<T: Buffered>(queue: Seq<T::V>) -> nat
    decreases queue.len(),
{
    if queue.len() == 0 {
        0
    } else {
        queue_bytes::<T>(queue.drop_last()) + T::weight(queue.last())
    }
}

/// Entries in all buffers.
pub open spec fn entries_in<V>(buffers: Seq<(Seq<char>, Seq<V>)>) -> nat
    decreases buffers.len(),
{
    if buffers.len() == 0 {
        0
    } else {
        entries_in(buffers.drop_last()) + buffers.last().1.len()
    }
}

/// Payload bytes in all buffers.
pub open spec fn bytes_in<T: Buffered>(buffers: Seq<(Seq<char>, Seq<T::V>)>) -> nat
    decreases buffers.len(),
{
    if buffers.len() == 0 {
        0
    } else {
        bytes_in::<T>(buffers.drop_last()) + queue_bytes::<T>(buffers.last().1)
    }
}

/// Whether buffer `a` is to be evicted from rather than `b`: it is longer, or as
/// long with a front entry that is not younger. A buffer is in arrival order, so
/// its front is its oldest entry.
pub open spec fn outranks<T: Buffered>(a: Seq<T::V>, b: Seq<T::V>) -> bool {
    a.len() > b.len() || (a.len() == b.len() && T::since(a[0]) <= T::since(b[0]))
}

/// The buffer to evict from: the longest, the oldest front entry breaking ties.
pub open spec fn victim<T: Buffered>(buffers: Seq<(Seq<char>, Seq<T::V>)>) -> Option<int>
    decreases buffers.len(),
{
    if buffers.len() == 0 {
        None
    } else {
        let best = victim::<T>(buffers.drop_last());
        let last = buffers.last().1;
        if last.len() == 0 {
            best
        } else {
            match best {
                Some(i) => if outranks::<T>(last, buffers[i].1) {
                    Some(buffers.len() - 1)
                } else {
                    Some(i)
                },
                None => Some(buffers.len() - 1),
            }
        }
    }
}

/// No buffer holds more than all of them.
pub proof fn lemma_entries<V>(buffers: Seq<(Seq<char>, Seq<V>)>, j: int)
    requires
        0 <= j < buffers.len(),
    ensures
        buffers[j].1.len() <= entries_in(buffers),
    decreases buffers.len(),
{
    if j < buffers.len() - 1 {
        lemma_entries(buffers.drop_last(), j);
    }
}

/// The victim is a non-empty buffer that every other non-empty one yields to.
pub proof fn lemma_victim<T: Buffered>(buffers: Seq<(Seq<char>, Seq<T::V>)>)
    ensures
        victim::<T>(buffers) matches Some(i) ==> {
            &&& 0 <= i < buffers.len()
            &&& buffers[i].1.len() > 0
            &&& forall|j: int|
                0 <= j < buffers.len() && (#[trigger] buffers[j]).1.len() > 0 ==> outranks::<T>(
                    buffers[i].1,
                    buffers[j].1,
                )
        },
        victim::<T>(buffers) is None ==> entries_in(buffers) == 0,
        victim::<T>(buffers) is Some ==> entries_in(buffers) > 0,
    decreases buffers.len(),
{
    if buffers.len() > 0 {
        let init = buffers.drop_last();
        lemma_victim::<T>(init);
        assert(forall|j: int| 0 <= j < init.len() ==> #[trigger] init[j] == buffers[j]);
        if victim::<T>(buffers) is Some {
            let i = victim::<T>(buffers)->0;
            assert forall|j: int|
                0 <= j < buffers.len() && (#[trigger] buffers[j]).1.len() > 0 implies outranks::<T>(
                buffers[i].1,
                buffers[j].1,
            ) by {
                if j < init.len() {
                    assert(init[j].1.len() > 0);
                    lemma_entries(init, j);
                    let b = victim::<T>(init)->0;
                    assert(outranks::<T>(init[b].1, init[j].1));
                }
            }
        }
    }
}

/// Removing one buffer takes its entries and bytes out of the totals.
pub proof fn lemma_remove<T: Buffered>(buffers: Seq<(Seq<char>, Seq<T::V>)>, i: int)
    requires
        0 <= i < buffers.len(),
    ensures
        entries_in(buffers) == entries_in(buffers.remove(i)) + buffers[i].1.len(),
        bytes_in::<T>(buffers) == bytes_in::<T>(buffers.remove(i)) + queue_bytes::<T>(
            buffers[i].1,
        ),
    decreases buffers.len(),
{
    if i < buffers.len() - 1 {
        lemma_remove::<T>(buffers.drop_last(), i);
        assert(buffers.remove(i).drop_last() =~= buffers.drop_last().remove(i));
        assert(buffers.remove(i).last() == buffers.last());
    } else {
        assert(buffers.remove(i) =~= buffers.drop_last());
    }
}

/// Replacing one buffer changes the totals by what it held and holds.
pub proof fn lemma_update<T: Buffered>(
    buffers: Seq<(Seq<char>, Seq<T::V>)>,
    i: int,
    new: (Seq<char>, Seq<T::V>),
)
    requires
        0 <= i < buffers.len(),
    ensures
        entries_in(buffers.update(i, new)) == entries_in(buffers) - buffers[i].1.len()
            + new.1.len(),
        bytes_in::<T>(buffers.update(i, new)) == bytes_in::<T>(buffers) - queue_bytes::<T>(
            buffers[i].1,
        ) + queue_bytes::<T>(new.1),
    decreases buffers.len(),
{
    if i < buffers.len() - 1 {
        lemma_update::<T>(buffers.drop_last(), i, new);
        assert(buffers.update(i, new).drop_last() =~= buffers.drop_last().update(i, new));
    } else {
        assert(buffers.update(i, new).drop_last() =~= buffers.drop_last());
    }
}

/// The front entry's bytes are part of its buffer's.
pub proof fn lemma_queue_front<T: Buffered>(queue: Seq<T::V>)
    requires
        queue.len() > 0,
    ensures
        queue_bytes::<T>(queue) == T::weight(queue[0]) + queue_bytes::<T>(queue.remove(0)),
    decreases queue.len(),
{
    if queue.len() == 1 {
        assert(queue.remove(0) =~= Seq::empty());
        assert(queue.drop_last() =~= Seq::empty());
    } else {
        lemma_queue_front::<T>(queue.drop_last());
        assert(queue.remove(0).drop_last() =~= queue.drop_last().remove(0));
    }
}

/// Frees a slot for a new group at the group cap: whole buffers leave, the
/// largest first.
pub open spec fn free_slots<T: Buffered>(
    buffers: Seq<(Seq<char>, Seq<T::V>)>,
    max_groups: nat,
    group: Seq<char>,
) -> (Seq<(Seq<char>, Seq<T::V>)>, Seq<T::V>)
    decreases buffers.len(),
{
    if buffers.len() >= max_groups && !assoc::known(buffers, group) {
        match victim::<T>(buffers) {
            Some(i) => if 0 <= i < buffers.len() {
                let rest = free_slots::<T>(buffers.remove(i), max_groups, group);
                (rest.0, buffers[i].1 + rest.1)
            } else {
                (buffers, Seq::empty())
            },
            None => (buffers, Seq::empty()),
        }
    } else {
        (buffers, Seq::empty())
    }
}

/// The buffers without the front entry of buffer `i`; a buffer that this
/// empties goes with it.
pub open spec fn pop_front<V>(buffers: Seq<(Seq<char>, Seq<V>)>, i: int) -> Seq<
    (Seq<char>, Seq<V>),
> {
    if buffers[i].1.len() <= 1 {
        buffers.remove(i)
    } else {
        buffers.update(i, (buffers[i].0, buffers[i].1.remove(0)))
    }
}

/// Taking one entry out lowers the totals by that entry.
pub proof fn lemma_pop_front<T: Buffered>(buffers: Seq<(Seq<char>, Seq<T::V>)>, i: int)
    requires
        0 <= i < buffers.len(),
        buffers[i].1.len() > 0,
    ensures
        entries_in(pop_front(buffers, i)) == entries_in(buffers) - 1,
        bytes_in::<T>(pop_front(buffers, i)) == bytes_in::<T>(buffers) - T::weight(
            buffers[i].1[0],
        ),
{
    lemma_queue_front::<T>(buffers[i].1);
    if buffers[i].1.len() == 1 {
        lemma_remove::<T>(buffers, i);
        assert(buffers[i].1.remove(0) =~= Seq::empty());
    } else {
        lemma_update::<T>(buffers, i, (buffers[i].0, buffers[i].1.remove(0)));
    }
}

/// Makes room for one more entry of `incoming` bytes: the oldest entry of the
/// largest buffer leaves until both the entry cap and the byte cap have room.
pub open spec fn make_room<T: Buffered>(
    buffers: Seq<(Seq<char>, Seq<T::V>)>,
    max_entries: nat,
    max_bytes: nat,
    incoming: nat,
) -> (Seq<(Seq<char>, Seq<T::V>)>, Seq<T::V>)
    decreases entries_in(buffers),
{
    if entries_in(buffers) >= max_entries || bytes_in::<T>(buffers) + incoming > max_bytes {
        match victim::<T>(buffers) {
            Some(i) => {
                proof {
                    lemma_victim::<T>(buffers);
                    lemma_pop_front::<T>(buffers, i);
                }
                let rest = make_room::<T>(pop_front(buffers, i), max_entries, max_bytes, incoming);
                (rest.0, seq![buffers[i].1[0]] + rest.1)
            },
            None => (buffers, Seq::empty()),
        }
    } else {
        (buffers, Seq::empty())
    }
}

/// What an incoming entry does to the buffers before it lands: nothing and no
/// room where it alone exceeds the byte cap, otherwise first a group slot and
/// then room in the totals.
pub open spec fn cleared<T: Buffered>(
    buffers: Seq<(Seq<char>, Seq<T::V>)>,
    group: Seq<char>,
    caps: GlobalBufferCaps,
    incoming: nat,
) -> Option<(Seq<(Seq<char>, Seq<T::V>)>, Seq<T::V>)> {
    if incoming > caps.max_bytes {
        None
    } else {
        let slots = free_slots::<T>(buffers, caps.max_groups as nat, group);
        let room = make_room::<T>(
            slots.0,
            caps.max_entries as nat,
            caps.max_bytes as nat,
            incoming,
        );
        Some((room.0, slots.1 + room.1))
    }
}

/// `n`, or the largest number where it does not fit.
spec fn capped(n: nat) -> u128 {
    if n > u128::MAX {
        u128::MAX
    } else {
        n as u128
    }
}

fn queue_total<T: Buffered>(queue: &Vec<T>) -> (n: u128)
    ensures
        n == capped(queue_bytes::<T>(queue.deep_view())),
{
    let mut n: u128 = 0;
    let mut i: usize = 0;
    assert(queue.deep_view().take(0) =~= Seq::empty());
    while i < queue.len()
        invariant
            i <= queue@.len(),
            n == capped(queue_bytes::<T>(queue.deep_view().take(i as int))),
        decreases queue@.len() - i,
    {
        proof {
            let next = queue.deep_view().take(i + 1);
            assert(next.drop_last() =~= queue.deep_view().take(i as int));
            assert(next.last() == queue[i as int].deep_view());
        }
        n = n.saturating_add(queue[i].entry_bytes() as u128);
        i = i + 1;
    }
    assert(queue.deep_view().take(i as int) =~= queue.deep_view());
    n
}

/// Entries and bytes over all buffers, each capped at the largest number.
fn totals<T: Buffered>(buffers: &StrMap<Vec<T>>) -> (r: (u128, u128))
    ensures
        r.0 == capped(entries_in(buffers@)),
        r.1 == capped(bytes_in::<T>(buffers@)),
{
    let mut entries: u128 = 0;
    let mut bytes: u128 = 0;
    let mut i: usize = 0;
    assert(buffers@.take(0) =~= Seq::empty());
    while i < buffers.len()
        invariant
            i <= buffers@.len(),
            entries == capped(entries_in(buffers@.take(i as int))),
            bytes == capped(bytes_in::<T>(buffers@.take(i as int))),
        decreases buffers@.len() - i,
    {
        proof {
            let next = buffers@.take(i + 1);
            assert(next.drop_last() =~= buffers@.take(i as int));
            assert(next.last() == buffers@[i as int]);
        }
        let queue = buffers.value_at(i);
        entries = entries.saturating_add(queue.len() as u128);
        bytes = bytes.saturating_add(queue_total(queue));
        i = i + 1;
    }
    assert(buffers@.take(i as int) =~= buffers@);
    (entries, bytes)
}

/// The buffer to evict from.
fn pick_victim<T: Buffered>(buffers: &StrMap<Vec<T>>) -> (r: Option<usize>)
    ensures
        match r {
            Some(i) => victim::<T>(buffers@) == Some(i as int),
            None => victim::<T>(buffers@) is None,
        },
{
    let mut best: Option<usize> = None;
    let mut i: usize = 0;
    assert(buffers@.take(0) =~= Seq::empty());
    while i < buffers.len()
        invariant
            i <= buffers@.len(),
            match best {
                Some(b) => b < i && buffers@[b as int].1.len() > 0 && victim::<T>(
                    buffers@.take(i as int),
                ) == Some(b as int),
                None => victim::<T>(buffers@.take(i as int)) is None,
            },
        decreases buffers@.len() - i,
    {
        proof {
            let next = buffers@.take(i + 1);
            assert(next.drop_last() =~= buffers@.take(i as int));
            assert(next.last() == buffers@[i as int]);
            assert(best matches Some(b) ==> next[b as int] == buffers@[b as int]);
        }
        let queue = buffers.value_at(i);
        assert(queue.deep_view().len() == queue@.len());
        if queue.len() > 0 {
            assert(queue.deep_view()[0] == queue@[0].deep_view());
            match best {
                Some(b) => {
                    let other = buffers.value_at(b);
                    assert(other.deep_view().len() == other@.len());
                    assert(other.deep_view()[0] == other@[0].deep_view());
                    if queue.len() > other.len() || (queue.len() == other.len()
                        && queue[0].buffered_since() <= other[0].buffered_since()) {
                        best = Some(i);
                    }
                },
                None => {
                    best = Some(i);
                },
            }
        }
        i = i + 1;
    }
    assert(buffers@.take(i as int) =~= buffers@);
    best
}

/// Appends every entry of `queue` to `out`.
fn append_all<T: DeepView>(out: &mut Vec<T>, queue: Vec<T>)
    ensures
        final(out).deep_view() == old(out).deep_view() + queue.deep_view(),
{
    let mut rest = queue;
    let ghost tail = rest@;
    out.append(&mut rest);
    assert(out.deep_view() =~= old(out).deep_view() + tail.map_values(|e: T| e.deep_view()));
    assert(tail.map_values(|e: T| e.deep_view()) =~= queue.deep_view());
}

/// Enforces the global bound ahead of an incoming entry of `incoming_bytes` for
/// `incoming_group`, and hands back what was evicted so that the caller can
/// release per-entry state. Nothing is evicted, and `None` comes back, where the
/// incoming entry alone exceeds the byte cap: the caller must drop it.
pub fn enforce_global_buffer_bound<T: Buffered>(
    buffers: &mut StrMap<Vec<T>>,
    incoming_group: &str,
    caps: &GlobalBufferCaps,
    incoming_bytes: usize,
) -> (r: Option<Vec<T>>)
    requires
        old(buffers).wf(),
    ensures
        final(buffers).wf(),
        match (r, cleared::<T>(old(buffers)@, incoming_group@, *caps, incoming_bytes as nat)) {
            (Some(evicted), Some(after)) => final(buffers)@ == after.0 && evicted.deep_view()
                == after.1,
            (None, None) => final(buffers)@ == old(buffers)@,
            _ => false,
        },
{
    if incoming_bytes > caps.max_bytes {
        return None;
    }
    let ghost start = buffers@;
    let ghost slots = free_slots::<T>(start, caps.max_groups as nat, incoming_group@);
    let mut evicted: Vec<T> = Vec::new();
    assert(evicted.deep_view() =~= Seq::empty());
    assert(evicted.deep_view() + slots.1 =~= slots.1);
    let mut more: bool = true;
    while more
        invariant
            buffers.wf(),
            slots == free_slots::<T>(start, caps.max_groups as nat, incoming_group@),
            slots.0 == free_slots::<T>(buffers@, caps.max_groups as nat, incoming_group@).0,
            slots.1 == evicted.deep_view() + free_slots::<T>(
                buffers@,
                caps.max_groups as nat,
                incoming_group@,
            ).1,
            !more ==> free_slots::<T>(buffers@, caps.max_groups as nat, incoming_group@) == (
                buffers@,
                Seq::<T::V>::empty(),
            ),
        decreases buffers@.len() + if more { 1int } else { 0int },
    {
        if buffers.len() >= caps.max_groups && !buffers.contains_key(incoming_group) {
            match pick_victim(buffers) {
                Some(i) => {
                    proof {
                        lemma_victim::<T>(buffers@);
                        assoc::lemma_position(buffers@, i as int);
                        assoc::lemma_del(buffers@, buffers@[i as int].0);
                    }
                    let ghost before = buffers@;
                    let ghost out = evicted.deep_view();
                    let gone = buffers.remove_at(i);
                    append_all(&mut evicted, gone.1);
                    proof {
                        let rest = free_slots::<T>(
                            buffers@,
                            caps.max_groups as nat,
                            incoming_group@,
                        );
                        assert(out + (before[i as int].1 + rest.1) =~= evicted.deep_view() + rest.1);
                    }
                },
                None => {
                    more = false;
                },
            }
        } else {
            more = false;
        }
    }
    assert(evicted.deep_view() + Seq::<T::V>::empty() =~= evicted.deep_view());
    let ghost room = make_room::<T>(
        slots.0,
        caps.max_entries as nat,
        caps.max_bytes as nat,
        incoming_bytes as nat,
    );
    assert(evicted.deep_view() + room.1 =~= slots.1 + room.1);
    let mut more: bool = true;
    while more
        invariant
            buffers.wf(),
            incoming_bytes <= caps.max_bytes,
            room.0 == make_room::<T>(
                buffers@,
                caps.max_entries as nat,
                caps.max_bytes as nat,
                incoming_bytes as nat,
            ).0,
            slots.1 + room.1 == evicted.deep_view() + make_room::<T>(
                buffers@,
                caps.max_entries as nat,
                caps.max_bytes as nat,
                incoming_bytes as nat,
            ).1,
            !more ==> make_room::<T>(
                buffers@,
                caps.max_entries as nat,
                caps.max_bytes as nat,
                incoming_bytes as nat,
            ) == (buffers@, Seq::<T::V>::empty()),
        decreases entries_in(buffers@) + if more { 1int } else { 0int },
    {
        let (entries, bytes) = totals(buffers);
        if entries >= caps.max_entries as u128 || bytes > (caps.max_bytes - incoming_bytes) as u128 {
            match pick_victim(buffers) {
                Some(i) => {
                    proof {
                        lemma_victim::<T>(buffers@);
                        lemma_pop_front::<T>(buffers@, i as int);
                        assoc::lemma_position(buffers@, i as int);
                        assoc::lemma_del(buffers@, buffers@[i as int].0);
                    }
                    let ghost before = buffers@;
                    let ghost out = evicted.deep_view();
                    let ghost rest = make_room::<T>(
                        pop_front(before, i as int),
                        caps.max_entries as nat,
                        caps.max_bytes as nat,
                        incoming_bytes as nat,
                    );
                    let last: bool = buffers.value_at(i).len() == 1;
                    if last {
                        let gone = buffers.remove_at(i);
                        assert(gone.1.deep_view() =~= seq![before[i as int].1[0]]);
                        append_all(&mut evicted, gone.1);
                    } else {
                        let queue = buffers.value_at_mut(i);
                        let ghost whole = queue.deep_view();
                        let entry = queue.remove(0);
                        assert(queue.deep_view() =~= whole.remove(0));
                        assert(entry.deep_view() == whole[0]);
                        let ghost e = entry.deep_view();
                        evicted.push(entry);
                        assert(evicted.deep_view() =~= out + seq![e]);
                        assert(buffers@ =~= pop_front(before, i as int));
                        assert(assoc::distinct(buffers@)) by {
                            assert forall|x: int, y: int|
                                #![trigger buffers@[x], buffers@[y]]
                                0 <= x < y < buffers@.len() implies buffers@[x].0 != buffers@[y].0 by {
                                assert(before[x].0 != before[y].0);
                            }
                        }
                    }
                    assert(buffers@ =~= pop_front(before, i as int));
                    assert(out + (seq![before[i as int].1[0]] + rest.1) =~= evicted.deep_view()
                        + rest.1);
                },
                None => {
                    more = false;
                },
            }
        } else {
            more = false;
        }
    }
    assert(evicted.deep_view() + Seq::<T::V>::empty() =~= evicted.deep_view());
    Some(evicted)
}

/// The entries of a buffer that are younger than `limit`.
pub open spec fn live<T: Buffered>(queue: Seq<T::V>, now: u128, limit: u128) -> Seq<T::V> {
    queue.filter(|e: T::V| age(now, T::since(e)) < limit)
}

/// The entries of a buffer that have reached `limit`.
pub open spec fn dead<T: Buffered>(queue: Seq<T::V>, now: u128, limit: u128) -> Seq<T::V> {
    queue.filter(|e: T::V| age(now, T::since(e)) >= limit)
}

/// The buffers with their live entries only; a buffer without any is gone.
pub open spec fn swept<T: Buffered>(
    buffers: Seq<(Seq<char>, Seq<T::V>)>,
    now: u128,
    limit: u128,
) -> Seq<(Seq<char>, Seq<T::V>)> {
    buffers.map_values(|e: (Seq<char>, Seq<T::V>)| (e.0, live::<T>(e.1, now, limit))).filter(
        |e: (Seq<char>, Seq<T::V>)| e.1.len() > 0,
    )
}

/// The entries that a sweep drops, by group.
pub open spec fn expired<T: Buffered>(
    buffers: Seq<(Seq<char>, Seq<T::V>)>,
    now: u128,
    limit: u128,
) -> Seq<(Seq<char>, Seq<T::V>)> {
    buffers.map_values(|e: (Seq<char>, Seq<T::V>)| (e.0, dead::<T>(e.1, now, limit)))
}

/// Parts the live entries of a buffer from the dead ones.
fn part<T: Buffered>(queue: Vec<T>, now: u128, limit: u128) -> (r: (Vec<T>, Vec<T>))
    ensures
        r.0.deep_view() == live::<T>(queue.deep_view(), now, limit),
        r.1.deep_view() == dead::<T>(queue.deep_view(), now, limit),
{
    let ghost all = queue.deep_view();
    let ghost keep = |e: T::V| age(now, T::since(e)) < limit;
    let ghost drop = |e: T::V| age(now, T::since(e)) >= limit;
    let mut rest = queue;
    let mut alive: Vec<T> = Vec::new();
    let mut gone: Vec<T> = Vec::new();
    proof {
        assert(alive.deep_view() + all.filter(keep) =~= all.filter(keep));
        assert(gone.deep_view() + all.filter(drop) =~= all.filter(drop));
    }
    while rest.len() > 0
        invariant
            keep == (|e: T::V| age(now, T::since(e)) < limit),
            drop == (|e: T::V| age(now, T::since(e)) >= limit),
            alive.deep_view() + rest.deep_view().filter(keep) == all.filter(keep),
            gone.deep_view() + rest.deep_view().filter(drop) == all.filter(drop),
        decreases rest@.len(),
    {
        let ghost before = rest.deep_view();
        let ghost a = alive.deep_view();
        let ghost g = gone.deep_view();
        let entry = rest.remove(0);
        let ghost e = entry.deep_view();
        proof {
            assert(before =~= seq![e] + rest.deep_view());
            lemma_filter_front(e, rest.deep_view(), keep);
            lemma_filter_front(e, rest.deep_view(), drop);
        }
        if age_of(now, entry.buffered_since()) < limit {
            alive.push(entry);
            assert(alive.deep_view() =~= a.push(e));
            assert(a + (seq![e] + rest.deep_view().filter(keep)) =~= alive.deep_view()
                + rest.deep_view().filter(keep));
        } else {
            gone.push(entry);
            assert(gone.deep_view() =~= g.push(e));
            assert(g + (seq![e] + rest.deep_view().filter(drop)) =~= gone.deep_view()
                + rest.deep_view().filter(drop));
        }
    }
    proof {
        reveal(Seq::filter);
        assert(rest.deep_view() =~= Seq::empty());
        assert(alive.deep_view() =~= all.filter(keep));
        assert(gone.deep_view() =~= all.filter(drop));
    }
    (alive, gone)
}

/// Removes the buffers that hold nothing.
fn drop_empty<T: DeepView>(buffers: &mut StrMap<Vec<T>>)
    requires
        old(buffers).wf(),
    ensures
        final(buffers).wf(),
        final(buffers)@ == old(buffers)@.filter(|e: (Seq<char>, Seq<T::V>)| e.1.len() > 0),
{
    let ghost all = buffers@;
    let ghost keep = |e: (Seq<char>, Seq<T::V>)| e.1.len() > 0;
    let mut i: usize = buffers.len();
    proof {
        reveal(Seq::filter);
        assert(all.skip(i as int) =~= Seq::empty());
        assert(all.take(i as int) + all.skip(i as int).filter(keep) =~= all);
    }
    while i > 0
        invariant
            i <= all.len(),
            keep == (|e: (Seq<char>, Seq<T::V>)| e.1.len() > 0),
            buffers@ == all.take(i as int) + all.skip(i as int).filter(keep),
        decreases i,
    {
        i = i - 1;
        assert(buffers@[i as int] == all[i as int]);
        proof {
            assert(all.skip(i as int) =~= seq![all[i as int]] + all.skip(i + 1));
            lemma_filter_front(all[i as int], all.skip(i + 1), keep);
        }
        let queue = buffers.value_at(i);
        assert(queue.deep_view().len() == queue@.len());
        if queue.len() == 0 {
            let _ = buffers.remove_at(i);
            assert(buffers@ =~= all.take(i as int) + all.skip(i as int).filter(keep));
        } else {
            assert(buffers@ =~= all.take(i as int) + all.skip(i as int).filter(keep));
        }
    }
    proof {
        assert(all.skip(0) =~= all);
        assert(buffers@ =~= all.filter(keep));
        assoc::lemma_filter_distinct(all, keep);
    }
}

/// Drops every entry that has reached `limit` and hands the dropped ones back by
/// group.
pub fn sweep<T: Buffered>(buffers: &mut StrMap<Vec<T>>, now: u128, limit: u128) -> (r: Vec<
    (String, Vec<T>),
>)
    requires
        old(buffers).wf(),
    ensures
        final(buffers).wf(),
        final(buffers)@ == swept::<T>(old(buffers)@, now, limit),
        r.deep_view() == expired::<T>(old(buffers)@, now, limit),
{
    let ghost all = buffers@;
    let ghost kept = all.map_values(
        |e: (Seq<char>, Seq<T::V>)| (e.0, live::<T>(e.1, now, limit)),
    );
    let ghost gone = expired::<T>(all, now, limit);
    let mut r: Vec<(String, Vec<T>)> = Vec::new();
    let mut i: usize = 0;
    assert(buffers@ =~= kept.take(0) + all.skip(0));
    assert(r.deep_view() =~= gone.take(0));
    while i < buffers.len()
        invariant
            i <= all.len(),
            buffers@.len() == all.len(),
            kept == all.map_values(
                |e: (Seq<char>, Seq<T::V>)| (e.0, live::<T>(e.1, now, limit)),
            ),
            gone == expired::<T>(all, now, limit),
            buffers@ == kept.take(i as int) + all.skip(i as int),
            r.deep_view() == gone.take(i as int),
        decreases buffers@.len() - i,
    {
        assert(buffers@[i as int] == all[i as int]);
        let ghost before = buffers@;
        let ghost out = r.deep_view();
        let group = buffers.key_at(i).clone();
        let mut queue: Vec<T> = Vec::new();
        let slot = buffers.value_at_mut(i);
        std::mem::swap(&mut queue, slot);
        assert(queue.deep_view() == all[i as int].1);
        let (alive, dropped) = part(queue, now, limit);
        let ghost a = alive.deep_view();
        let ghost d = dropped.deep_view();
        *slot = alive;
        r.push((group, dropped));
        proof {
            assert(buffers@ =~= before.update(i as int, (all[i as int].0, a)));
            assert(kept[i as int] == (all[i as int].0, a));
            assert(buffers@ =~= kept.take(i + 1) + all.skip(i + 1));
            assert(r.deep_view() =~= out.push((all[i as int].0, d)));
            assert(gone[i as int] == (all[i as int].0, d));
            assert(r.deep_view() =~= gone.take(i + 1));
        }
        i = i + 1;
    }
    proof {
        assert(buffers@ =~= kept);
        assert(r.deep_view() =~= gone);
        assert forall|x: int, y: int|
            #![trigger buffers@[x], buffers@[y]]
            0 <= x < y < buffers@.len() implies buffers@[x].0 != buffers@[y].0 by {
            assert(all[x].0 != all[y].0);
        }
    }
    drop_empty(buffers);
    r
}

/// One buffer after an entry lands at its end: at the cap its front entry makes
/// way.
pub open spec fn landed<V>(queue: Seq<V>, per_group: nat, entry: V) -> Seq<V> {
    if queue.len() >= per_group {
        queue.remove(0).push(entry)
    } else {
        queue.push(entry)
    }
}

/// What an entry displaces from its own buffer.
pub open spec fn displaced<V>(queue: Seq<V>, per_group: nat) -> Seq<V> {
    if queue.len() >= per_group {
        seq![queue[0]]
    } else {
        Seq::empty()
    }
}

/// The buffer of a group, empty where there is none.
pub open spec fn queue_of<V>(buffers: Seq<(Seq<char>, Seq<V>)>, group: Seq<char>) -> Seq<V> {
    match assoc::lookup(buffers, group) {
        Some(queue) => queue,
        None => Seq::empty(),
    }
}

/// The buffers after an entry was buffered, and all that left to make room; none
/// where the entry alone exceeds the byte cap and is dropped.
pub open spec fn enqueued<T: Buffered>(
    buffers: Seq<(Seq<char>, Seq<T::V>)>,
    group: Seq<char>,
    caps: GlobalBufferCaps,
    per_group: nat,
    entry: T::V,
) -> Option<(Seq<(Seq<char>, Seq<T::V>)>, Seq<T::V>)> {
    match cleared::<T>(buffers, group, caps, T::weight(entry)) {
        None => None,
        Some(room) => {
            let queue = queue_of(room.0, group);
            Some(
                (
                    assoc::put(room.0, group, landed(queue, per_group, entry)),
                    room.1 + displaced(queue, per_group),
                ),
            )
        },
    }
}

/// Appends an entry to its group's buffer under both the global caps and the cap
/// per group, and hands back what left to make room; `None` where the entry
/// alone exceeds the byte cap and was dropped.
pub fn enqueue<T: Buffered>(
    buffers: &mut StrMap<Vec<T>>,
    group: &str,
    caps: &GlobalBufferCaps,
    per_group: usize,
    entry: T,
) -> (r: Option<Vec<T>>)
    requires
        old(buffers).wf(),
        per_group > 0,
    ensures
        final(buffers).wf(),
        match (
            r,
            enqueued::<T>(old(buffers)@, group@, *caps, per_group as nat, entry.deep_view()),
        ) {
            (Some(gone), Some(after)) => final(buffers)@ == after.0 && gone.deep_view() == after.1,
            (None, None) => final(buffers)@ == old(buffers)@,
            _ => false,
        },
{
    match enforce_global_buffer_bound(buffers, group, caps, entry.entry_bytes()) {
        None => None,
        Some(evicted) => {
            let mut gone = evicted;
            let ghost out = gone.deep_view();
            let ghost room = buffers@;
            let ghost e = entry.deep_view();
            proof {
                assoc::lemma_put(room, group@, landed(queue_of(room, group@), per_group as nat, e));
            }
            match buffers.find(group) {
                Some(i) => {
                    let queue = buffers.value_at_mut(i);
                    let ghost whole = queue.deep_view();
                    assert(whole.len() == queue@.len());
                    if queue.len() >= per_group {
                        let front = queue.remove(0);
                        let ghost f = front.deep_view();
                        assert(f == whole[0]);
                        gone.push(front);
                        assert(gone.deep_view() =~= out + seq![f]);
                        assert(queue.deep_view() =~= whole.remove(0));
                    } else {
                        assert(gone.deep_view() =~= out + Seq::<T::V>::empty());
                    }
                    let ghost shorter = queue.deep_view();
                    queue.push(entry);
                    assert(queue.deep_view() =~= shorter.push(e));
                    assert(queue.deep_view() == landed(whole, per_group as nat, e));
                    assert(buffers@ =~= assoc::put(
                        room,
                        group@,
                        landed(whole, per_group as nat, e),
                    ));
                },
                None => {
                    let mut queue: Vec<T> = Vec::new();
                    queue.push(entry);
                    assert(queue.deep_view() =~= landed(Seq::<T::V>::empty(), per_group as nat, e));
                    assert(gone.deep_view() =~= out + Seq::<T::V>::empty());
                    let _ = buffers.insert(group.to_owned(), queue);
                },
            }
            Some(gone)
        },
    }
}

} // verus!

//! Buffers: their bounds hold, and nothing leaves them unnoticed.

use vstd::multiset::Multiset;
use vstd::prelude::*;

use crate::assoc;
use crate::group_mesh::buffer::{
    bytes_in, cleared, displaced, enqueued, entries_in, free_slots, landed, lemma_pop_front,
    lemma_queue_front, lemma_update, lemma_victim, make_room, pop_front, queue_bytes, queue_of,
    victim, Buffered, GlobalBufferCaps,
};
use crate::group_mesh::dedup::{commit_ids, forget_all, message_ids};
use crate::group_mesh::limits::{
    commit_caps, message_caps, nanos, GROUP_MESSAGE_DEDUP_TTL_SECS, MAX_PENDING_COMMITS_PER_GROUP,
    MAX_PENDING_GROUP_MESSAGES_PER_GROUP, PENDING_COMMIT_TTL_SECS, PENDING_GROUP_MESSAGE_TTL_SECS,
};
use crate::group_mesh::state::MeshView;
use crate::group_mesh::types::{
    PendingCommit, PendingCommitView, PendingGroupMessage, PendingGroupMessageView,
};

verus! {

/// Buffers within their caps: on groups, on entries, on bytes and on the entries
/// of one group, none of them empty.
pub open spec fn bounded<T: Buffered>(
    buffers: Seq<(Seq<char>, Seq<T::V>)>,
    caps: GlobalBufferCaps,
    per_group: nat,
) -> bool {
    &&& assoc::distinct(buffers)
    &&& buffers.len() <= caps.max_groups
    &&& entries_in(buffers) <= caps.max_entries
    &&& bytes_in::<T>(buffers) <= caps.max_bytes
    &&& forall|i: int|
        0 <= i < buffers.len() ==> 0 < (#[trigger] buffers[i]).1.len() <= per_group
}

/// Every entry, buffer by buffer.
pub open spec fn contents<V>(buffers: Seq<(Seq<char>, Seq<V>)>) -> Multiset<V>
    decreases buffers.len(),
{
    if buffers.len() == 0 {
        Multiset::empty()
    } else {
        contents(buffers.drop_last()).add(buffers.last().1.to_multiset())
    }
}

proof fn lemma_concat_multiset<V>(a: Seq<V>, b: Seq<V>)
    ensures
        (a + b).to_multiset() =~= a.to_multiset().add(b.to_multiset()),
{
    vstd::seq_lib::lemma_multiset_commutative(a, b);
}

proof fn lemma_contents_remove<V>(buffers: Seq<(Seq<char>, Seq<V>)>, i: int)
    requires
        0 <= i < buffers.len(),
    ensures
        contents(buffers) =~= contents(buffers.remove(i)).add(buffers[i].1.to_multiset()),
    decreases buffers.len(),
{
    if i < buffers.len() - 1 {
        lemma_contents_remove(buffers.drop_last(), i);
        assert(buffers.remove(i).drop_last() =~= buffers.drop_last().remove(i));
        assert(buffers.remove(i).last() == buffers.last());
    } else {
        assert(buffers.remove(i) =~= buffers.drop_last());
    }
}

proof fn lemma_contents_update<V>(
    buffers: Seq<(Seq<char>, Seq<V>)>,
    i: int,
    new: (Seq<char>, Seq<V>),
)
    requires
        0 <= i < buffers.len(),
    ensures
        contents(buffers.update(i, new)).add(buffers[i].1.to_multiset()) =~= contents(buffers).add(
            new.1.to_multiset(),
        ),
    decreases buffers.len(),
{
    if i < buffers.len() - 1 {
        let init = buffers.drop_last();
        lemma_contents_update(init, i, new);
        assert(buffers.update(i, new).drop_last() =~= init.update(i, new));
        let shorter = contents(init.update(i, new)).add(init[i].1.to_multiset());
        assert(shorter == contents(init).add(new.1.to_multiset()));
        assert forall|v: V|
            #![trigger contents(buffers.update(i, new)).count(v)]
            contents(buffers.update(i, new)).count(v) + buffers[i].1.to_multiset().count(v)
                == contents(buffers).count(v) + new.1.to_multiset().count(v) by {
            assert(shorter.count(v) == contents(init).count(v) + new.1.to_multiset().count(v));
        }
    } else {
        assert(buffers.update(i, new).drop_last() =~= buffers.drop_last());
    }
}

proof fn lemma_contents_pop<V>(buffers: Seq<(Seq<char>, Seq<V>)>, i: int)
    requires
        0 <= i < buffers.len(),
        buffers[i].1.len() > 0,
    ensures
        contents(buffers) =~= contents(pop_front(buffers, i)).insert(buffers[i].1[0]),
{
    broadcast use vstd::seq_lib::group_to_multiset_ensures;

    let queue = buffers[i].1;
    assert(queue.to_multiset() =~= queue.remove(0).to_multiset().insert(queue[0])) by {
        assert(queue =~= queue.remove(0).insert(0, queue[0]));
    }
    if queue.len() == 1 {
        lemma_contents_remove(buffers, i);
        assert(queue.remove(0) =~= Seq::empty());
    } else {
        let next = buffers.update(i, (buffers[i].0, queue.remove(0)));
        lemma_contents_update(buffers, i, (buffers[i].0, queue.remove(0)));
        let both = contents(next).add(queue.to_multiset());
        assert(both == contents(buffers).add(queue.remove(0).to_multiset()));
        assert forall|v: V|
            #![trigger contents(buffers).count(v)]
            contents(buffers).count(v) == contents(next).insert(queue[0]).count(v) by {
            assert(both.count(v) == contents(buffers).count(v) + queue.remove(
                0,
            ).to_multiset().count(v));
        }
    }
}

proof fn lemma_slots_conserve<T: Buffered>(
    buffers: Seq<(Seq<char>, Seq<T::V>)>,
    max_groups: nat,
    group: Seq<char>,
)
    ensures
        contents(buffers) =~= contents(free_slots::<T>(buffers, max_groups, group).0).add(
            free_slots::<T>(buffers, max_groups, group).1.to_multiset(),
        ),
    decreases buffers.len(),
{
    broadcast use vstd::seq_lib::group_to_multiset_ensures;

    let after = free_slots::<T>(buffers, max_groups, group);
    lemma_victim::<T>(buffers);
    if buffers.len() >= max_groups && !assoc::known(buffers, group) && victim::<T>(
        buffers,
    ) is Some {
        let i = victim::<T>(buffers)->0;
        lemma_slots_conserve::<T>(buffers.remove(i), max_groups, group);
        lemma_contents_remove(buffers, i);
        let rest = free_slots::<T>(buffers.remove(i), max_groups, group);
        lemma_concat_multiset(buffers[i].1, rest.1);
    } else {
        assert(after.1.to_multiset() =~= Multiset::empty());
    }
}

proof fn lemma_room_conserves<T: Buffered>(
    buffers: Seq<(Seq<char>, Seq<T::V>)>,
    max_entries: nat,
    max_bytes: nat,
    incoming: nat,
)
    ensures
        contents(buffers) =~= contents(
            make_room::<T>(buffers, max_entries, max_bytes, incoming).0,
        ).add(make_room::<T>(buffers, max_entries, max_bytes, incoming).1.to_multiset()),
    decreases entries_in(buffers),
{
    broadcast use vstd::seq_lib::group_to_multiset_ensures;

    let after = make_room::<T>(buffers, max_entries, max_bytes, incoming);
    lemma_victim::<T>(buffers);
    if (entries_in(buffers) >= max_entries || bytes_in::<T>(buffers) + incoming > max_bytes)
        && victim::<T>(buffers) is Some {
        let i = victim::<T>(buffers)->0;
        lemma_pop_front::<T>(buffers, i);
        lemma_room_conserves::<T>(pop_front(buffers, i), max_entries, max_bytes, incoming);
        lemma_contents_pop(buffers, i);
        let rest = make_room::<T>(pop_front(buffers, i), max_entries, max_bytes, incoming);
        lemma_concat_multiset(seq![buffers[i].1[0]], rest.1);
        assert(seq![buffers[i].1[0]].to_multiset() =~= Multiset::empty().insert(
            buffers[i].1[0],
        )) by {
            assert(seq![buffers[i].1[0]] =~= Seq::<T::V>::empty().push(buffers[i].1[0]));
        }
    } else {
        assert(after.1.to_multiset() =~= Multiset::empty());
    }
}

/// Nothing leaves a buffer unnoticed: what was there, with the new entry, is what
/// is there now together with what was handed back.
pub proof fn buffering_conserves_entries<T: Buffered>(
    buffers: Seq<(Seq<char>, Seq<T::V>)>,
    group: Seq<char>,
    caps: GlobalBufferCaps,
    per_group: nat,
    entry: T::V,
)
    requires
        assoc::distinct(buffers),
        per_group > 0,
        T::weight(entry) <= caps.max_bytes,
    ensures
        enqueued::<T>(buffers, group, caps, per_group, entry) is Some,
        ({
            let after = enqueued::<T>(buffers, group, caps, per_group, entry)->0;
            contents(buffers).insert(entry) == contents(after.0).add(after.1.to_multiset())
        }),
{
    broadcast use vstd::seq_lib::group_to_multiset_ensures;

    let incoming = T::weight(entry);
    let slots = free_slots::<T>(buffers, caps.max_groups as nat, group);
    let room = make_room::<T>(
        slots.0,
        caps.max_entries as nat,
        caps.max_bytes as nat,
        incoming,
    );
    lemma_slots_conserve::<T>(buffers, caps.max_groups as nat, group);
    lemma_room_conserves::<T>(
        slots.0,
        caps.max_entries as nat,
        caps.max_bytes as nat,
        incoming,
    );
    lemma_concat_multiset(slots.1, room.1);
    let queue = queue_of(room.0, group);
    let next = landed(queue, per_group, entry);
    let gone = displaced(queue, per_group);
    lemma_concat_multiset(slots.1 + room.1, gone);
    assert(queue.to_multiset().insert(entry) =~= next.to_multiset().add(gone.to_multiset())) by {
        if queue.len() >= per_group {
            assert(queue =~= queue.remove(0).insert(0, queue[0]));
            assert(gone =~= Seq::<T::V>::empty().push(queue[0]));
        } else {
            assert(gone.to_multiset() =~= Multiset::empty());
        }
    }
    if assoc::known(room.0, group) {
        let p = assoc::position(room.0, group);
        let after = room.0.update(p, (group, next));
        lemma_contents_update(room.0, p, (group, next));
        let both = contents(after).add(queue.to_multiset());
        assert(both == contents(room.0).add(next.to_multiset()));
        let swapped = queue.to_multiset().insert(entry);
        assert forall|v: T::V|
            #![trigger contents(after).count(v)]
            contents(room.0).insert(entry).count(v) == contents(after).count(v)
                + gone.to_multiset().count(v) by {
            assert(both.count(v) == contents(room.0).count(v) + next.to_multiset().count(v));
            assert(swapped.count(v) == next.to_multiset().count(v) + gone.to_multiset().count(v));
        }
        assert(contents(room.0).insert(entry) =~= contents(after).add(gone.to_multiset()));
    } else {
        let after = room.0.push((group, next));
        assert(queue =~= Seq::empty());
        assert(after.drop_last() =~= room.0);
        assert(contents(room.0).insert(entry) =~= contents(after).add(gone.to_multiset()));
    }
    let after = enqueued::<T>(buffers, group, caps, per_group, entry)->0;
    assert(contents(buffers) =~= contents(room.0).add((slots.1 + room.1).to_multiset()));
    assert(contents(buffers).insert(entry) =~= contents(after.0).add(after.1.to_multiset()));
}

proof fn lemma_distinct_remove<V>(buffers: Seq<(Seq<char>, Seq<V>)>, i: int)
    requires
        assoc::distinct(buffers),
        0 <= i < buffers.len(),
    ensures
        assoc::distinct(buffers.remove(i)),
{
    assoc::lemma_position(buffers, i);
    assoc::lemma_del(buffers, buffers[i].0);
}

/// The buffers are each within the group cap and not empty.
pub open spec fn shaped<V>(buffers: Seq<(Seq<char>, Seq<V>)>, per_group: nat) -> bool {
    &&& assoc::distinct(buffers)
    &&& forall|i: int|
        0 <= i < buffers.len() ==> 0 < (#[trigger] buffers[i]).1.len() <= per_group
}

proof fn lemma_slots_bound<T: Buffered>(
    buffers: Seq<(Seq<char>, Seq<T::V>)>,
    max_groups: nat,
    group: Seq<char>,
    per_group: nat,
)
    requires
        shaped(buffers, per_group),
        max_groups > 0,
    ensures
        shaped(free_slots::<T>(buffers, max_groups, group).0, per_group),
        free_slots::<T>(buffers, max_groups, group).0.len() < max_groups || assoc::known(
            free_slots::<T>(buffers, max_groups, group).0,
            group,
        ),
        free_slots::<T>(buffers, max_groups, group).0.len() <= buffers.len(),
    decreases buffers.len(),
{
    lemma_victim::<T>(buffers);
    if buffers.len() >= max_groups && !assoc::known(buffers, group) {
        assert(buffers[0].1.len() > 0);
        crate::group_mesh::buffer::lemma_entries(buffers, 0);
        let i = victim::<T>(buffers)->0;
        lemma_distinct_remove(buffers, i);
        let rest = buffers.remove(i);
        assert forall|j: int| 0 <= j < rest.len() implies 0 < (#[trigger] rest[j]).1.len()
            <= per_group by {
            assert(rest[j] == buffers[if j < i { j } else { j + 1 }]);
        }
        lemma_slots_bound::<T>(rest, max_groups, group, per_group);
    }
}

proof fn lemma_no_entries_no_bytes<T: Buffered>(buffers: Seq<(Seq<char>, Seq<T::V>)>)
    requires
        entries_in(buffers) == 0,
    ensures
        bytes_in::<T>(buffers) == 0,
    decreases buffers.len(),
{
    if buffers.len() > 0 {
        lemma_no_entries_no_bytes::<T>(buffers.drop_last());
    }
}

proof fn lemma_room_bound<T: Buffered>(
    buffers: Seq<(Seq<char>, Seq<T::V>)>,
    max_entries: nat,
    max_bytes: nat,
    incoming: nat,
    per_group: nat,
)
    requires
        shaped(buffers, per_group),
        max_entries > 0,
        incoming <= max_bytes,
    ensures
        ({
            let after = make_room::<T>(buffers, max_entries, max_bytes, incoming).0;
            &&& shaped(after, per_group)
            &&& after.len() <= buffers.len()
            &&& entries_in(after) < max_entries
            &&& bytes_in::<T>(after) + incoming <= max_bytes
        }),
    decreases entries_in(buffers),
{
    lemma_victim::<T>(buffers);
    if entries_in(buffers) >= max_entries || bytes_in::<T>(buffers) + incoming > max_bytes {
        if victim::<T>(buffers) is None {
            lemma_no_entries_no_bytes::<T>(buffers);
        } else {
            let i = victim::<T>(buffers)->0;
            lemma_pop_front::<T>(buffers, i);
            lemma_distinct_remove(buffers, i);
            let next = pop_front(buffers, i);
            if buffers[i].1.len() <= 1 {
                assert forall|j: int| 0 <= j < next.len() implies 0 < (#[trigger] next[j]).1.len()
                    <= per_group by {
                    assert(next[j] == buffers[if j < i { j } else { j + 1 }]);
                }
            } else {
                assert forall|j: int| 0 <= j < next.len() implies 0 < (#[trigger] next[j]).1.len()
                    <= per_group by {
                    assert(buffers[j].1.len() > 0);
                }
                assert forall|x: int, y: int|
                    #![trigger next[x], next[y]]
                    0 <= x < y < next.len() implies next[x].0 != next[y].0 by {
                    assert(buffers[x].0 != buffers[y].0);
                }
            }
            lemma_room_bound::<T>(next, max_entries, max_bytes, incoming, per_group);
        }
    }
}

/// Buffering keeps every bound: on groups, entries, bytes and entries per group,
/// whatever comes in and under whatever group id.
pub proof fn buffering_keeps_the_bounds<T: Buffered>(
    buffers: Seq<(Seq<char>, Seq<T::V>)>,
    group: Seq<char>,
    caps: GlobalBufferCaps,
    per_group: nat,
    entry: T::V,
)
    requires
        bounded::<T>(buffers, caps, per_group),
        caps.max_groups > 0,
        caps.max_entries > 0,
        per_group > 0,
    ensures
        enqueued::<T>(buffers, group, caps, per_group, entry) matches Some(after) ==> bounded::<T>(
            after.0,
            caps,
            per_group,
        ),
        enqueued::<T>(buffers, group, caps, per_group, entry) is None <==> T::weight(entry)
            > caps.max_bytes,
{
    let incoming = T::weight(entry);
    if incoming <= caps.max_bytes {
        let slots = free_slots::<T>(buffers, caps.max_groups as nat, group).0;
        lemma_slots_bound::<T>(buffers, caps.max_groups as nat, group, per_group);
        let room = make_room::<T>(
            slots,
            caps.max_entries as nat,
            caps.max_bytes as nat,
            incoming,
        ).0;
        lemma_room_bound::<T>(
            slots,
            caps.max_entries as nat,
            caps.max_bytes as nat,
            incoming,
            per_group,
        );
        lemma_room_keys::<T>(
            slots,
            caps.max_entries as nat,
            caps.max_bytes as nat,
            incoming,
        );
        let queue = queue_of(room, group);
        let next = landed(queue, per_group, entry);
        let after = assoc::put(room, group, next);
        assoc::lemma_put(room, group, next);
        if queue.len() >= per_group {
            lemma_queue_front::<T>(queue);
            assert(queue.remove(0).push(entry).drop_last() =~= queue.remove(0));
        } else {
            assert(queue.push(entry).drop_last() =~= queue);
        }
        assert(queue_bytes::<T>(next) <= queue_bytes::<T>(queue) + incoming);
        assert(next.len() <= queue.len() + 1);
        if assoc::known(room, group) {
            let p = assoc::position(room, group);
            lemma_update::<T>(room, p, (group, next));
            assert(room[p].1 == queue);
            assert forall|j: int| 0 <= j < after.len() implies 0 < (#[trigger] after[j]).1.len()
                <= per_group by {
                if j != p {
                    assert(after[j] == room[j]);
                }
            }
        } else {
            assert(after.drop_last() =~= room);
            assert(queue =~= Seq::empty());
            assert forall|j: int| 0 <= j < after.len() implies 0 < (#[trigger] after[j]).1.len()
                <= per_group by {
                if j < room.len() {
                    assert(after[j] == room[j]);
                }
            }
            if assoc::known(slots, group) {
                assert(room.len() < slots.len());
            }
            assert(after.len() <= caps.max_groups);
            assert(entries_in(after) <= caps.max_entries);
            assert(bytes_in::<T>(after) <= caps.max_bytes);
        }
        assert(bounded::<T>(after, caps, per_group));
    }
}

/// A group that loses its buffer while room is made leaves one buffer fewer.
proof fn lemma_room_keys<T: Buffered>(
    buffers: Seq<(Seq<char>, Seq<T::V>)>,
    max_entries: nat,
    max_bytes: nat,
    incoming: nat,
)
    requires
        assoc::distinct(buffers),
    ensures
        make_room::<T>(buffers, max_entries, max_bytes, incoming).0.len() <= buffers.len(),
        forall|g: Seq<char>|
            assoc::known(buffers, g) && !#[trigger] assoc::known(
                make_room::<T>(buffers, max_entries, max_bytes, incoming).0,
                g,
            ) ==> make_room::<T>(buffers, max_entries, max_bytes, incoming).0.len()
                < buffers.len(),
    decreases entries_in(buffers),
{
    lemma_victim::<T>(buffers);
    if (entries_in(buffers) >= max_entries || bytes_in::<T>(buffers) + incoming > max_bytes)
        && victim::<T>(buffers) is Some {
        let i = victim::<T>(buffers)->0;
        lemma_pop_front::<T>(buffers, i);
        lemma_distinct_remove(buffers, i);
        let next = pop_front(buffers, i);
        let after = make_room::<T>(buffers, max_entries, max_bytes, incoming).0;
        if buffers[i].1.len() > 1 {
            assert forall|x: int, y: int|
                #![trigger next[x], next[y]]
                0 <= x < y < next.len() implies next[x].0 != next[y].0 by {
                assert(buffers[x].0 != buffers[y].0);
            }
        }
        lemma_room_keys::<T>(next, max_entries, max_bytes, incoming);
        assert forall|g: Seq<char>|
            assoc::known(buffers, g) && !#[trigger] assoc::known(after, g) implies after.len()
            < buffers.len() by {
            if buffers[i].1.len() > 1 {
                let p = assoc::position(buffers, g);
                assert(next[p].0 == g);
                assert(assoc::known(next, g));
            }
        }
    }
}

/// An entry that alone exceeds the byte cap is dropped and evicts nothing.
pub proof fn an_oversized_entry_evicts_nothing(
    mesh: MeshView,
    group: Seq<char>,
    commit: PendingCommitView,
    message: PendingGroupMessageView,
)
    ensures
        PendingCommit::weight(commit) > commit_caps().max_bytes ==> mesh.commit_buffered(
            group,
            commit,
        ) == mesh,
        PendingGroupMessage::weight(message) > message_caps().max_bytes ==> mesh.message_buffered(
            group,
            message,
        ) == mesh,
{
}

/// Buffered commits and messages stay within their bounds.
pub proof fn pending_buffers_are_bounded(
    mesh: MeshView,
    group: Seq<char>,
    commit: PendingCommitView,
    message: PendingGroupMessageView,
)
    requires
        bounded::<PendingCommit>(
            mesh.commits,
            commit_caps(),
            MAX_PENDING_COMMITS_PER_GROUP as nat,
        ),
        bounded::<PendingGroupMessage>(
            mesh.messages,
            message_caps(),
            MAX_PENDING_GROUP_MESSAGES_PER_GROUP as nat,
        ),
    ensures
        bounded::<PendingCommit>(
            mesh.commit_buffered(group, commit).commits,
            commit_caps(),
            MAX_PENDING_COMMITS_PER_GROUP as nat,
        ),
        bounded::<PendingGroupMessage>(
            mesh.message_buffered(group, message).messages,
            message_caps(),
            MAX_PENDING_GROUP_MESSAGES_PER_GROUP as nat,
        ),
{
    buffering_keeps_the_bounds::<PendingCommit>(
        mesh.commits,
        group,
        commit_caps(),
        MAX_PENDING_COMMITS_PER_GROUP as nat,
        commit,
    );
    buffering_keeps_the_bounds::<PendingGroupMessage>(
        mesh.messages,
        group,
        message_caps(),
        MAX_PENDING_GROUP_MESSAGES_PER_GROUP as nat,
        message,
    );
}

proof fn lemma_forgotten(seen: Seq<(Seq<char>, u128)>, ids: Seq<Seq<char>>, i: int)
    requires
        assoc::distinct(seen),
        0 <= i < ids.len(),
    ensures
        assoc::distinct(forget_all(seen, ids)),
        !assoc::known(forget_all(seen, ids), ids[i]),
    decreases ids.len(),
{
    let init = ids.drop_last();
    lemma_forget_distinct(seen, init);
    assoc::lemma_del(forget_all(seen, init), ids.last());
    if i < init.len() {
        lemma_forgotten(seen, init, i);
        if ids[i] != ids.last() {
            assert(assoc::known(forget_all(seen, ids), ids[i]) == assoc::known(
                forget_all(seen, init),
                ids[i],
            ));
        }
    }
}

/// Forgetting ids keeps the table without repeated keys.
pub proof fn lemma_forget_distinct(seen: Seq<(Seq<char>, u128)>, ids: Seq<Seq<char>>)
    requires
        assoc::distinct(seen),
    ensures
        assoc::distinct(forget_all(seen, ids)),
    decreases ids.len(),
{
    if ids.len() > 0 {
        lemma_forget_distinct(seen, ids.drop_last());
        assoc::lemma_del(forget_all(seen, ids.drop_last()), ids.last());
    }
}

/// A copy that makes way is accepted fresh when it comes again: its id is no
/// longer recorded as seen.
pub proof fn an_evicted_copy_is_accepted_again(
    mesh: MeshView,
    group: Seq<char>,
    commit: PendingCommitView,
    message: PendingGroupMessageView,
    i: int,
)
    requires
        mesh.wf(),
    ensures
        enqueued::<PendingCommit>(
            mesh.commits,
            group,
            commit_caps(),
            MAX_PENDING_COMMITS_PER_GROUP as nat,
            commit,
        ) matches Some(after) ==> (0 <= i < after.1.len() ==> !assoc::known(
            mesh.commit_buffered(group, commit).seen,
            after.1[i].message_id,
        )),
        enqueued::<PendingGroupMessage>(
            mesh.messages,
            group,
            message_caps(),
            MAX_PENDING_GROUP_MESSAGES_PER_GROUP as nat,
            message,
        ) matches Some(after) ==> (0 <= i < after.1.len() ==> !assoc::known(
            mesh.message_buffered(group, message).seen,
            after.1[i].message_id,
        )),
{
    let c = enqueued::<PendingCommit>(
        mesh.commits,
        group,
        commit_caps(),
        MAX_PENDING_COMMITS_PER_GROUP as nat,
        commit,
    );
    if c is Some {
        let gone = (c->0).1;
        if 0 <= i < gone.len() {
            lemma_forgotten(mesh.seen, commit_ids(gone), i);
        }
    }
    let m = enqueued::<PendingGroupMessage>(
        mesh.messages,
        group,
        message_caps(),
        MAX_PENDING_GROUP_MESSAGES_PER_GROUP as nat,
        message,
    );
    if m is Some {
        let gone = (m->0).1;
        if 0 <= i < gone.len() {
            lemma_forgotten(mesh.seen, message_ids(gone), i);
        }
    }
}

/// A buffered copy lives at least as long as its id is recorded: while a
/// redelivery is rejected, the copy is still there.
pub proof fn a_buffered_copy_outlives_its_mark()
    ensures
        nanos(PENDING_COMMIT_TTL_SECS) >= nanos(GROUP_MESSAGE_DEDUP_TTL_SECS),
        nanos(PENDING_GROUP_MESSAGE_TTL_SECS) >= nanos(GROUP_MESSAGE_DEDUP_TTL_SECS),
{
}

/// Room is made at the expense of the largest buffer, and of its oldest entry.
pub proof fn the_largest_buffer_yields<T: Buffered>(
    buffers: Seq<(Seq<char>, Seq<T::V>)>,
    max_entries: nat,
    max_bytes: nat,
    incoming: nat,
    j: int,
)
    requires
        make_room::<T>(buffers, max_entries, max_bytes, incoming).1.len() > 0,
        0 <= j < buffers.len(),
    ensures
        victim::<T>(buffers) matches Some(i) && {
            &&& 0 <= i < buffers.len()
            &&& buffers[i].1.len() >= buffers[j].1.len()
            &&& make_room::<T>(buffers, max_entries, max_bytes, incoming).1[0] == buffers[i].1[0]
        },
{
    lemma_victim::<T>(buffers);
    let i = victim::<T>(buffers)->0;
    if buffers[j].1.len() > 0 {
        assert(crate::group_mesh::buffer::outranks::<T>(buffers[i].1, buffers[j].1));
    }
}

/// There is room for one more entry of `incoming` bytes in `group`.
pub open spec fn has_room<T: Buffered>(
    buffers: Seq<(Seq<char>, Seq<T::V>)>,
    group: Seq<char>,
    caps: GlobalBufferCaps,
    incoming: nat,
) -> bool {
    &&& assoc::known(buffers, group) || buffers.len() < caps.max_groups
    &&& entries_in(buffers) < caps.max_entries
    &&& bytes_in::<T>(buffers) + incoming <= caps.max_bytes
}

/// One buffer is the newest part of the other, and not empty.
pub open spec fn is_tail<V>(rest: (Seq<char>, Seq<V>), whole: (Seq<char>, Seq<V>)) -> bool {
    &&& rest.0 == whole.0
    &&& 0 < rest.1.len() <= whole.1.len()
    &&& rest.1 == whole.1.skip(whole.1.len() - rest.1.len())
}

/// A buffer is the newest part of one of these.
pub open spec fn is_tail_of_one<V>(
    rest: (Seq<char>, Seq<V>),
    buffers: Seq<(Seq<char>, Seq<V>)>,
) -> bool {
    exists|j: int| 0 <= j < buffers.len() && is_tail(rest, #[trigger] buffers[j])
}

/// Every buffer that is left is the newest part of one that was there.
pub open spec fn tails<V>(
    after: Seq<(Seq<char>, Seq<V>)>,
    before: Seq<(Seq<char>, Seq<V>)>,
) -> bool {
    forall|i: int| 0 <= i < after.len() ==> is_tail_of_one(#[trigger] after[i], before)
}

proof fn lemma_tails_chain<V>(
    a: Seq<(Seq<char>, Seq<V>)>,
    b: Seq<(Seq<char>, Seq<V>)>,
    c: Seq<(Seq<char>, Seq<V>)>,
)
    requires
        tails(a, b),
        tails(b, c),
    ensures
        tails(a, c),
{
    assert forall|i: int| 0 <= i < a.len() implies is_tail_of_one(#[trigger] a[i], c) by {
        let j = choose|j: int| 0 <= j < b.len() && is_tail(a[i], #[trigger] b[j]);
        assert(is_tail_of_one(b[j], c));
        let k = choose|k: int| 0 <= k < c.len() && is_tail(b[j], #[trigger] c[k]);
        assert(a[i].1 =~= c[k].1.skip(c[k].1.len() - a[i].1.len()));
        assert(is_tail(a[i], c[k]));
    }
}

proof fn lemma_tails_whole<V>(buffers: Seq<(Seq<char>, Seq<V>)>, i: int)
    requires
        forall|j: int| 0 <= j < buffers.len() ==> 0 < (#[trigger] buffers[j]).1.len(),
        0 <= i < buffers.len(),
    ensures
        tails(buffers, buffers),
        tails(buffers.remove(i), buffers),
        tails(pop_front(buffers, i), buffers),
{
    assert forall|j: int| 0 <= j < buffers.len() implies is_tail_of_one(
        #[trigger] buffers[j],
        buffers,
    ) by {
        assert(buffers[j].1.skip(0) =~= buffers[j].1);
        assert(is_tail(buffers[j], buffers[j]));
    }
    let rest = buffers.remove(i);
    assert forall|j: int| 0 <= j < rest.len() implies is_tail_of_one(
        #[trigger] rest[j],
        buffers,
    ) by {
        assert(rest[j] == buffers[if j < i { j } else { j + 1 }]);
    }
    let popped = pop_front(buffers, i);
    if buffers[i].1.len() > 1 {
        assert forall|j: int| 0 <= j < popped.len() implies is_tail_of_one(
            #[trigger] popped[j],
            buffers,
        ) by {
            if j == i {
                assert(buffers[i].1.remove(0) =~= buffers[i].1.skip(1));
                assert(is_tail(popped[j], buffers[i]));
            } else {
                assert(popped[j] == buffers[j]);
            }
        }
    }
}

proof fn lemma_slots_tails<T: Buffered>(
    buffers: Seq<(Seq<char>, Seq<T::V>)>,
    max_groups: nat,
    group: Seq<char>,
    per_group: nat,
)
    requires
        shaped(buffers, per_group),
    ensures
        tails(free_slots::<T>(buffers, max_groups, group).0, buffers),
    decreases buffers.len(),
{
    lemma_victim::<T>(buffers);
    if buffers.len() > 0 {
        lemma_tails_whole(buffers, 0);
    }
    if buffers.len() >= max_groups && !assoc::known(buffers, group) && victim::<T>(
        buffers,
    ) is Some {
        let i = victim::<T>(buffers)->0;
        let rest = buffers.remove(i);
        lemma_tails_whole(buffers, i);
        lemma_distinct_remove(buffers, i);
        assert forall|j: int| 0 <= j < rest.len() implies 0 < (#[trigger] rest[j]).1.len()
            <= per_group by {
            assert(rest[j] == buffers[if j < i { j } else { j + 1 }]);
        }
        lemma_slots_tails::<T>(rest, max_groups, group, per_group);
        lemma_tails_chain(free_slots::<T>(rest, max_groups, group).0, rest, buffers);
    }
}

proof fn lemma_room_tails<T: Buffered>(
    buffers: Seq<(Seq<char>, Seq<T::V>)>,
    max_entries: nat,
    max_bytes: nat,
    incoming: nat,
)
    requires
        forall|j: int| 0 <= j < buffers.len() ==> 0 < (#[trigger] buffers[j]).1.len(),
    ensures
        tails(make_room::<T>(buffers, max_entries, max_bytes, incoming).0, buffers),
    decreases entries_in(buffers),
{
    lemma_victim::<T>(buffers);
    if buffers.len() > 0 {
        lemma_tails_whole(buffers, 0);
    }
    if (entries_in(buffers) >= max_entries || bytes_in::<T>(buffers) + incoming > max_bytes)
        && victim::<T>(buffers) is Some {
        let i = victim::<T>(buffers)->0;
        let next = pop_front(buffers, i);
        lemma_pop_front::<T>(buffers, i);
        lemma_tails_whole(buffers, i);
        assert forall|j: int| 0 <= j < next.len() implies 0 < (#[trigger] next[j]).1.len() by {
            assert(is_tail_of_one(next[j], buffers));
        }
        lemma_room_tails::<T>(next, max_entries, max_bytes, incoming);
        lemma_tails_chain(
            make_room::<T>(next, max_entries, max_bytes, incoming).0,
            next,
            buffers,
        );
    }
}

/// Clearing makes room for whatever can fit at all, under whatever caps: it
/// refuses only what alone exceeds the byte cap. What leaves is handed back and
/// nothing else changes, the oldest of a group leave first, and where there is
/// room already nothing leaves.
pub proof fn clearing_makes_room<T: Buffered>(
    buffers: Seq<(Seq<char>, Seq<T::V>)>,
    group: Seq<char>,
    caps: GlobalBufferCaps,
    incoming: nat,
)
    requires
        assoc::distinct(buffers),
        forall|i: int| 0 <= i < buffers.len() ==> 0 < (#[trigger] buffers[i]).1.len(),
        buffers.len() <= caps.max_groups,
        caps.max_groups > 0,
        caps.max_entries > 0,
    ensures
        cleared::<T>(buffers, group, caps, incoming) is None <==> incoming > caps.max_bytes,
        cleared::<T>(buffers, group, caps, incoming) matches Some(after) ==> {
            &&& has_room::<T>(after.0, group, caps, incoming)
            &&& contents(buffers) == contents(after.0).add(after.1.to_multiset())
            &&& tails(after.0, buffers)
            &&& has_room::<T>(buffers, group, caps, incoming) ==> after.0 == buffers
                && after.1.len() == 0
        },
{
    broadcast use vstd::seq_lib::group_to_multiset_ensures;

    if incoming <= caps.max_bytes {
        let groups = caps.max_groups as nat;
        let entries = caps.max_entries as nat;
        let bytes = caps.max_bytes as nat;
        let per_group = entries_in(buffers);
        assert forall|i: int| 0 <= i < buffers.len() implies 0 < (#[trigger] buffers[i]).1.len()
            <= per_group by {
            crate::group_mesh::buffer::lemma_entries(buffers, i);
        }
        let slots = free_slots::<T>(buffers, groups, group);
        let room = make_room::<T>(slots.0, entries, bytes, incoming);
        lemma_slots_bound::<T>(buffers, groups, group, per_group);
        lemma_room_bound::<T>(slots.0, entries, bytes, incoming, per_group);
        lemma_room_keys::<T>(slots.0, entries, bytes, incoming);
        lemma_slots_conserve::<T>(buffers, groups, group);
        lemma_room_conserves::<T>(slots.0, entries, bytes, incoming);
        lemma_concat_multiset(slots.1, room.1);
        assert(contents(buffers) =~= contents(room.0).add((slots.1 + room.1).to_multiset()));
        lemma_slots_tails::<T>(buffers, groups, group, per_group);
        lemma_room_tails::<T>(slots.0, entries, bytes, incoming);
        lemma_tails_chain(room.0, slots.0, buffers);
    }
}

/// Where there is room, an entry goes to the end of its group's queue and nothing
/// else changes; a queue that holds as many as it may gives up its oldest entry
/// for it, which is handed back.
pub proof fn an_entry_goes_to_the_end_of_its_queue<T: Buffered>(
    buffers: Seq<(Seq<char>, Seq<T::V>)>,
    group: Seq<char>,
    caps: GlobalBufferCaps,
    per_group: nat,
    entry: T::V,
    other: Seq<char>,
)
    requires
        bounded::<T>(buffers, caps, per_group),
        caps.max_groups > 0,
        caps.max_entries > 0,
        per_group > 0,
        has_room::<T>(buffers, group, caps, T::weight(entry)),
    ensures
        enqueued::<T>(buffers, group, caps, per_group, entry) matches Some(after) && {
            let queue = if assoc::known(buffers, group) {
                assoc::at(buffers, group)
            } else {
                Seq::empty()
            };
            let full = queue.len() >= per_group;
            &&& assoc::known(after.0, group)
            &&& assoc::at(after.0, group) == (if full {
                queue.skip(1)
            } else {
                queue
            }).push(entry)
            &&& other != group ==> assoc::lookup(after.0, other) == assoc::lookup(buffers, other)
            &&& after.1 == (if full {
                queue.take(1)
            } else {
                Seq::empty()
            })
        },
{
    clearing_makes_room::<T>(buffers, group, caps, T::weight(entry));
    let queue = queue_of(buffers, group);
    assoc::lemma_put(buffers, group, landed(queue, per_group, entry));
    if queue.len() >= per_group {
        assert(queue.remove(0) =~= queue.skip(1));
        assert(seq![queue[0]] =~= queue.take(1));
    }
    assert(Seq::<T::V>::empty() + displaced(queue, per_group) =~= displaced(queue, per_group));
}

} // verus!

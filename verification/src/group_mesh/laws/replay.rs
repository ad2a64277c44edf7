//! Replays: what was seen is absorbed, what was not authenticated suppresses
//! nothing, and the record stays bounded.

use vstd::prelude::*;

use crate::assoc;
use crate::group_mesh::buffer::enqueued;
use crate::group_mesh::commits::payload_bytes;
use crate::group_mesh::dated::{age, earliest, less_oldest, lemma_earliest, newest, times_in, younger};
use crate::group_mesh::dedup::{forget_all, message_ids};
use crate::group_mesh::effect::{EffectView, NoticeView};
use crate::group_mesh::limits::{
    message_caps, nanos, GROUP_MESSAGE_DEDUP_TTL_SECS, MAX_GROUP_MESSAGE_DEDUP_ENTRIES,
    MAX_PENDING_GROUP_MESSAGES_PER_GROUP,
};
use crate::group_mesh::messages::{
    held_mesh_message, intake, secured, MessageIntakeView, OutcomeView, RelayGroupMessageView,
};
use crate::group_mesh::state::MeshView;
use crate::group_mesh::types::{
    GroupMlsMessagePayloadView, InternalMessageResult, PendingGroupMessage,
};
use crate::message::TransportType;

verus! {

proof fn lemma_newest(table: Seq<(Seq<char>, u128)>, max: nat, now: u128)
    requires
        assoc::distinct(table),
    ensures
        assoc::distinct(newest::<u128>(table, max)),
        newest::<u128>(table, max).len() <= max,
        newest::<u128>(table, max).len() <= table.len(),
        forall|k: Seq<char>|
            assoc::known(newest::<u128>(table, max), k) ==> #[trigger] assoc::known(table, k),
        max > 0 && table.len() > 0 && table.last().1 == now && (forall|i: int|
            0 <= i < table.len() ==> (#[trigger] table[i]).1 <= now) ==> newest::<u128>(
            table,
            max,
        ).len() > 0 && newest::<u128>(table, max).last() == table.last(),
    decreases table.len(),
{
    if table.len() > max {
        let times = times_in::<u128>(table);
        lemma_earliest(times);
        let at = earliest(times);
        let rest = less_oldest::<u128>(table);
        assert(rest == table.remove(at));
        assert forall|k: Seq<char>| assoc::known(rest, k) implies #[trigger] assoc::known(
            table,
            k,
        ) by {
            let i = choose|i: int| 0 <= i < rest.len() && #[trigger] rest[i].0 == k;
            if i < at {
                assert(table[i].0 == k);
            } else {
                assert(table[i + 1].0 == k);
            }
        }
        lemma_newest(rest, max, now);
        assert forall|k: Seq<char>| assoc::known(newest::<u128>(table, max), k) implies
            #[trigger] assoc::known(table, k) by {
            assert(assoc::known(rest, k) || !assoc::known(rest, k));
        }
        if max > 0 && table.last().1 == now && (forall|i: int|
            0 <= i < table.len() ==> (#[trigger] table[i]).1 <= now) {
            assert(at < table.len() - 1) by {
                let shorter = times.drop_last();
                lemma_earliest(shorter);
                assert(shorter[earliest(shorter)] == table[earliest(shorter)].1);
                assert(times.last() == now);
            }
            assert(rest.last() == table.last());
            assert forall|i: int| 0 <= i < rest.len() implies (#[trigger] rest[i]).1 <= now by {
                if i < at {
                    assert(rest[i] == table[i]);
                } else {
                    assert(rest[i] == table[i + 1]);
                }
            }
        }
    }
}

proof fn lemma_younger(table: Seq<(Seq<char>, u128)>, now: u128, limit: u128)
    requires
        assoc::distinct(table),
    ensures
        assoc::distinct(younger::<u128>(table, now, limit)),
        forall|k: Seq<char>|
            assoc::known(younger::<u128>(table, now, limit), k) ==> #[trigger] assoc::known(
                table,
                k,
            ),
        forall|i: int|
            0 <= i < younger::<u128>(table, now, limit).len() ==> table.contains(
                #[trigger] younger::<u128>(table, now, limit)[i],
            ),
        table.len() > 0 && age(now, table.last().1) < limit ==> younger::<u128>(
            table,
            now,
            limit,
        ).len() > 0 && younger::<u128>(table, now, limit).last() == table.last(),
{
    let keep = |e: (Seq<char>, u128)| age(now, e.1) < limit;
    let young = younger::<u128>(table, now, limit);
    assert(young =~= table.filter(keep)) by {
        assert(keep =~= (|e: (Seq<char>, u128)|
            age(now, <u128 as crate::group_mesh::dated::Dated>::dated(e.1)) < limit));
    }
    assoc::lemma_filter_distinct(table, keep);
    assert forall|k: Seq<char>| assoc::known(young, k) implies #[trigger] assoc::known(table, k) by {
        let i = choose|i: int| 0 <= i < young.len() && #[trigger] young[i].0 == k;
        let j = choose|j: int| 0 <= j < table.len() && table[j] == young[i];
        assert(table[j].0 == k);
    }
    reveal(Seq::filter);
}

/// The record of seen ids stays within its cap.
pub proof fn seen_ids_are_bounded(mesh: MeshView, id: Seq<char>, now: u128)
    requires
        mesh.wf(),
    ensures
        mesh.let_in(id, now).seen.len() <= MAX_GROUP_MESSAGE_DEDUP_ENTRIES,
{
    assoc::lemma_put(mesh.seen, id, now);
    let marked = mesh.marked(id, now);
    let limit = nanos(GROUP_MESSAGE_DEDUP_TTL_SECS);
    lemma_younger(marked.seen, now, limit);
    let young = younger::<u128>(marked.seen, now, limit);
    lemma_newest(young, MAX_GROUP_MESSAGE_DEDUP_ENTRIES as nat, now);
    let fresh = newest::<u128>(young, MAX_GROUP_MESSAGE_DEDUP_ENTRIES as nat);
    lemma_forget(fresh, marked.stale_ids(now));
}

proof fn lemma_forget(seen: Seq<(Seq<char>, u128)>, ids: Seq<Seq<char>>)
    requires
        assoc::distinct(seen),
    ensures
        assoc::distinct(forget_all(seen, ids)),
        forget_all(seen, ids).len() <= seen.len(),
        forall|k: Seq<char>| #[trigger]
            assoc::known(forget_all(seen, ids), k) <==> assoc::known(seen, k) && !ids.contains(k),
    decreases ids.len(),
{
    if ids.len() > 0 {
        let init = ids.drop_last();
        lemma_forget(seen, init);
        assoc::lemma_del(forget_all(seen, init), ids.last());
        assert forall|k: Seq<char>| #[trigger]
            assoc::known(forget_all(seen, ids), k) <==> assoc::known(seen, k) && !ids.contains(
                k,
            ) by {
            assert(ids.contains(k) <==> init.contains(k) || k == ids.last()) by {
                if init.contains(k) {
                    let i = choose|i: int| 0 <= i < init.len() && init[i] == k;
                    assert(ids[i] == k);
                }
                if ids.contains(k) {
                    let i = choose|i: int| 0 <= i < ids.len() && ids[i] == k;
                    if i < init.len() {
                        assert(init[i] == k);
                    }
                }
                assert(ids[ids.len() - 1] == ids.last());
            }
            if k == ids.last() {
                assert(!assoc::known(forget_all(seen, ids), k));
            } else {
                assert(assoc::known(forget_all(seen, ids), k) == assoc::known(
                    forget_all(seen, init),
                    k,
                ));
            }
        }
    }
}

/// An id that was let in is known from then on. Ids are dated by a clock that
/// does not run backwards; an id that a buffered copy held beyond its lifetime is
/// released with that copy.
pub proof fn a_fresh_id_is_remembered(mesh: MeshView, id: Seq<char>, now: u128)
    requires
        mesh.wf(),
        !assoc::known(mesh.seen, id),
        forall|i: int| 0 <= i < mesh.seen.len() ==> (#[trigger] mesh.seen[i]).1 <= now,
        !mesh.stale_ids(now).contains(id),
    ensures
        assoc::known(mesh.let_in(id, now).seen, id),
{
    assoc::lemma_put(mesh.seen, id, now);
    let marked = mesh.marked(id, now);
    assert(marked.seen == mesh.seen.push((id, now)));
    if marked.seen.len() > MAX_GROUP_MESSAGE_DEDUP_ENTRIES {
        let limit = nanos(GROUP_MESSAGE_DEDUP_TTL_SECS);
        let young = younger::<u128>(marked.seen, now, limit);
        let fresh = newest::<u128>(young, MAX_GROUP_MESSAGE_DEDUP_ENTRIES as nat);
        lemma_younger(marked.seen, now, limit);
        assert(marked.seen.last() == (id, now));
        assert forall|i: int| 0 <= i < young.len() implies (#[trigger] young[i]).1 <= now by {
            assert(marked.seen.contains(young[i]));
        }
        lemma_newest(young, MAX_GROUP_MESSAGE_DEDUP_ENTRIES as nat, now);
        assert(fresh[fresh.len() - 1].0 == id);
        assert(assoc::known(fresh, id));
        lemma_forget(fresh, marked.stale_ids(now));
        assert(marked.stale_ids(now) == mesh.stale_ids(now));
    }
}

/// Letting in one id marks no other.
pub proof fn letting_in_marks_no_other_id(
    mesh: MeshView,
    id: Seq<char>,
    other: Seq<char>,
    now: u128,
)
    requires
        mesh.wf(),
        other != id,
        assoc::known(mesh.let_in(id, now).seen, other),
    ensures
        assoc::known(mesh.seen, other),
{
    assoc::lemma_put(mesh.seen, id, now);
    let marked = mesh.marked(id, now);
    assert(assoc::known(marked.seen, other) == assoc::known(mesh.seen, other));
    if marked.seen.len() > MAX_GROUP_MESSAGE_DEDUP_ENTRIES {
        let limit = nanos(GROUP_MESSAGE_DEDUP_TTL_SECS);
        let young = younger::<u128>(marked.seen, now, limit);
        let fresh = newest::<u128>(young, MAX_GROUP_MESSAGE_DEDUP_ENTRIES as nat);
        lemma_younger(marked.seen, now, limit);
        lemma_newest(young, MAX_GROUP_MESSAGE_DEDUP_ENTRIES as nat, now);
        lemma_forget(fresh, marked.stale_ids(now));
        assert(assoc::known(fresh, other));
        assert(assoc::known(young, other));
    }
}

/// A message that was seen is handed to MLS no second time, by whichever of its
/// ids it is recognised, and while a copy waits the answer says so.
pub proof fn a_replay_is_absorbed(
    mesh: MeshView,
    id: Seq<char>,
    payload: GroupMlsMessagePayloadView,
)
    requires
        assoc::known(mesh.seen, id) || (payload.message_id matches Some(l) && assoc::known(
            mesh.seen,
            l,
        )),
    ensures
        intake(mesh, id, Some(payload)) == MessageIntakeView::Settled(
            if mesh.pending(id, payload) {
                InternalMessageResult::Deferred
            } else {
                InternalMessageResult::Consumed
            },
        ),
{
}

/// A relayed message that was seen changes nothing and is delivered no second
/// time.
pub proof fn a_relayed_replay_is_absorbed(
    mesh: MeshView,
    message: RelayGroupMessageView,
    group_secured: bool,
    now: u128,
)
    requires
        assoc::known(mesh.seen, message.message_id),
    ensures
        mesh.relay_message_in(message, group_secured, now) == mesh,
        mesh.relay_message_arriving(message, group_secured, now) == Seq::<EffectView>::empty(),
{
}

/// Only a message that was decrypted marks the logical id it claims: whatever
/// else comes of it, a copy that could not be authenticated suppresses nothing
/// but itself.
pub proof fn only_a_decrypted_message_marks_its_logical_id(
    mesh: MeshView,
    id: Seq<char>,
    sender: Seq<char>,
    payload: GroupMlsMessagePayloadView,
    outcome: OutcomeView,
    via: Option<TransportType>,
    now: u128,
    other: Seq<char>,
)
    requires
        mesh.wf(),
        !(outcome is Plaintext),
        other != id,
        assoc::known(
            mesh.let_in(id, now).mesh_message_settled(id, sender, payload, outcome, via, now).seen,
            other,
        ),
    ensures
        assoc::known(mesh.seen, other),
{
    let inside = mesh.let_in(id, now);
    lemma_let_in_distinct(mesh, id, now);
    let settled = inside.mesh_message_settled(id, sender, payload, outcome, via, now);
    if outcome is Retriable {
        match enqueued::<PendingGroupMessage>(
            inside.messages,
            payload.group_id,
            message_caps(),
            MAX_PENDING_GROUP_MESSAGES_PER_GROUP as nat,
            held_mesh_message(id, sender, payload, via, now),
        ) {
            Some(after) => {
                lemma_forget(inside.seen, message_ids(after.1));
            },
            None => {},
        }
    }
    assert(assoc::known(inside.seen, other));
    letting_in_marks_no_other_id(mesh, id, other, now);
}

proof fn lemma_let_in_distinct(mesh: MeshView, id: Seq<char>, now: u128)
    requires
        mesh.wf(),
    ensures
        assoc::distinct(mesh.let_in(id, now).seen),
{
    assoc::lemma_put(mesh.seen, id, now);
    let marked = mesh.marked(id, now);
    let limit = nanos(GROUP_MESSAGE_DEDUP_TTL_SECS);
    let young = younger::<u128>(marked.seen, now, limit);
    lemma_younger(marked.seen, now, limit);
    lemma_newest(young, MAX_GROUP_MESSAGE_DEDUP_ENTRIES as nat, now);
    lemma_forget(
        newest::<u128>(young, MAX_GROUP_MESSAGE_DEDUP_ENTRIES as nat),
        marked.stale_ids(now),
    );
}

/// A relayed copy that MLS rejected leaves no mark: the honest copy that comes
/// later is taken in.
pub proof fn a_rejected_relay_copy_suppresses_nothing(
    mesh: MeshView,
    message: RelayGroupMessageView,
    outcome: OutcomeView,
    group_secured: bool,
    now: u128,
    later: u128,
)
    requires
        mesh.wf(),
        outcome is SecurityRejected || outcome is Failed,
    ensures
        !assoc::known(
            mesh.relay_message_in(message, group_secured, now).relay_message_settled(
                message,
                outcome,
                later,
            ).seen,
            message.message_id,
        ),
{
    lemma_let_in_distinct(mesh, message.message_id, now);
    let inside = mesh.let_in(message.message_id, now);
    let first = mesh.relay_message_in(message, group_secured, now);
    assoc::lemma_del(inside.seen, message.message_id);
    assoc::lemma_del(first.seen, message.message_id);
}

/// What is no ciphertext is not delivered into a group that MLS secures: it is
/// reported as rejected plaintext, and its id stays free for the honest copy.
pub proof fn plaintext_does_not_enter_a_secured_group(
    mesh: MeshView,
    message: RelayGroupMessageView,
    now: u128,
)
    requires
        mesh.wf(),
        !assoc::known(mesh.seen, message.message_id),
        payload_bytes(message.content) is None,
    ensures
        mesh.relay_message_arriving(message, true, now) == mesh.letting_in(
            message.message_id,
            now,
        ).push(EffectView::Notify(NoticeView::PlaintextRejected { peer_id: message.sender })),
        !assoc::known(mesh.relay_message_in(message, true, now).seen, message.message_id),
{
    lemma_let_in_distinct(mesh, message.message_id, now);
    assoc::lemma_del(mesh.let_in(message.message_id, now).seen, message.message_id);
}

/// Where MLS runs and cannot tell whether it holds the group, the group counts
/// as secured; without MLS no group does.
pub proof fn an_unanswered_lookup_counts_as_secured(lookup: Option<bool>)
    ensures
        secured(true, None),
        secured(true, lookup) <==> lookup != Some(false),
        !secured(false, lookup),
{
}

} // verus!

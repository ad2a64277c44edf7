//! Deliveries: what is sealed stays sealed, and a drain neither loses an entry
//! nor delivers one twice.

use vstd::multiset::Multiset;
use vstd::prelude::*;
use vstd::utf8::valid_utf8;

use crate::assoc;
use crate::group_mesh::buffer::queue_of;
use crate::group_mesh::commits::payload_bytes;
use crate::group_mesh::dedup::{commit_ids, unmarks};
use crate::group_mesh::effect::{EffectView, NoticeView};
use crate::group_mesh::limits::MAX_PENDING_COMMITS_PER_GROUP;
use crate::group_mesh::messages::{restored, OutcomeView, RichView};
use crate::group_mesh::pending_commits::{
    commit_drain_over, commit_expired, commit_step, CommitDrainView, CommitStep, DrainPhase,
};
use crate::group_mesh::pending_messages::{
    already_delivered, message_drain_over, message_expired, message_step, message_tried,
    MessageDrainView, MessageStep, MessageTaskView,
};
use crate::group_mesh::relay::reissue;
use crate::group_mesh::sending::{
    armed_broadcast, member_frame, opening, seals, unknowing, GroupSendView,
};
use crate::group_mesh::state::{GroupSettings, MeshView};
use crate::group_mesh::types::{
    ForwardInfoView, GroupMlsMessagePayloadView, PendingCommitView, PendingGroupMessageView,
};
use crate::rosters::{lemma_unlisted, lemma_without, without};

verus! {

/// What was sealed into a message is what is shown of it; what stands beside the
/// ciphertext counts only where nothing was sealed, and then as attribution
/// alone.
pub proof fn a_sealed_body_is_authoritative(
    text: Seq<char>,
    rich: RichView,
    beside: Option<ForwardInfoView>,
)
    ensures
        restored(text, Some(rich), beside) == rich,
        restored(text, None, beside).text == text,
        restored(text, None, beside).forward_info == beside,
        restored(text, None, beside).media_metadata is None,
        restored(text, None, beside).content_type is None,
{
}

/// The attribution of a sealed message stands on no frame.
pub proof fn a_sealed_attribution_is_not_exposed(
    send: GroupSendView,
    ciphertext: Seq<u8>,
    epoch: u64,
    wall: i64,
)
    ensures
        armed_broadcast(send, true, ciphertext, epoch, wall).forward_info is None,
        member_frame(send, true, ciphertext, epoch).forward_info is None,
{
}

/// A body is sealed only where every other member can open it, and only where
/// there is something to seal.
pub proof fn a_seal_needs_every_member(
    settings: GroupSettings,
    me: Seq<char>,
    send: GroupSendView,
    members: Seq<Seq<char>>,
    capable: Seq<Seq<char>>,
    member: Seq<char>,
)
    requires
        seals(settings, me, send, members, capable),
        members.contains(member),
        member != me,
    ensures
        capable.contains(member),
        settings.rich_payload_enabled,
        send.media_metadata is Some || send.forward_info is Some || !(send.content_type is Text),
{
    let rest = without(members, me);
    lemma_without(members, me, member);
    lemma_unlisted(rest, capable, member);
    if !capable.contains(member) {
        let at = choose|i: int|
            0 <= i < unknowing(me, members, capable).len() && unknowing(me, members, capable)[i]
                == member;
        assert(false);
    }
}

/// Media metadata that cannot be sealed is not lost in silence.
pub proof fn extras_are_not_dropped_in_silence(
    settings: GroupSettings,
    me: Seq<char>,
    send: GroupSendView,
    members: Seq<Seq<char>>,
    capable: Seq<Seq<char>>,
)
    requires
        send.media_metadata is Some,
        !seals(settings, me, send, members, capable),
    ensures
        opening(settings, me, send, members, capable).len() > 0,
        opening(settings, me, send, members, capable).last() matches EffectView::Notify(
            NoticeView::RichExtrasDropped { group_id, .. },
        ) && group_id == send.group,
{
}

/// A broadcast that falls back to a frame for each member sends what the frame
/// would have carried from the start, and keeps its logical id.
pub proof fn a_downgraded_broadcast_says_the_same(
    send: GroupSendView,
    sealed: bool,
    ciphertext: Seq<u8>,
    epoch: u64,
    wall: i64,
    message_id: Seq<char>,
)
    ensures
        reissue(message_id, armed_broadcast(send, sealed, ciphertext, epoch, wall)) == (
        GroupMlsMessagePayloadView {
            message_id: Some(message_id),
            ..member_frame(send, sealed, ciphertext, epoch)
        }),
{
}

/// A drain hands out only what is worth decrypting: an entry that it has not
/// delivered under any id, that has not expired, and that holds a ciphertext.
pub proof fn a_drain_hands_out_only_live_messages(
    mesh: MeshView,
    drain: MessageDrainView,
    now: u128,
)
    ensures
        message_step(mesh, drain, now).drain.delivered == drain.delivered,
        message_step(mesh, drain, now).next matches MessageTaskView::Decrypt(entry, bytes) ==> {
            &&& !already_delivered(drain.delivered, entry)
            &&& !message_expired(entry, now)
            &&& payload_bytes(entry.ciphertext_b64) == Some(bytes)
        },
    decreases
        (if drain.phase == DrainPhase::Between {
            1int
        } else {
            0int
        }),
        drain.queue.len(),
{
    match drain.phase {
        DrainPhase::Done => {},
        DrainPhase::Between => {
            if queue_of(mesh.messages, drain.group).len() > 0 {
                a_drain_hands_out_only_live_messages(
                    MeshView {
                        messages: assoc::put(mesh.messages, drain.group, Seq::empty()),
                        ..mesh
                    },
                    MessageDrainView {
                        phase: DrainPhase::Pass,
                        queue: queue_of(mesh.messages, drain.group),
                        still: Seq::empty(),
                        state_advanced: false,
                        ..drain
                    },
                    now,
                );
            }
        },
        DrainPhase::Pass => {
            if drain.queue.len() > 0 {
                let entry = drain.queue[0];
                let rest = MessageDrainView { queue: drain.queue.remove(0), ..drain };
                a_drain_hands_out_only_live_messages(mesh, rest, now);
                a_drain_hands_out_only_live_messages(mesh.released(entry.message_id), rest, now);
            }
        },
    }
}

/// Once a drain has delivered a message, every copy of it counts as delivered,
/// under the envelope id or the logical one.
pub proof fn a_drain_delivers_each_message_once(
    drain: MessageDrainView,
    entry: PendingGroupMessageView,
    bytes: Seq<u8>,
    copy: PendingGroupMessageView,
)
    requires
        valid_utf8(bytes),
        copy.message_id == entry.message_id || (entry.logical_id is Some && (copy.logical_id
            == entry.logical_id || Some(copy.message_id) == entry.logical_id)),
    ensures
        already_delivered(
            message_tried(drain, entry, OutcomeView::Plaintext(bytes)).delivered,
            copy,
        ),
{
    let after = message_tried(drain, entry, OutcomeView::Plaintext(bytes)).delivered;
    assert(after[drain.delivered.len() as int] == entry.message_id);
    assert(after[(drain.delivered.len() + 1) as int] == (match entry.logical_id {
        Some(l) => l,
        None => entry.message_id,
    }));
}

/// A drain releases the replay protection of no message that it delivered.
pub proof fn a_drain_releases_no_delivered_id(
    mesh: MeshView,
    drain: MessageDrainView,
    now: u128,
    i: int,
    id: Seq<char>,
)
    requires
        0 <= i < message_step(mesh, drain, now).effects.len(),
        message_step(mesh, drain, now).effects[i] == (EffectView::UnmarkSeen { message_id: id }),
    ensures
        !drain.delivered.contains(id),
    decreases
        (if drain.phase == DrainPhase::Between {
            1int
        } else {
            0int
        }),
        drain.queue.len(),
{
    match drain.phase {
        DrainPhase::Done => {},
        DrainPhase::Between => {
            if queue_of(mesh.messages, drain.group).len() > 0 {
                a_drain_releases_no_delivered_id(
                    MeshView {
                        messages: assoc::put(mesh.messages, drain.group, Seq::empty()),
                        ..mesh
                    },
                    MessageDrainView {
                        phase: DrainPhase::Pass,
                        queue: queue_of(mesh.messages, drain.group),
                        still: Seq::empty(),
                        state_advanced: false,
                        ..drain
                    },
                    now,
                    i,
                    id,
                );
            }
        },
        DrainPhase::Pass => {
            if drain.queue.len() > 0 {
                let entry = drain.queue[0];
                let rest = MessageDrainView { queue: drain.queue.remove(0), ..drain };
                if already_delivered(drain.delivered, entry) {
                    let later = message_step(mesh, rest, now);
                    let first = message_step(mesh, drain, now).effects.len() - later.effects.len();
                    if i >= first {
                        assert(later.effects[i - first] == message_step(mesh, drain, now).effects[i]);
                        a_drain_releases_no_delivered_id(mesh, rest, now, i - first, id);
                    }
                } else if message_expired(entry, now) {
                    let next = mesh.released(entry.message_id);
                    let later = message_step(next, rest, now);
                    if i >= 1 {
                        assert(later.effects[i - 1] == message_step(mesh, drain, now).effects[i]);
                        a_drain_releases_no_delivered_id(next, rest, now, i - 1, id);
                    }
                } else if payload_bytes(entry.ciphertext_b64) is None {
                    a_drain_releases_no_delivered_id(mesh, rest, now, i, id);
                }
            }
        },
    }
}

/// What a group's queue, a pass and its leftovers hold together.
pub open spec fn at_hand<V>(
    buffers: Seq<(Seq<char>, Seq<V>)>,
    group: Seq<char>,
    queue: Seq<V>,
    still: Seq<V>,
) -> Multiset<V> {
    queue_of(buffers, group).to_multiset().add(queue.to_multiset()).add(still.to_multiset())
}

proof fn lemma_taken<V>(buffers: Seq<(Seq<char>, Seq<V>)>, group: Seq<char>)
    requires
        assoc::distinct(buffers),
    ensures
        assoc::distinct(assoc::put(buffers, group, Seq::empty())),
        at_hand(
            assoc::put(buffers, group, Seq::empty()),
            group,
            queue_of(buffers, group),
            Seq::empty(),
        ) == at_hand(buffers, group, Seq::empty(), Seq::empty()),
{
    broadcast use vstd::seq_lib::group_to_multiset_ensures;

    assoc::lemma_put(buffers, group, Seq::<V>::empty());
    assert(at_hand(
        assoc::put(buffers, group, Seq::empty()),
        group,
        queue_of(buffers, group),
        Seq::empty(),
    ) =~= at_hand(buffers, group, Seq::empty(), Seq::empty()));
}

proof fn lemma_returned<V>(
    buffers: Seq<(Seq<char>, Seq<V>)>,
    group: Seq<char>,
    still: Seq<V>,
    after: Seq<(Seq<char>, Seq<V>)>,
)
    requires
        assoc::distinct(buffers),
        after == (if still.len() == 0 {
            buffers
        } else {
            assoc::put(buffers, group, queue_of(buffers, group) + still)
        }),
    ensures
        assoc::distinct(after),
        at_hand(after, group, Seq::empty(), Seq::empty()) == at_hand(
            buffers,
            group,
            Seq::empty(),
            still,
        ),
{
    broadcast use vstd::seq_lib::group_to_multiset_ensures;

    let queue = queue_of(buffers, group);
    assoc::lemma_put(buffers, group, queue + still);
    vstd::seq_lib::lemma_multiset_commutative(queue, still);
    if still.len() == 0 {
        assert(still =~= Seq::empty());
    }
    assert(at_hand(after, group, Seq::empty(), Seq::empty()) =~= at_hand(
        buffers,
        group,
        Seq::empty(),
        still,
    ));
}

proof fn lemma_tidied<V>(buffers: Seq<(Seq<char>, Seq<V>)>, group: Seq<char>)
    requires
        assoc::distinct(buffers),
        queue_of(buffers, group).len() == 0,
    ensures
        assoc::distinct(assoc::del(buffers, group)),
        queue_of(assoc::del(buffers, group), group) == queue_of(buffers, group),
{
    assoc::lemma_del(buffers, group);
    assert(queue_of(assoc::del(buffers, group), group) =~= queue_of(buffers, group));
}

proof fn lemma_picked<V>(
    buffers: Seq<(Seq<char>, Seq<V>)>,
    group: Seq<char>,
    queue: Seq<V>,
    still: Seq<V>,
)
    requires
        queue.len() > 0,
    ensures
        at_hand(buffers, group, queue, still) == at_hand(
            buffers,
            group,
            queue.remove(0),
            still,
        ).insert(queue[0]),
{
    broadcast use vstd::seq_lib::group_to_multiset_ensures;

    assert(queue.remove(0).to_multiset() =~= queue.to_multiset().remove(queue[0]));
    assert(queue.contains(queue[0]));
    assert(at_hand(buffers, group, queue, still) =~= at_hand(
        buffers,
        group,
        queue.remove(0),
        still,
    ).insert(queue[0]));
}

proof fn lemma_gone_front<V>(first: V, rest: Seq<V>)
    ensures
        (seq![first] + rest).to_multiset() == rest.to_multiset().insert(first),
{
    broadcast use vstd::seq_lib::group_to_multiset_ensures;

    assert((seq![first] + rest).remove(0) =~= rest);
    assert(rest.to_multiset() =~= (seq![first] + rest).to_multiset().remove(first));
    assert((seq![first] + rest).contains((seq![first] + rest)[0]));
    assert((seq![first] + rest).to_multiset() =~= rest.to_multiset().insert(first));
}

/// The entry that a step hands out, as a multiset.
pub open spec fn handed_out<V>(next: Option<V>) -> Multiset<V> {
    match next {
        Some(entry) => Multiset::singleton(entry),
        None => Multiset::empty(),
    }
}

/// A commit drain holds nothing while it is in no pass.
pub open spec fn commits_rest(drain: CommitDrainView) -> bool {
    drain.phase != DrainPhase::Pass ==> drain.queue.len() == 0 && drain.still.len() == 0
}

/// Every commit is accounted for by a step: it waits, it is handed out, or it
/// expired, and then its replay protection is released.
pub open spec fn commits_accounted(
    mesh: MeshView,
    drain: CommitDrainView,
    step: CommitStep,
    gone: Seq<PendingCommitView>,
    now: u128,
) -> bool {
    &&& at_hand(mesh.commits, drain.group, drain.queue, drain.still) == at_hand(
        step.mesh.commits,
        drain.group,
        step.drain.queue,
        step.drain.still,
    ).add(gone.to_multiset()).add(handed_out(step.next))
    &&& step.effects == unmarks(commit_ids(gone)) || step.effects == unmarks(
        commit_ids(gone),
    ).push(EffectView::InspectFork { group_id: drain.group })
    &&& forall|i: int| 0 <= i < gone.len() ==> commit_expired(#[trigger] gone[i], now)
    &&& commits_rest(step.drain)
    &&& step.drain.group == drain.group
}

proof fn lemma_commits_over(mesh: MeshView, drain: CommitDrainView, now: u128)
    requires
        assoc::distinct(mesh.commits),
        drain.queue.len() == 0,
        drain.still.len() == 0,
    ensures
        commits_accounted(mesh, drain, commit_drain_over(mesh, drain), Seq::empty(), now),
{
    broadcast use vstd::seq_lib::group_to_multiset_ensures;

    let gone = Seq::<PendingCommitView>::empty();
    let step = commit_drain_over(mesh, drain);
    if queue_of(mesh.commits, drain.group).len() == 0 {
        lemma_tidied(mesh.commits, drain.group);
    }
    assert(unmarks(commit_ids(gone)) =~= Seq::empty());
    assert(unmarks(commit_ids(gone)).push(EffectView::InspectFork { group_id: drain.group }) =~= seq![
        EffectView::InspectFork { group_id: drain.group },
    ]);
    assert(at_hand(mesh.commits, drain.group, drain.queue, drain.still) =~= at_hand(
        step.mesh.commits,
        drain.group,
        step.drain.queue,
        step.drain.still,
    ).add(gone.to_multiset()).add(handed_out(step.next)));
}

/// A commit drain loses nothing: `gone` are the commits that expired.
pub proof fn a_commit_drain_loses_nothing(
    mesh: MeshView,
    drain: CommitDrainView,
    now: u128,
) -> (gone: Seq<PendingCommitView>)
    requires
        mesh.wf(),
        drain.wf(),
        commits_rest(drain),
    ensures
        commits_accounted(mesh, drain, commit_step(mesh, drain, now), gone, now),
    decreases
        MAX_PENDING_COMMITS_PER_GROUP - drain.passes,
        (if drain.phase == DrainPhase::Between {
            1int
        } else {
            0int
        }),
        drain.queue.len(),
{
    broadcast use vstd::seq_lib::group_to_multiset_ensures;

    let step = commit_step(mesh, drain, now);
    match drain.phase {
        DrainPhase::Done => {
            let gone = Seq::<PendingCommitView>::empty();
            assert(unmarks(commit_ids(gone)) =~= Seq::empty());
            assert(at_hand(mesh.commits, drain.group, drain.queue, drain.still) =~= at_hand(
                step.mesh.commits,
                drain.group,
                step.drain.queue,
                step.drain.still,
            ).add(gone.to_multiset()).add(handed_out(step.next)));
            gone
        },
        DrainPhase::Between => {
            assert(drain.queue =~= Seq::empty());
            assert(drain.still =~= Seq::empty());
            if drain.passes < MAX_PENDING_COMMITS_PER_GROUP && queue_of(
                mesh.commits,
                drain.group,
            ).len() > 0 {
                lemma_taken(mesh.commits, drain.group);
                a_commit_drain_loses_nothing(
                    MeshView {
                        commits: assoc::put(mesh.commits, drain.group, Seq::empty()),
                        ..mesh
                    },
                    CommitDrainView {
                        phase: DrainPhase::Pass,
                        queue: queue_of(mesh.commits, drain.group),
                        still: Seq::empty(),
                        any_succeeded: false,
                        ..drain
                    },
                    now,
                )
            } else {
                lemma_commits_over(mesh, drain, now);
                Seq::empty()
            }
        },
        DrainPhase::Pass => {
            if drain.queue.len() == 0 {
                assert(drain.queue =~= Seq::empty());
                let back = mesh.commits_returned(drain.group, drain.still);
                lemma_returned(mesh.commits, drain.group, drain.still, back.commits);
                let after = CommitDrainView {
                    phase: DrainPhase::Between,
                    passes: drain.passes + 1,
                    still: Seq::empty(),
                    ..drain
                };
                assert(back.wf());
                if drain.any_succeeded {
                    a_commit_drain_loses_nothing(back, after, now)
                } else {
                    lemma_commits_over(back, after, now);
                    Seq::empty()
                }
            } else {
                let entry = drain.queue[0];
                let rest = CommitDrainView { queue: drain.queue.remove(0), ..drain };
                lemma_picked(mesh.commits, drain.group, drain.queue, drain.still);
                if commit_expired(entry, now) {
                    let next = mesh.released(entry.message_id);
                    assoc::lemma_del(mesh.seen, entry.message_id);
                    assert(next.wf());
                    let noted = CommitDrainView {
                        retried_expired: drain.retried_expired || entry.retry_count > 0,
                        ..rest
                    };
                    let later = a_commit_drain_loses_nothing(next, noted, now);
                    let gone = seq![entry] + later;
                    lemma_gone_front(entry, later);
                    let after = commit_step(next, noted, now);
                    assert(unmarks(commit_ids(gone)) =~= seq![
                        EffectView::UnmarkSeen { message_id: entry.message_id },
                    ] + unmarks(commit_ids(later)));
                    if after.effects != unmarks(commit_ids(later)) {
                        assert(step.effects =~= unmarks(commit_ids(gone)).push(
                            EffectView::InspectFork { group_id: drain.group },
                        ));
                    }
                    assert(at_hand(mesh.commits, drain.group, drain.queue, drain.still)
                        =~= at_hand(
                        step.mesh.commits,
                        drain.group,
                        step.drain.queue,
                        step.drain.still,
                    ).add(gone.to_multiset()).add(handed_out(step.next)));
                    gone
                } else {
                    let gone = Seq::<PendingCommitView>::empty();
                    assert(unmarks(commit_ids(gone)) =~= Seq::empty());
                    assert(at_hand(mesh.commits, drain.group, drain.queue, drain.still)
                        =~= at_hand(
                        step.mesh.commits,
                        drain.group,
                        step.drain.queue,
                        step.drain.still,
                    ).add(gone.to_multiset()).add(handed_out(step.next)));
                    gone
                }
            }
        },
    }
}

/// A message drain holds nothing while it is in no pass.
pub open spec fn messages_rest(drain: MessageDrainView) -> bool {
    drain.phase != DrainPhase::Pass ==> drain.queue.len() == 0 && drain.still.len() == 0
}

/// The entry that a step of a message drain hands out.
pub open spec fn to_decrypt(next: MessageTaskView) -> Option<PendingGroupMessageView> {
    match next {
        MessageTaskView::Decrypt(entry, _) => Some(entry),
        _ => None,
    }
}

/// A message that a drain may drop: a copy of one that it delivered, one that
/// expired, or one that holds no ciphertext.
pub open spec fn spent(
    delivered: Seq<Seq<char>>,
    entry: PendingGroupMessageView,
    now: u128,
) -> bool {
    already_delivered(delivered, entry) || message_expired(entry, now) || payload_bytes(
        entry.ciphertext_b64,
    ) is None
}

/// Every message is accounted for by a step: it waits, it is handed out, or it
/// was spent.
pub open spec fn messages_accounted(
    mesh: MeshView,
    drain: MessageDrainView,
    step: MessageStep,
    gone: Seq<PendingGroupMessageView>,
    now: u128,
) -> bool {
    &&& at_hand(mesh.messages, drain.group, drain.queue, drain.still) == at_hand(
        step.mesh.messages,
        drain.group,
        step.drain.queue,
        step.drain.still,
    ).add(gone.to_multiset()).add(handed_out(to_decrypt(step.next)))
    &&& forall|i: int| 0 <= i < gone.len() ==> spent(drain.delivered, #[trigger] gone[i], now)
    &&& messages_rest(step.drain)
    &&& step.drain.group == drain.group
}

proof fn lemma_messages_kept(
    mesh: MeshView,
    drain: MessageDrainView,
    step: MessageStep,
    now: u128,
)
    requires
        at_hand(mesh.messages, drain.group, drain.queue, drain.still) == at_hand(
            step.mesh.messages,
            drain.group,
            step.drain.queue,
            step.drain.still,
        ).add(handed_out(to_decrypt(step.next))),
        messages_rest(step.drain),
        step.drain.group == drain.group,
    ensures
        messages_accounted(mesh, drain, step, Seq::empty(), now),
{
    let gone = Seq::<PendingGroupMessageView>::empty();
    broadcast use vstd::seq_lib::group_to_multiset_ensures;

    assert(at_hand(mesh.messages, drain.group, drain.queue, drain.still) =~= at_hand(
        step.mesh.messages,
        drain.group,
        step.drain.queue,
        step.drain.still,
    ).add(gone.to_multiset()).add(handed_out(to_decrypt(step.next))));
}

proof fn lemma_messages_over(mesh: MeshView, drain: MessageDrainView, now: u128)
    requires
        assoc::distinct(mesh.messages),
        drain.queue.len() == 0,
        drain.still.len() == 0,
    ensures
        messages_accounted(mesh, drain, message_drain_over(mesh, drain), Seq::empty(), now),
{
    let step = message_drain_over(mesh, drain);
    if queue_of(mesh.messages, drain.group).len() == 0 {
        lemma_tidied(mesh.messages, drain.group);
    }
    assert(at_hand(mesh.messages, drain.group, drain.queue, drain.still) =~= at_hand(
        step.mesh.messages,
        drain.group,
        step.drain.queue,
        step.drain.still,
    ).add(handed_out(to_decrypt(step.next))));
    lemma_messages_kept(mesh, drain, step, now);
}

proof fn lemma_message_spent(
    mesh: MeshView,
    next: MeshView,
    drain: MessageDrainView,
    rest: MessageDrainView,
    later: Seq<PendingGroupMessageView>,
    now: u128,
)
    requires
        drain.phase == DrainPhase::Pass,
        drain.queue.len() > 0,
        rest == (MessageDrainView { queue: drain.queue.remove(0), ..drain }),
        next.messages == mesh.messages,
        spent(drain.delivered, drain.queue[0], now),
        message_step(mesh, drain, now).mesh == message_step(next, rest, now).mesh,
        message_step(mesh, drain, now).drain == message_step(next, rest, now).drain,
        message_step(mesh, drain, now).next == message_step(next, rest, now).next,
        messages_accounted(next, rest, message_step(next, rest, now), later, now),
    ensures
        messages_accounted(
            mesh,
            drain,
            message_step(mesh, drain, now),
            seq![drain.queue[0]] + later,
            now,
        ),
{
    let gone = seq![drain.queue[0]] + later;
    let step = message_step(mesh, drain, now);
    lemma_picked(mesh.messages, drain.group, drain.queue, drain.still);
    lemma_gone_front(drain.queue[0], later);
    assert(at_hand(mesh.messages, drain.group, drain.queue, drain.still) =~= at_hand(
        step.mesh.messages,
        drain.group,
        step.drain.queue,
        step.drain.still,
    ).add(gone.to_multiset()).add(handed_out(to_decrypt(step.next))));
}

/// A message drain loses nothing: `gone` are the messages that were spent.
pub proof fn a_message_drain_loses_nothing(
    mesh: MeshView,
    drain: MessageDrainView,
    now: u128,
) -> (gone: Seq<PendingGroupMessageView>)
    requires
        mesh.wf(),
        messages_rest(drain),
    ensures
        messages_accounted(mesh, drain, message_step(mesh, drain, now), gone, now),
    decreases
        (if drain.phase == DrainPhase::Between {
            1int
        } else {
            0int
        }),
        drain.queue.len(),
{
    let step = message_step(mesh, drain, now);
    match drain.phase {
        DrainPhase::Done => {
            assert(at_hand(mesh.messages, drain.group, drain.queue, drain.still) =~= at_hand(
                step.mesh.messages,
                drain.group,
                step.drain.queue,
                step.drain.still,
            ).add(handed_out(to_decrypt(step.next))));
            lemma_messages_kept(mesh, drain, step, now);
            Seq::empty()
        },
        DrainPhase::Between => {
            assert(drain.queue =~= Seq::empty());
            assert(drain.still =~= Seq::empty());
            if queue_of(mesh.messages, drain.group).len() > 0 {
                lemma_taken(mesh.messages, drain.group);
                a_message_drain_loses_nothing(
                    MeshView {
                        messages: assoc::put(mesh.messages, drain.group, Seq::empty()),
                        ..mesh
                    },
                    MessageDrainView {
                        phase: DrainPhase::Pass,
                        queue: queue_of(mesh.messages, drain.group),
                        still: Seq::empty(),
                        state_advanced: false,
                        ..drain
                    },
                    now,
                )
            } else {
                lemma_messages_over(mesh, drain, now);
                Seq::empty()
            }
        },
        DrainPhase::Pass => {
            if drain.queue.len() == 0 {
                assert(drain.queue =~= Seq::empty());
                let back = mesh.messages_returned(drain.group, drain.still);
                lemma_returned(mesh.messages, drain.group, drain.still, back.messages);
                let after = MessageDrainView {
                    phase: DrainPhase::Between,
                    still: Seq::empty(),
                    ..drain
                };
                if drain.state_advanced {
                    assert(at_hand(mesh.messages, drain.group, drain.queue, drain.still)
                        =~= at_hand(
                        step.mesh.messages,
                        drain.group,
                        step.drain.queue,
                        step.drain.still,
                    ).add(handed_out(to_decrypt(step.next))));
                    lemma_messages_kept(mesh, drain, step, now);
                } else {
                    lemma_messages_over(back, after, now);
                }
                Seq::empty()
            } else {
                let entry = drain.queue[0];
                let rest = MessageDrainView { queue: drain.queue.remove(0), ..drain };
                lemma_picked(mesh.messages, drain.group, drain.queue, drain.still);
                if already_delivered(drain.delivered, entry) {
                    let later = a_message_drain_loses_nothing(mesh, rest, now);
                    lemma_message_spent(mesh, mesh, drain, rest, later, now);
                    seq![entry] + later
                } else if message_expired(entry, now) {
                    let next = mesh.released(entry.message_id);
                    assoc::lemma_del(mesh.seen, entry.message_id);
                    let later = a_message_drain_loses_nothing(next, rest, now);
                    lemma_message_spent(mesh, next, drain, rest, later, now);
                    seq![entry] + later
                } else if payload_bytes(entry.ciphertext_b64) is None {
                    let later = a_message_drain_loses_nothing(mesh, rest, now);
                    lemma_message_spent(mesh, mesh, drain, rest, later, now);
                    seq![entry] + later
                } else {
                    assert(at_hand(mesh.messages, drain.group, drain.queue, drain.still)
                        =~= at_hand(
                        step.mesh.messages,
                        drain.group,
                        step.drain.queue,
                        step.drain.still,
                    ).add(handed_out(to_decrypt(step.next))));
                    lemma_messages_kept(mesh, drain, step, now);
                    Seq::empty()
                }
            }
        },
    }
}

/// What a pass could not decrypt yet goes back into the queue, and only a commit
/// or proposal that MLS consumed brings about another pass.
pub proof fn a_retriable_message_keeps_waiting(
    drain: MessageDrainView,
    entry: PendingGroupMessageView,
    outcome: OutcomeView,
)
    ensures
        message_tried(drain, entry, outcome).still == (if outcome is Retriable {
            drain.still.push(entry)
        } else {
            drain.still
        }),
        message_tried(drain, entry, outcome).state_advanced == (drain.state_advanced
            || outcome is NonApplication),
        message_tried(drain, entry, outcome).queue == drain.queue,
{
}

} // verus!

//! How long ids, messages and commits are held, and what a drain does with each
//! that waits.

use vstd::prelude::*;
use vstd::utf8::{encode_utf8, valid_utf8};

use crate::assoc;
use crate::base64_codec::base64_bytes;
use crate::group_mesh::buffer::{dead, live, queue_of, swept, Buffered};
use crate::group_mesh::commits::{commit_bytes, CommitOutcomeView};
use crate::group_mesh::dated::{
    age, earliest, lemma_earliest, less_oldest, newest, times_in, younger, Dated, SECOND,
};
use crate::group_mesh::dedup::{
    all_commit_ids, all_message_ids, any_retried, commit_ids, forget_all, fork_candidates,
    message_ids, unmarks,
};
use crate::group_mesh::effect::EffectView;
use crate::group_mesh::inbound::held_commit;
use crate::group_mesh::laws::buffers::lemma_forget_distinct;
use crate::group_mesh::limits::{
    nanos, GROUP_MESSAGE_DEDUP_TTL_SECS, MAX_BASE64_PAYLOAD_SIZE, MAX_GROUP_MESSAGE_DEDUP_ENTRIES,
    MAX_PENDING_COMMITS_PER_GROUP, PENDING_COMMIT_TTL_SECS, PENDING_GROUP_MESSAGE_TTL_SECS,
};
use crate::group_mesh::messages::OutcomeView;
use crate::group_mesh::pending_commits::{
    commit_step, commit_tried, CommitDrainView, CommitStep, DrainPhase,
};
use crate::group_mesh::pending_messages::{
    message_step, message_tried, MessageDrainView, MessageStep, MessageTaskView,
};
use crate::group_mesh::state::MeshView;
use crate::group_mesh::types::{
    GroupMlsCommitPayloadView, PendingCommit, PendingCommitView, PendingGroupMessage,
    PendingGroupMessageView,
};

verus! {

/// A message is tried while it is not older than its lifetime.
pub open spec fn message_worth_trying(entry: PendingGroupMessageView, now: u128) -> bool {
    now <= entry.buffered_at + PENDING_GROUP_MESSAGE_TTL_SECS * SECOND
}

/// The drain has delivered the message, under its own id or the logical one.
pub open spec fn delivered_already(drain: MessageDrainView, entry: PendingGroupMessageView) -> bool {
    drain.delivered.contains(entry.message_id) || (entry.logical_id is Some
        && drain.delivered.contains(entry.logical_id->0))
}

/// A pass of a drain takes the messages one by one. One that was delivered already
/// is only acknowledged, on the transport that it came by; one that is too old is
/// dropped and its id is free again; one without a readable ciphertext is
/// dropped; and any other is handed to MLS as it is.
pub proof fn a_drain_takes_the_next_message(mesh: MeshView, drain: MessageDrainView, now: u128)
    requires
        drain.phase == DrainPhase::Pass,
        drain.queue.len() > 0,
    ensures
        ({
            let entry = drain.queue[0];
            let rest = MessageDrainView { queue: drain.queue.remove(0), ..drain };
            let step = message_step(mesh, drain, now);
            let skip = message_step(mesh, rest, now);
            let freed = message_step(
                MeshView { seen: assoc::del(mesh.seen, entry.message_id), ..mesh },
                rest,
                now,
            );
            let bytes = base64_bytes(entry.ciphertext_b64);
            if delivered_already(drain, entry) {
                &&& step.mesh == skip.mesh && step.drain == skip.drain && step.next == skip.next
                &&& step.effects == (if entry.received_via is Some {
                    seq![
                        EffectView::AckDelivery {
                            to: entry.sender,
                            message_id: entry.message_id,
                            transport: entry.received_via->0,
                        },
                    ]
                } else {
                    Seq::empty()
                }) + skip.effects
            } else if !message_worth_trying(entry, now) {
                &&& step.mesh == freed.mesh && step.drain == freed.drain && step.next == freed.next
                &&& step.effects == seq![EffectView::UnmarkSeen { message_id: entry.message_id }]
                    + freed.effects
            } else if encode_utf8(entry.ciphertext_b64).len() > MAX_BASE64_PAYLOAD_SIZE || bytes
                is None {
                step == skip
            } else {
                step == (MessageStep {
                    mesh,
                    drain: rest,
                    effects: Seq::empty(),
                    next: MessageTaskView::Decrypt(entry, bytes->0),
                })
            }
        }),
{
    reveal_with_fuel(message_step, 2);
}

/// A pass that is through puts what must wait on back behind what came in
/// meanwhile. Where MLS took a commit or proposal, the buffered commits are tried
/// before the next pass; otherwise the drain is over.
pub proof fn a_pass_over_messages_ends(mesh: MeshView, drain: MessageDrainView, now: u128)
    requires
        mesh.wf(),
        drain.phase == DrainPhase::Pass,
        drain.queue.len() == 0,
    ensures
        ({
            let step = message_step(mesh, drain, now);
            let wait = queue_of(mesh.messages, drain.group) + drain.still;
            &&& queue_of(step.mesh.messages, drain.group) == wait
            &&& step.next == (if drain.state_advanced {
                MessageTaskView::DrainCommits
            } else {
                MessageTaskView::Finished
            })
            &&& step.effects.len() == 0
            &&& step.mesh == (MeshView { messages: step.mesh.messages, ..mesh })
        }),
{
    let queue = queue_of(mesh.messages, drain.group);
    let wait = queue + drain.still;
    let back = mesh.messages_returned(drain.group, drain.still);
    if drain.still.len() > 0 {
        assoc::lemma_put(mesh.messages, drain.group, wait);
    } else {
        assert(wait =~= queue);
    }
    assert(queue_of(back.messages, drain.group) == wait);
    assert(assoc::distinct(back.messages));
    assoc::lemma_del(back.messages, drain.group);
    if wait.len() == 0 {
        assert(wait =~= Seq::empty());
    }
}

/// A pass begins with everything that waits for the group; where nothing does, the
/// drain is over.
pub proof fn a_pass_over_messages_begins(mesh: MeshView, drain: MessageDrainView, now: u128)
    requires
        drain.phase == DrainPhase::Between,
    ensures
        queue_of(mesh.messages, drain.group).len() > 0 ==> message_step(mesh, drain, now)
            == message_step(
            MeshView { messages: assoc::put(mesh.messages, drain.group, Seq::empty()), ..mesh },
            MessageDrainView {
                phase: DrainPhase::Pass,
                queue: assoc::at(mesh.messages, drain.group),
                still: Seq::empty(),
                state_advanced: false,
                ..drain
            },
            now,
        ),
        queue_of(mesh.messages, drain.group).len() == 0 ==> message_step(mesh, drain, now).next
            == MessageTaskView::Finished && message_step(mesh, drain, now).effects.len() == 0,
{
    reveal_with_fuel(message_step, 2);
}

/// What MLS says of a message that waited: one that is shown counts as delivered,
/// under both its ids; one that is still premature waits on; a commit or proposal
/// is remembered; and anything else changes nothing of the drain.
pub proof fn a_tried_message_is_noted(
    drain: MessageDrainView,
    entry: PendingGroupMessageView,
    outcome: OutcomeView,
    id: Seq<char>,
)
    ensures
        ({
            let next = message_tried(drain, entry, outcome);
            let shown = outcome matches OutcomeView::Plaintext(bytes) && valid_utf8(bytes);
            &&& next.delivered.contains(id) <==> drain.delivered.contains(id) || (shown && (id
                == entry.message_id || entry.logical_id == Some(id)))
            &&& next.still == (if outcome is Retriable {
                drain.still.push(entry)
            } else {
                drain.still
            })
            &&& next.state_advanced == (drain.state_advanced || outcome is NonApplication)
            &&& next.queue == drain.queue && next.phase == drain.phase && next.group == drain.group
        }),
{
    broadcast use vstd::seq_lib::group_seq_properties;

}

/// A pass of a commit drain takes the commits one by one: one that is too old is
/// dropped, its id is free again, and where it had been tried the drain remembers
/// that; any other is tried as it is.
pub proof fn a_drain_takes_the_next_commit(mesh: MeshView, drain: CommitDrainView, now: u128)
    requires
        drain.wf(),
        drain.phase == DrainPhase::Pass,
        drain.queue.len() > 0,
    ensures
        ({
            let entry = drain.queue[0];
            let rest = CommitDrainView { queue: drain.queue.remove(0), ..drain };
            let step = commit_step(mesh, drain, now);
            let freed = commit_step(
                MeshView { seen: assoc::del(mesh.seen, entry.message_id), ..mesh },
                CommitDrainView {
                    retried_expired: drain.retried_expired || entry.retry_count > 0,
                    ..rest
                },
                now,
            );
            if now > entry.buffered_at + PENDING_COMMIT_TTL_SECS * SECOND {
                &&& step.mesh == freed.mesh && step.drain == freed.drain && step.next == freed.next
                &&& step.effects == seq![EffectView::UnmarkSeen { message_id: entry.message_id }]
                    + freed.effects
            } else {
                step == (CommitStep {
                    mesh,
                    drain: rest,
                    effects: Seq::empty(),
                    next: Some(entry),
                })
            }
        }),
{
    reveal_with_fuel(commit_step, 2);
}

/// A commit drain passes over the commits again as long as one got through in the
/// last pass and passes are left; then it is over. A drain in which a commit
/// expired that had been tried has the group inspected for a fork.
pub proof fn a_commit_drain_goes_on_while_it_gets_on(
    mesh: MeshView,
    drain: CommitDrainView,
    now: u128,
)
    requires
        mesh.wf(),
        drain.wf(),
        drain.phase == DrainPhase::Pass,
        drain.queue.len() == 0,
    ensures
        ({
            let step = commit_step(mesh, drain, now);
            let wait = queue_of(mesh.commits, drain.group) + drain.still;
            let over = !drain.any_succeeded || wait.len() == 0 || drain.passes + 1
                >= MAX_PENDING_COMMITS_PER_GROUP;
            &&& over ==> step.next is None && step.drain.phase == DrainPhase::Done && queue_of(
                step.mesh.commits,
                drain.group,
            ) == wait
            &&& over ==> step.effects == (if drain.retried_expired {
                seq![EffectView::InspectFork { group_id: drain.group }]
            } else {
                Seq::empty()
            })
            &&& !over ==> step == commit_step(
                MeshView {
                    commits: assoc::put(
                        mesh.commits_returned(drain.group, drain.still).commits,
                        drain.group,
                        Seq::empty(),
                    ),
                    ..mesh
                },
                CommitDrainView {
                    queue: wait,
                    still: Seq::empty(),
                    any_succeeded: false,
                    passes: drain.passes + 1,
                    ..drain
                },
                now,
            )
        }),
{
    reveal_with_fuel(commit_step, 3);
    let queue = queue_of(mesh.commits, drain.group);
    let wait = queue + drain.still;
    let back = mesh.commits_returned(drain.group, drain.still);
    if drain.still.len() > 0 {
        assoc::lemma_put(mesh.commits, drain.group, wait);
    } else {
        assert(wait =~= queue);
    }
    assert(queue_of(back.commits, drain.group) == wait);
    assert(assoc::distinct(back.commits));
    assoc::lemma_del(back.commits, drain.group);
    if wait.len() == 0 {
        assert(wait =~= Seq::empty());
    }
}

/// What became of a commit that waited: one that got through is remembered; one
/// that may yet get through waits on, with one more try counted; one that was
/// rejected is dropped.
pub proof fn a_tried_commit_is_noted(
    drain: CommitDrainView,
    entry: PendingCommitView,
    outcome: CommitOutcomeView,
)
    requires
        entry.retry_count < u32::MAX,
    ensures
        ({
            let next = commit_tried(drain, entry, outcome);
            &&& next.any_succeeded == (drain.any_succeeded || outcome is Success)
            &&& next.still == (if outcome is Retriable {
                drain.still.push(
                    PendingCommitView { retry_count: (entry.retry_count + 1) as u32, ..entry },
                )
            } else {
                drain.still
            })
            &&& next.queue == drain.queue && next.phase == drain.phase && next.group == drain.group
                && next.passes == drain.passes && next.retried_expired == drain.retried_expired
        }),
{
}

/// A commit under this id waits in some group beyond its lifetime.
pub open spec fn overdue_commit(mesh: MeshView, now: u128, id: Seq<char>) -> bool {
    exists|i: int, j: int|
        0 <= i < mesh.commits.len() && 0 <= j < mesh.commits[i].1.len() && (
        #[trigger] mesh.commits[i].1[j]).message_id == id && now
            >= mesh.commits[i].1[j].buffered_at + PENDING_COMMIT_TTL_SECS * SECOND
}

/// A message under this id waits in some group beyond its lifetime.
pub open spec fn overdue_message(mesh: MeshView, now: u128, id: Seq<char>) -> bool {
    exists|i: int, j: int|
        0 <= i < mesh.messages.len() && 0 <= j < mesh.messages[i].1.len() && (
        #[trigger] mesh.messages[i].1[j]).message_id == id && now
            >= mesh.messages[i].1[j].buffered_at + PENDING_GROUP_MESSAGE_TTL_SECS * SECOND
}

/// Some commit of the group waits beyond its lifetime though it had been tried.
pub open spec fn overdue_retry(mesh: MeshView, now: u128, group: Seq<char>) -> bool {
    exists|i: int, j: int|
        0 <= i < mesh.commits.len() && 0 <= j < mesh.commits[i].1.len() && mesh.commits[i].0
            == group && (#[trigger] mesh.commits[i].1[j]).retry_count > 0 && now
            >= mesh.commits[i].1[j].buffered_at + PENDING_COMMIT_TTL_SECS * SECOND
}

/// Some list of the table has a commit with this id.
pub open spec fn holds_commit(
    groups: Seq<(Seq<char>, Seq<PendingCommitView>)>,
    id: Seq<char>,
) -> bool {
    exists|i: int, j: int|
        0 <= i < groups.len() && 0 <= j < groups[i].1.len() && (
        #[trigger] groups[i].1[j]).message_id == id
}

/// Some list of the table has a message with this id.
pub open spec fn holds_message(
    groups: Seq<(Seq<char>, Seq<PendingGroupMessageView>)>,
    id: Seq<char>,
) -> bool {
    exists|i: int, j: int|
        0 <= i < groups.len() && 0 <= j < groups[i].1.len() && (
        #[trigger] groups[i].1[j]).message_id == id
}

proof fn lemma_commit_ids(groups: Seq<(Seq<char>, Seq<PendingCommitView>)>, id: Seq<char>)
    ensures
        all_commit_ids(groups).contains(id) <==> holds_commit(groups, id),
    decreases groups.len(),
{
    broadcast use vstd::seq_lib::group_seq_properties;

    if groups.len() > 0 {
        let init = groups.drop_last();
        let last = groups.len() - 1;
        lemma_commit_ids(init, id);
        let ids = commit_ids(groups.last().1);
        if ids.contains(id) {
            let j = choose|j: int| 0 <= j < ids.len() && ids[j] == id;
            assert(groups[last].1[j].message_id == id);
        }
        if holds_commit(init, id) {
            let (i, j) = choose|i: int, j: int|
                0 <= i < init.len() && 0 <= j < init[i].1.len() && (
                #[trigger] init[i].1[j]).message_id == id;
            assert(groups[i].1[j].message_id == id);
        }
        if holds_commit(groups, id) {
            let (i, j) = choose|i: int, j: int|
                0 <= i < groups.len() && 0 <= j < groups[i].1.len() && (
                #[trigger] groups[i].1[j]).message_id == id;
            if i < last {
                assert(init[i].1[j].message_id == id);
            } else {
                assert(ids[j] == id);
            }
        }
    }
}

proof fn lemma_message_ids(groups: Seq<(Seq<char>, Seq<PendingGroupMessageView>)>, id: Seq<char>)
    ensures
        all_message_ids(groups).contains(id) <==> holds_message(groups, id),
    decreases groups.len(),
{
    broadcast use vstd::seq_lib::group_seq_properties;

    if groups.len() > 0 {
        let init = groups.drop_last();
        let last = groups.len() - 1;
        lemma_message_ids(init, id);
        let ids = message_ids(groups.last().1);
        if ids.contains(id) {
            let j = choose|j: int| 0 <= j < ids.len() && ids[j] == id;
            assert(groups[last].1[j].message_id == id);
        }
        if holds_message(init, id) {
            let (i, j) = choose|i: int, j: int|
                0 <= i < init.len() && 0 <= j < init[i].1.len() && (
                #[trigger] init[i].1[j]).message_id == id;
            assert(groups[i].1[j].message_id == id);
        }
        if holds_message(groups, id) {
            let (i, j) = choose|i: int, j: int|
                0 <= i < groups.len() && 0 <= j < groups[i].1.len() && (
                #[trigger] groups[i].1[j]).message_id == id;
            if i < last {
                assert(init[i].1[j].message_id == id);
            } else {
                assert(ids[j] == id);
            }
        }
    }
}

proof fn lemma_stale_ids(mesh: MeshView, now: u128, id: Seq<char>)
    ensures
        mesh.stale_ids(now).contains(id) <==> overdue_commit(mesh, now, id) || overdue_message(
            mesh,
            now,
            id,
        ),
{
    broadcast use vstd::seq_lib::group_seq_properties;

    let commits = mesh.stale_commits(now);
    let messages = mesh.stale_messages(now);
    lemma_commit_ids(commits, id);
    lemma_message_ids(messages, id);
    let limit = nanos(PENDING_COMMIT_TTL_SECS);
    let bound = nanos(PENDING_GROUP_MESSAGE_TTL_SECS);
    if holds_commit(commits, id) {
        let (i, j) = choose|i: int, j: int|
            0 <= i < commits.len() && 0 <= j < commits[i].1.len() && (
            #[trigger] commits[i].1[j]).message_id == id;
        let all = mesh.commits[i].1;
        let e = commits[i].1[j];
        lemma_dead::<PendingCommit>(all, now, limit, e);
        let k = choose|k: int| 0 <= k < all.len() && all[k] == e;
        assert(mesh.commits[i].1[k].message_id == id);
    }
    if overdue_commit(mesh, now, id) {
        let (i, j) = choose|i: int, j: int|
            0 <= i < mesh.commits.len() && 0 <= j < mesh.commits[i].1.len() && (
            #[trigger] mesh.commits[i].1[j]).message_id == id && now
                >= mesh.commits[i].1[j].buffered_at + PENDING_COMMIT_TTL_SECS * SECOND;
        let e = mesh.commits[i].1[j];
        lemma_dead::<PendingCommit>(mesh.commits[i].1, now, limit, e);
        let k = choose|k: int| 0 <= k < commits[i].1.len() && commits[i].1[k] == e;
        assert(commits[i].1[k].message_id == id);
    }
    if holds_message(messages, id) {
        let (i, j) = choose|i: int, j: int|
            0 <= i < messages.len() && 0 <= j < messages[i].1.len() && (
            #[trigger] messages[i].1[j]).message_id == id;
        let all = mesh.messages[i].1;
        let e = messages[i].1[j];
        lemma_dead::<PendingGroupMessage>(all, now, bound, e);
        let k = choose|k: int| 0 <= k < all.len() && all[k] == e;
        assert(mesh.messages[i].1[k].message_id == id);
    }
    if overdue_message(mesh, now, id) {
        let (i, j) = choose|i: int, j: int|
            0 <= i < mesh.messages.len() && 0 <= j < mesh.messages[i].1.len() && (
            #[trigger] mesh.messages[i].1[j]).message_id == id && now
                >= mesh.messages[i].1[j].buffered_at + PENDING_GROUP_MESSAGE_TTL_SECS * SECOND;
        let e = mesh.messages[i].1[j];
        lemma_dead::<PendingGroupMessage>(mesh.messages[i].1, now, bound, e);
        let k = choose|k: int| 0 <= k < messages[i].1.len() && messages[i].1[k] == e;
        assert(messages[i].1[k].message_id == id);
    }
}

proof fn lemma_dead<T: Buffered>(queue: Seq<T::V>, now: u128, limit: u128, e: T::V)
    ensures
        dead::<T>(queue, now, limit).contains(e) <==> queue.contains(e) && age(now, T::since(e))
            >= limit,
{
    let old = |e: T::V| age(now, T::since(e)) >= limit;
    let gone = queue.filter(old);
    if gone.contains(e) {
        let i = choose|i: int| 0 <= i < gone.len() && gone[i] == e;
        queue.lemma_filter_pred(old, i);
        queue.lemma_filter_contains_rev(old, e);
    }
    if queue.contains(e) && old(e) {
        let i = choose|i: int| 0 <= i < queue.len() && queue[i] == e;
        queue.lemma_filter_contains(old, i);
    }
}

proof fn lemma_forgets(seen: Seq<(Seq<char>, u128)>, ids: Seq<Seq<char>>, id: Seq<char>)
    requires
        assoc::distinct(seen),
    ensures
        assoc::known(forget_all(seen, ids), id) <==> assoc::known(seen, id) && !ids.contains(id),
    decreases ids.len(),
{
    broadcast use vstd::seq_lib::group_seq_properties;

    if ids.len() > 0 {
        let init = ids.drop_last();
        lemma_forgets(seen, init, id);
        lemma_forget_distinct(seen, init);
        assoc::lemma_del(forget_all(seen, init), ids.last());
        assert(ids =~= init.push(ids.last()));
        assert(ids.contains(id) <==> init.contains(id) || id == ids.last());
        if id != ids.last() {
            assert(assoc::known(forget_all(seen, ids), id) == assoc::known(
                forget_all(seen, init),
                id,
            ));
        }
    }
}

/// A cleaning forgets an id exactly where it is older than ids are remembered, or
/// where the copy that waits under it is past its own lifetime, as long as no more
/// ids are remembered than may be. It releases the ids of those copies, and has
/// each group inspected for a fork of which a commit expired that had been tried.
pub proof fn a_cleaning_forgets_what_is_old(
    mesh: MeshView,
    now: u128,
    id: Seq<char>,
    effect: EffectView,
)
    requires
        mesh.wf(),
        mesh.seen.len() <= MAX_GROUP_MESSAGE_DEDUP_ENTRIES,
    ensures
        assoc::known(mesh.cleaned(now).seen, id) <==> {
            &&& assoc::known(mesh.seen, id)
            &&& now < assoc::at(mesh.seen, id) + GROUP_MESSAGE_DEDUP_TTL_SECS * SECOND
            &&& !overdue_commit(mesh, now, id) && !overdue_message(mesh, now, id)
        },
        mesh.cleaning(now).contains(effect) <==> match effect {
            EffectView::UnmarkSeen { message_id } => overdue_commit(mesh, now, message_id)
                || overdue_message(mesh, now, message_id),
            EffectView::InspectFork { group_id } => overdue_retry(mesh, now, group_id),
            _ => false,
        },
{
    broadcast use vstd::seq_lib::group_seq_properties;

    let ttl = nanos(GROUP_MESSAGE_DEDUP_TTL_SECS);
    let keep = |e: (Seq<char>, u128)| age(now, e.1) < ttl;
    let young = mesh.seen.filter(keep);
    assert(younger::<u128>(mesh.seen, now, ttl) =~= young) by {
        assert(younger::<u128>(mesh.seen, now, ttl) == mesh.seen.filter(
            |e: (Seq<char>, u128)|
                age(now, <u128 as Dated>::dated(e.1)) < ttl,
        ));
        assert((|e: (Seq<char>, u128)|
            age(now, <u128 as Dated>::dated(e.1)) < ttl) =~= keep);
    }
    mesh.seen.lemma_filter_len(keep);
    assert(newest::<u128>(young, MAX_GROUP_MESSAGE_DEDUP_ENTRIES as nat) == young);
    assoc::lemma_filter_distinct(mesh.seen, keep);
    lemma_forgets(young, mesh.stale_ids(now), id);
    lemma_stale_ids(mesh, now, id);
    if assoc::known(mesh.seen, id) {
        let i = choose|i: int| 0 <= i < mesh.seen.len() && #[trigger] mesh.seen[i].0 == id;
        assoc::lemma_position(mesh.seen, i);
        if keep(mesh.seen[i]) {
            mesh.seen.lemma_filter_contains(keep, i);
            let j = choose|j: int| 0 <= j < young.len() && young[j] == mesh.seen[i];
            assert(young[j].0 == id);
        }
    }
    if assoc::known(young, id) {
        let j = choose|j: int| 0 <= j < young.len() && #[trigger] young[j].0 == id;
        let i = choose|i: int| 0 <= i < mesh.seen.len() && mesh.seen[i] == young[j];
        assoc::lemma_position(mesh.seen, i);
    }
    let ids = mesh.stale_ids(now);
    let freed = unmarks(ids);
    if let EffectView::UnmarkSeen { message_id } = effect {
        lemma_stale_ids(mesh, now, message_id);
        if ids.contains(message_id) {
            let i = choose|i: int| 0 <= i < ids.len() && ids[i] == message_id;
            assert(freed[i] == effect);
        }
    }
    if freed.contains(effect) {
        let i = choose|i: int| 0 <= i < freed.len() && freed[i] == effect;
        assert(ids.contains(ids[i]));
        assert(effect == EffectView::UnmarkSeen { message_id: ids[i] });
    }
    lemma_suspects(mesh, now, effect);
}

proof fn lemma_candidates(groups: Seq<(Seq<char>, Seq<PendingCommitView>)>, effect: EffectView)
    ensures
        fork_candidates(groups).contains(effect) <==> exists|i: int|
            0 <= i < groups.len() && any_retried((#[trigger] groups[i]).1) && effect
                == (EffectView::InspectFork { group_id: groups[i].0 }),
    decreases groups.len(),
{
    broadcast use vstd::seq_lib::group_seq_properties;

    if groups.len() > 0 {
        let init = groups.drop_last();
        let last = groups.len() - 1;
        lemma_candidates(init, effect);
        if fork_candidates(init).contains(effect) {
            let i = choose|i: int|
                0 <= i < init.len() && any_retried((#[trigger] init[i]).1) && effect
                    == (EffectView::InspectFork { group_id: init[i].0 });
            assert(groups[i] == init[i]);
        }
        assert forall|i: int|
            0 <= i < groups.len() && any_retried((#[trigger] groups[i]).1) && effect
                == (EffectView::InspectFork {
                group_id: groups[i].0,
            }) implies fork_candidates(groups).contains(effect) by {
            if i < last {
                assert(init[i] == groups[i]);
            }
        }
        assert(groups[last] == groups.last());
    }
}

proof fn lemma_suspects(mesh: MeshView, now: u128, effect: EffectView)
    ensures
        fork_candidates(mesh.stale_commits(now)).contains(effect) <==> (effect matches
            EffectView::InspectFork { group_id } && overdue_retry(mesh, now, group_id)),
{
    let commits = mesh.stale_commits(now);
    lemma_candidates(commits, effect);
    let limit = nanos(PENDING_COMMIT_TTL_SECS);
    if fork_candidates(commits).contains(effect) {
        let i = choose|i: int|
            0 <= i < commits.len() && any_retried((#[trigger] commits[i]).1) && effect
                == (EffectView::InspectFork { group_id: commits[i].0 });
        let j = choose|j: int|
            0 <= j < commits[i].1.len() && (#[trigger] commits[i].1[j]).retry_count > 0;
        let all = mesh.commits[i].1;
        let e = commits[i].1[j];
        lemma_dead::<PendingCommit>(all, now, limit, e);
        let k = choose|k: int| 0 <= k < all.len() && all[k] == e;
        assert(mesh.commits[i].1[k].retry_count > 0);
    }
    if let EffectView::InspectFork { group_id } = effect {
        if overdue_retry(mesh, now, group_id) {
            let (i, j) = choose|i: int, j: int|
                0 <= i < mesh.commits.len() && 0 <= j < mesh.commits[i].1.len()
                    && mesh.commits[i].0 == group_id && (
                #[trigger] mesh.commits[i].1[j]).retry_count > 0 && now
                    >= mesh.commits[i].1[j].buffered_at + PENDING_COMMIT_TTL_SECS * SECOND;
            let e = mesh.commits[i].1[j];
            lemma_dead::<PendingCommit>(mesh.commits[i].1, now, limit, e);
            let k = choose|k: int| 0 <= k < commits[i].1.len() && commits[i].1[k] == e;
            assert(commits[i].1[k].retry_count > 0);
            assert(any_retried(commits[i].1));
            assert(commits[i].0 == group_id);
        }
    }
}

/// Where more ids are remembered than may be, the oldest go: whatever is kept is
/// no older than any that goes, and what is kept was there.
pub proof fn the_newest_ids_are_kept(
    table: Seq<(Seq<char>, u128)>,
    max: nat,
    kept: (Seq<char>, u128),
    gone: (Seq<char>, u128),
)
    requires
        newest::<u128>(table, max).contains(kept),
        table.contains(gone),
        !newest::<u128>(table, max).contains(gone),
    ensures
        table.contains(kept),
        gone.1 <= kept.1,
        newest::<u128>(table, max).len() == max,
    decreases table.len(),
{
    if table.len() > max {
        let times = times_in::<u128>(table);
        lemma_earliest(times);
        let i = earliest(times);
        let rest = less_oldest::<u128>(table);
        lemma_kept_ids(rest, max, kept);
        let k = choose|k: int| 0 <= k < rest.len() && rest[k] == kept;
        let m = if k < i {
            k
        } else {
            k + 1
        };
        assert(table[m] == kept);
        assert(times[i] == table[i].1 && times[m] == table[m].1);
        let g = choose|g: int| 0 <= g < table.len() && table[g] == gone;
        if g != i {
            let q = if g < i {
                g
            } else {
                g - 1
            };
            assert(rest[q] == gone);
            the_newest_ids_are_kept(rest, max, kept, gone);
        }
    }
}

proof fn lemma_kept_ids(table: Seq<(Seq<char>, u128)>, max: nat, kept: (Seq<char>, u128))
    requires
        newest::<u128>(table, max).contains(kept),
    ensures
        table.contains(kept),
        table.len() >= max ==> newest::<u128>(table, max).len() == max,
    decreases table.len(),
{
    if table.len() > max {
        let times = times_in::<u128>(table);
        lemma_earliest(times);
        let i = earliest(times);
        let rest = less_oldest::<u128>(table);
        lemma_kept_ids(rest, max, kept);
        let k = choose|k: int| 0 <= k < rest.len() && rest[k] == kept;
        let m = if k < i {
            k
        } else {
            k + 1
        };
        assert(table[m] == kept);
    }
}

/// A commit is handed to MLS where it parsed and carries something that is base64
/// of a size that is taken; one that waits does so from now on, untried.
pub proof fn a_readable_commit_is_handed_to_mls(
    payload: GroupMlsCommitPayloadView,
    message_id: Seq<char>,
    sender: Seq<char>,
    data: Seq<char>,
    now: u128,
)
    ensures
        commit_bytes(None) is None,
        commit_bytes(Some(payload)) == (if payload.ciphertext.len() > 0 && encode_utf8(
            payload.ciphertext,
        ).len() <= MAX_BASE64_PAYLOAD_SIZE {
            base64_bytes(payload.ciphertext)
        } else {
            None
        }),
        held_commit(message_id, sender, data, now) == (PendingCommitView {
            sender,
            message_id,
            data,
            buffered_at: now,
            retry_count: 0,
        }),
{
}

proof fn lemma_live<T: Buffered>(queue: Seq<T::V>, now: u128, limit: u128, e: T::V)
    ensures
        live::<T>(queue, now, limit).contains(e) <==> queue.contains(e) && age(now, T::since(e))
            < limit,
{
    let young = |e: T::V| age(now, T::since(e)) < limit;
    let kept = queue.filter(young);
    if kept.contains(e) {
        let i = choose|i: int| 0 <= i < kept.len() && kept[i] == e;
        queue.lemma_filter_pred(young, i);
        queue.lemma_filter_contains_rev(young, e);
    }
    if queue.contains(e) && young(e) {
        let i = choose|i: int| 0 <= i < queue.len() && queue[i] == e;
        queue.lemma_filter_contains(young, i);
    }
}

/// Some group's queue has this entry.
pub open spec fn queued<V>(buffers: Seq<(Seq<char>, Seq<V>)>, group: Seq<char>, e: V) -> bool {
    exists|i: int|
        0 <= i < buffers.len() && (#[trigger] buffers[i]).0 == group && buffers[i].1.contains(e)
}

proof fn lemma_swept<T: Buffered>(
    buffers: Seq<(Seq<char>, Seq<T::V>)>,
    now: u128,
    limit: u128,
    group: Seq<char>,
    e: T::V,
)
    ensures
        queued(swept::<T>(buffers, now, limit), group, e) <==> queued(buffers, group, e) && age(
            now,
            T::since(e),
        ) < limit,
{
    let some = |e: (Seq<char>, Seq<T::V>)| e.1.len() > 0;
    let cut = buffers.map_values(
        |e: (Seq<char>, Seq<T::V>)| (e.0, live::<T>(e.1, now, limit)),
    );
    let kept = cut.filter(some);
    assert(swept::<T>(buffers, now, limit) == kept);
    if queued(kept, group, e) {
        let i = choose|i: int|
            0 <= i < kept.len() && (#[trigger] kept[i]).0 == group && kept[i].1.contains(e);
        assert(kept.contains(kept[i]));
        cut.lemma_filter_contains_rev(some, kept[i]);
        let k = choose|k: int| 0 <= k < cut.len() && cut[k] == kept[i];
        lemma_live::<T>(buffers[k].1, now, limit, e);
        assert(buffers[k].0 == group);
    }
    if queued(buffers, group, e) && age(now, T::since(e)) < limit {
        let k = choose|k: int|
            0 <= k < buffers.len() && (#[trigger] buffers[k]).0 == group && buffers[k].1.contains(e);
        lemma_live::<T>(buffers[k].1, now, limit, e);
        assert(cut[k].1.contains(e));
        cut.lemma_filter_contains(some, k);
        let i = choose|i: int| 0 <= i < kept.len() && kept[i] == cut[k];
        assert(kept[i].0 == group);
    }
}

/// A cleaning drops exactly the messages and commits that have waited for their
/// lifetime.
pub proof fn a_cleaning_drops_what_waited_too_long(
    mesh: MeshView,
    now: u128,
    group: Seq<char>,
    message: PendingGroupMessageView,
    commit: PendingCommitView,
)
    ensures
        queued(mesh.cleaned(now).messages, group, message) <==> queued(
            mesh.messages,
            group,
            message,
        ) && now < message.buffered_at + PENDING_GROUP_MESSAGE_TTL_SECS * SECOND,
        queued(mesh.cleaned(now).commits, group, commit) <==> queued(mesh.commits, group, commit)
            && now < commit.buffered_at + PENDING_COMMIT_TTL_SECS * SECOND,
{
    lemma_swept::<PendingGroupMessage>(
        mesh.messages,
        now,
        nanos(PENDING_GROUP_MESSAGE_TTL_SECS),
        group,
        message,
    );
    lemma_swept::<PendingCommit>(
        mesh.commits,
        now,
        nanos(PENDING_COMMIT_TTL_SECS),
        group,
        commit,
    );
}

} // verus!

//! Seen ids: marking, releasing and cleaning up.

use vstd::prelude::*;

use crate::assoc;
use crate::group_mesh::buffer::{expired, sweep, swept};
use crate::group_mesh::dated::{keep_newest, keep_younger, newest, younger};
use crate::group_mesh::effect::{Effect, EffectView, Effects};
use crate::group_mesh::limits::{
    nanos, nanos_of, GROUP_MESSAGE_DEDUP_TTL_SECS, MAX_GROUP_MESSAGE_DEDUP_ENTRIES,
    PENDING_COMMIT_TTL_SECS, PENDING_GROUP_MESSAGE_TTL_SECS,
};
use crate::group_mesh::state::{GroupMeshState, MeshView};
use crate::group_mesh::types::{
    PendingCommit, PendingCommitView, PendingGroupMessage, PendingGroupMessageView,
};

verus! {

/// The list of seen ids without the given ones.
pub open spec fn forget_all(seen: Seq<(Seq<char>, u128)>, ids: Seq<Seq<char>>) -> Seq<
    (Seq<char>, u128),
>
    decreases ids.len(),
{
    if ids.len() == 0 {
        seen
    } else {
        assoc::del(forget_all(seen, ids.drop_last()), ids.last())
    }
}

/// One release at the transport level for each id.
pub open spec fn unmarks(ids: Seq<Seq<char>>) -> Seq<EffectView> {
    ids.map_values(|id: Seq<char>| EffectView::UnmarkSeen { message_id: id })
}

/// The ids of a list of commits.
pub open spec fn commit_ids(queue: Seq<PendingCommitView>) -> Seq<Seq<char>> {
    queue.map_values(|c: PendingCommitView| c.message_id)
}

/// The ids of a list of messages.
pub open spec fn message_ids(queue: Seq<PendingGroupMessageView>) -> Seq<Seq<char>> {
    queue.map_values(|m: PendingGroupMessageView| m.message_id)
}

/// The ids of all commits, group by group.
pub open spec fn all_commit_ids(groups: Seq<(Seq<char>, Seq<PendingCommitView>)>) -> Seq<Seq<char>>
    decreases groups.len(),
{
    if groups.len() == 0 {
        Seq::empty()
    } else {
        all_commit_ids(groups.drop_last()) + commit_ids(groups.last().1)
    }
}

/// The ids of all messages, group by group.
pub open spec fn all_message_ids(
    groups: Seq<(Seq<char>, Seq<PendingGroupMessageView>)>,
) -> Seq<Seq<char>>
    decreases groups.len(),
{
    if groups.len() == 0 {
        Seq::empty()
    } else {
        all_message_ids(groups.drop_last()) + message_ids(groups.last().1)
    }
}

/// Whether some commit was tried again and still failed.
pub open spec fn any_retried(queue: Seq<PendingCommitView>) -> bool {
    exists|i: int| 0 <= i < queue.len() && (#[trigger] queue[i]).retry_count > 0
}

/// The groups in which a commit that was tried again expired: strong signs of an
/// epoch fork.
pub open spec fn fork_candidates(groups: Seq<(Seq<char>, Seq<PendingCommitView>)>) -> Seq<
    EffectView,
>
    decreases groups.len(),
{
    if groups.len() == 0 {
        Seq::empty()
    } else {
        let rest = fork_candidates(groups.drop_last());
        if any_retried(groups.last().1) {
            rest.push(EffectView::InspectFork { group_id: groups.last().0 })
        } else {
            rest
        }
    }
}

impl MeshView {
    /// The id is recorded as seen.
    pub open spec fn marked(self, id: Seq<char>, now: u128) -> MeshView {
        MeshView { seen: assoc::put(self.seen, id, now), ..self }
    }

    /// The id is no longer recorded as seen.
    pub open spec fn released(self, id: Seq<char>) -> MeshView {
        MeshView { seen: assoc::del(self.seen, id), ..self }
    }

    /// The commits that a cleanup drops, by group.
    pub open spec fn stale_commits(self, now: u128) -> Seq<(Seq<char>, Seq<PendingCommitView>)> {
        expired::<PendingCommit>(self.commits, now, nanos(PENDING_COMMIT_TTL_SECS))
    }

    /// The messages that a cleanup drops, by group.
    pub open spec fn stale_messages(self, now: u128) -> Seq<
        (Seq<char>, Seq<PendingGroupMessageView>),
    > {
        expired::<PendingGroupMessage>(self.messages, now, nanos(PENDING_GROUP_MESSAGE_TTL_SECS))
    }

    /// The ids that a cleanup releases.
    pub open spec fn stale_ids(self, now: u128) -> Seq<Seq<char>> {
        all_commit_ids(self.stale_commits(now)) + all_message_ids(self.stale_messages(now))
    }

    /// A cleanup: aged ids go, then the oldest beyond the cap; aged buffered
    /// entries go, and with each its replay protection.
    pub open spec fn cleaned(self, now: u128) -> MeshView {
        let fresh = newest::<u128>(
            younger::<u128>(self.seen, now, nanos(GROUP_MESSAGE_DEDUP_TTL_SECS)),
            MAX_GROUP_MESSAGE_DEDUP_ENTRIES as nat,
        );
        MeshView {
            seen: forget_all(fresh, self.stale_ids(now)),
            commits: swept::<PendingCommit>(self.commits, now, nanos(PENDING_COMMIT_TTL_SECS)),
            messages: swept::<PendingGroupMessage>(
                self.messages,
                now,
                nanos(PENDING_GROUP_MESSAGE_TTL_SECS),
            ),
            ..self
        }
    }

    /// What a cleanup asks for.
    pub open spec fn cleaning(self, now: u128) -> Seq<EffectView> {
        fork_candidates(self.stale_commits(now)) + unmarks(self.stale_ids(now))
    }

    /// The state after a fresh id was let in.
    pub open spec fn let_in(self, id: Seq<char>, now: u128) -> MeshView {
        let marked = self.marked(id, now);
        if marked.seen.len() > MAX_GROUP_MESSAGE_DEDUP_ENTRIES {
            marked.cleaned(now)
        } else {
            marked
        }
    }

    /// What letting in a fresh id asks for.
    pub open spec fn letting_in(self, id: Seq<char>, now: u128) -> Seq<EffectView> {
        let marked = self.marked(id, now);
        if marked.seen.len() > MAX_GROUP_MESSAGE_DEDUP_ENTRIES {
            marked.cleaning(now)
        } else {
            Seq::empty()
        }
    }
}

impl GroupMeshState {
    /// Records an id as seen.
    pub fn mark_seen(&mut self, id: &str, now: u128)
        requires
            old(self)@.wf(),
        ensures
            final(self)@.wf(),
            final(self)@ == old(self)@.marked(id@, now),
    {
        let _ = self.message_dedup.insert(id.to_owned(), now);
    }

    /// Whether an id was seen.
    pub fn was_seen(&self, id: &str) -> (r: bool)
        requires
            self@.wf(),
        ensures
            r == assoc::known(self@.seen, id@),
    {
        self.message_dedup.contains_key(id)
    }

    /// Releases every replay-protection record of an entry that was dropped
    /// undelivered, so that a redelivery is accepted fresh: the id leaves the
    /// table of seen ids, and the transport-level deduplicator is told.
    pub fn release_replay_protection(&mut self, message_id: &str, effects: &mut Effects)
        requires
            old(self)@.wf(),
        ensures
            final(self)@.wf(),
            final(self)@ == old(self)@.released(message_id@),
            final(effects)@ == old(effects)@.push(
                EffectView::UnmarkSeen { message_id: message_id@ },
            ),
    {
        let _ = self.message_dedup.remove(message_id);
        effects.push(Effect::UnmarkSeen { message_id: message_id.to_owned() });
    }

    /// Releases the replay protection of each id.
    pub fn release_all(&mut self, ids: &Vec<String>, effects: &mut Effects)
        requires
            old(self)@.wf(),
        ensures
            final(self)@.wf(),
            final(self)@ == (MeshView {
                seen: forget_all(old(self)@.seen, ids.deep_view()),
                ..old(self)@
            }),
            final(effects)@ == old(effects)@ + unmarks(ids.deep_view()),
    {
        let mut i: usize = 0;
        proof {
            assert(ids.deep_view().take(0) =~= Seq::empty());
            assert(effects@ =~= old(effects)@ + unmarks(ids.deep_view().take(0)));
        }
        while i < ids.len()
            invariant
                i <= ids@.len(),
                self@.wf(),
                self@ == (MeshView {
                    seen: forget_all(old(self)@.seen, ids.deep_view().take(i as int)),
                    ..old(self)@
                }),
                effects@ == old(effects)@ + unmarks(ids.deep_view().take(i as int)),
            decreases ids@.len() - i,
        {
            let ghost out = effects@;
            self.release_replay_protection(ids[i].as_str(), effects);
            proof {
                let next = ids.deep_view().take(i + 1);
                assert(next.drop_last() =~= ids.deep_view().take(i as int));
                assert(next.last() == ids[i as int]@);
                assert(effects@ =~= old(effects)@ + unmarks(next));
            }
            i = i + 1;
        }
        assert(ids.deep_view().take(i as int) =~= ids.deep_view());
    }

    /// Drops aged ids and buffered entries, and enforces the cap on ids.
    pub fn cleanup_group_message_dedup(&mut self, now: u128, effects: &mut Effects)
        requires
            old(self)@.wf(),
        ensures
            final(self)@.wf(),
            final(self)@ == old(self)@.cleaned(now),
            final(effects)@ == old(effects)@ + old(self)@.cleaning(now),
    {
        keep_younger(&mut self.message_dedup, now, nanos_of(GROUP_MESSAGE_DEDUP_TTL_SECS));
        keep_newest(&mut self.message_dedup, MAX_GROUP_MESSAGE_DEDUP_ENTRIES);
        let commits = sweep(&mut self.pending_commits, now, nanos_of(PENDING_COMMIT_TTL_SECS));
        let ghost stale = old(self)@.stale_commits(now);
        let mut ids: Vec<String> = Vec::new();
        let mut g: usize = 0;
        assert(ids.deep_view() =~= all_commit_ids(stale.take(0)));
        assert(effects@ =~= old(effects)@ + fork_candidates(stale.take(0)));
        while g < commits.len()
            invariant
                g <= commits@.len(),
                stale == commits.deep_view(),
                ids.deep_view() == all_commit_ids(stale.take(g as int)),
                effects@ == old(effects)@ + fork_candidates(stale.take(g as int)),
            decreases commits@.len() - g,
        {
            let ghost before = ids.deep_view();
            let ghost out = effects@;
            let queue = &commits[g].1;
            proof {
                assert(stale[g as int] == (commits@[g as int].0@, queue.deep_view()));
                assert(stale.take(g + 1).drop_last() =~= stale.take(g as int));
                assert(stale.take(g + 1).last() == stale[g as int]);
            }
            let mut retried: bool = false;
            let mut i: usize = 0;
            assert(ids.deep_view() =~= before + commit_ids(queue.deep_view().take(0)));
            while i < queue.len()
                invariant
                    i <= queue@.len(),
                    ids.deep_view() == before + commit_ids(queue.deep_view().take(i as int)),
                    retried == any_retried(queue.deep_view().take(i as int)),
                decreases queue@.len() - i,
            {
                let ghost shorter = ids.deep_view();
                ids.push(queue[i].message_id.clone());
                proof {
                    let next = queue.deep_view().take(i + 1);
                    assert(ids.deep_view() =~= shorter.push(queue[i as int].message_id@));
                    assert(ids.deep_view() =~= before + commit_ids(next));
                    let earlier = queue.deep_view().take(i as int);
                    if any_retried(earlier) {
                        let j = choose|j: int|
                            0 <= j < earlier.len() && (#[trigger] earlier[j]).retry_count > 0;
                        assert(next[j].retry_count > 0);
                    }
                    if any_retried(next) && queue[i as int].retry_count == 0 {
                        let j = choose|j: int|
                            0 <= j < next.len() && (#[trigger] next[j]).retry_count > 0;
                        assert(next[i as int].retry_count == 0);
                        assert(earlier[j].retry_count > 0);
                    }
                    if queue[i as int].retry_count > 0 {
                        assert(next[i as int].retry_count > 0);
                    }
                }
                if queue[i].retry_count > 0 {
                    retried = true;
                }
                i = i + 1;
            }
            assert(queue.deep_view().take(i as int) =~= queue.deep_view());
            if retried {
                effects.push(Effect::InspectFork { group_id: commits[g].0.clone() });
                assert(effects@ =~= old(effects)@ + fork_candidates(stale.take(g + 1)));
            }
            g = g + 1;
        }
        assert(stale.take(g as int) =~= stale);
        let messages = sweep(
            &mut self.pending_group_messages,
            now,
            nanos_of(PENDING_GROUP_MESSAGE_TTL_SECS),
        );
        let ghost late = old(self)@.stale_messages(now);
        let mut g: usize = 0;
        assert(ids.deep_view() =~= all_commit_ids(stale) + all_message_ids(late.take(0)));
        while g < messages.len()
            invariant
                g <= messages@.len(),
                late == messages.deep_view(),
                ids.deep_view() == all_commit_ids(stale) + all_message_ids(late.take(g as int)),
            decreases messages@.len() - g,
        {
            let ghost before = ids.deep_view();
            let queue = &messages[g].1;
            proof {
                assert(late[g as int] == (messages@[g as int].0@, queue.deep_view()));
                assert(late.take(g + 1).drop_last() =~= late.take(g as int));
                assert(late.take(g + 1).last() == late[g as int]);
            }
            let mut i: usize = 0;
            assert(ids.deep_view() =~= before + message_ids(queue.deep_view().take(0)));
            while i < queue.len()
                invariant
                    i <= queue@.len(),
                    ids.deep_view() == before + message_ids(queue.deep_view().take(i as int)),
                decreases queue@.len() - i,
            {
                let ghost shorter = ids.deep_view();
                ids.push(queue[i].message_id.clone());
                proof {
                    assert(ids.deep_view() =~= shorter.push(queue[i as int].message_id@));
                    assert(ids.deep_view() =~= before + message_ids(
                        queue.deep_view().take(i + 1),
                    ));
                }
                i = i + 1;
            }
            assert(queue.deep_view().take(i as int) =~= queue.deep_view());
            assert(ids.deep_view() =~= all_commit_ids(stale) + all_message_ids(late.take(g + 1)));
            g = g + 1;
        }
        assert(late.take(g as int) =~= late);
        let ghost out = effects@;
        self.release_all(&ids, effects);
        assert(effects@ =~= old(effects)@ + old(self)@.cleaning(now));
    }

    /// Lets in an id that was not seen before, and says whether it was fresh.
    pub fn take_in(&mut self, id: &str, now: u128, effects: &mut Effects) -> (fresh: bool)
        requires
            old(self)@.wf(),
        ensures
            final(self)@.wf(),
            fresh == !assoc::known(old(self)@.seen, id@),
            fresh ==> final(self)@ == old(self)@.let_in(id@, now) && final(effects)@ == old(
                effects,
            )@ + old(self)@.letting_in(id@, now),
            !fresh ==> final(self)@ == old(self)@ && final(effects)@ == old(effects)@,
    {
        if self.was_seen(id) {
            return false;
        }
        self.mark_seen(id, now);
        if self.message_dedup.len() > MAX_GROUP_MESSAGE_DEDUP_ENTRIES {
            self.cleanup_group_message_dedup(now, effects);
        } else {
            assert(effects@ =~= old(effects)@ + Seq::<EffectView>::empty());
        }
        true
    }
}

} // verus!

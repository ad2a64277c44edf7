//! Commits that wait for an earlier one: buffering them, and trying them again
//! once the group has moved on.
//!
//! A buffered commit's id is already recorded as seen, so the buffered copy is
//! its only way to be processed. Whenever a copy is dropped unprocessed, its
//! replay protection is released so that a redelivery is accepted fresh.

use vstd::prelude::*;

use crate::assoc;
use crate::group_mesh::buffer::{enqueue, enqueued, queue_of};
use crate::group_mesh::commits::{CommitOutcome, CommitOutcomeView};
use crate::group_mesh::dated::{age, age_of};
use crate::group_mesh::dedup::{commit_ids, forget_all, unmarks};
use crate::group_mesh::effect::{Effect, EffectView, Effects};
use crate::group_mesh::limits::{
    commit_caps, nanos, nanos_of, pending_commit_caps, MAX_PENDING_COMMITS_PER_GROUP,
    PENDING_COMMIT_TTL_SECS,
};
use crate::group_mesh::state::{GroupMeshState, MeshView};
use crate::group_mesh::types::{PendingCommit, PendingCommitView};

verus! {

impl MeshView {
    /// The state after a commit was buffered.
    pub open spec fn commit_buffered(self, group: Seq<char>, entry: PendingCommitView) -> MeshView {
        match enqueued::<PendingCommit>(
            self.commits,
            group,
            commit_caps(),
            MAX_PENDING_COMMITS_PER_GROUP as nat,
            entry,
        ) {
            Some(after) => MeshView {
                commits: after.0,
                seen: forget_all(self.seen, commit_ids(after.1)),
                ..self
            },
            None => self,
        }
    }

    /// What buffering a commit asks for: a release of each copy that made way.
    pub open spec fn buffering_commit(self, group: Seq<char>, entry: PendingCommitView) -> Seq<
        EffectView,
    > {
        match enqueued::<PendingCommit>(
            self.commits,
            group,
            commit_caps(),
            MAX_PENDING_COMMITS_PER_GROUP as nat,
            entry,
        ) {
            Some(after) => unmarks(commit_ids(after.1)),
            None => Seq::empty(),
        }
    }

    /// The commits with a group's empty buffer removed.
    pub open spec fn commits_tidied(self, group: Seq<char>) -> MeshView {
        if queue_of(self.commits, group).len() == 0 {
            MeshView { commits: assoc::del(self.commits, group), ..self }
        } else {
            self
        }
    }

    /// The commits with some put back at the end of a group's buffer.
    pub open spec fn commits_returned(
        self,
        group: Seq<char>,
        still: Seq<PendingCommitView>,
    ) -> MeshView {
        if still.len() == 0 {
            self
        } else {
            MeshView {
                commits: assoc::put(self.commits, group, queue_of(self.commits, group) + still),
                ..self
            }
        }
    }
}

/// Where a drain of buffered commits stands.
#[derive(Debug, Clone, Copy, PartialEq, Eq, Structural)]
pub enum DrainPhase {
    /// Between two passes.
    Between,
    /// In a pass over the commits that were waiting when it began.
    Pass,
    /// Over.
    Done,
}

/// A drain of one group's buffered commits. Each pass that gets a commit through
/// is followed by another, up to as many as a group can buffer commits.
#[derive(Debug, PartialEq, Eq)]
pub struct CommitDrain {
    pub group_id: String,
    pub phase: DrainPhase,
    /// Passes that are over.
    pub passes: usize,
    /// What this pass has yet to try, in order.
    pub queue: Vec<PendingCommit>,
    /// What failed again in this pass.
    pub still: Vec<PendingCommit>,
    /// Whether a commit got through in this pass.
    pub any_succeeded: bool,
    /// Whether a commit that was tried before has expired in this drain.
    pub retried_expired: bool,
}

/// The model of a [`CommitDrain`].
#[verifier::ext_equal]
pub struct CommitDrainView {
    pub group: Seq<char>,
    pub phase: DrainPhase,
    pub passes: nat,
    pub queue: Seq<PendingCommitView>,
    pub still: Seq<PendingCommitView>,
    pub any_succeeded: bool,
    pub retried_expired: bool,
}

impl View for CommitDrain {
    type V = CommitDrainView;

    open spec fn view(&self) -> CommitDrainView {
        CommitDrainView {
            group: self.group_id@,
            phase: self.phase,
            passes: self.passes as nat,
            queue: self.queue.deep_view(),
            still: self.still.deep_view(),
            any_succeeded: self.any_succeeded,
            retried_expired: self.retried_expired,
        }
    }
}

impl CommitDrainView {
    /// A drain makes no more passes than a group can buffer commits.
    pub open spec fn wf(self) -> bool {
        &&& self.passes <= MAX_PENDING_COMMITS_PER_GROUP
        &&& self.phase == DrainPhase::Pass ==> self.passes < MAX_PENDING_COMMITS_PER_GROUP
    }
}

/// A buffered commit is past its lifetime.
pub open spec fn commit_expired(entry: PendingCommitView, now: u128) -> bool {
    age(now, entry.buffered_at) > nanos(PENDING_COMMIT_TTL_SECS)
}

/// What a step of a drain leads to.
pub struct CommitStep {
    pub mesh: MeshView,
    pub drain: CommitDrainView,
    pub effects: Seq<EffectView>,
    /// The commit to try next; none once the drain is over.
    pub next: Option<PendingCommitView>,
}

/// The end of a drain: an empty buffer goes, and a commit that expired although
/// it was tried before is looked into as a sign of an epoch fork.
pub open spec fn commit_drain_over(mesh: MeshView, drain: CommitDrainView) -> CommitStep {
    CommitStep {
        mesh: mesh.commits_tidied(drain.group),
        drain: CommitDrainView { phase: DrainPhase::Done, ..drain },
        effects: if drain.retried_expired {
            seq![EffectView::InspectFork { group_id: drain.group }]
        } else {
            Seq::empty()
        },
        next: None,
    }
}

/// Runs a drain up to the next commit to try, or to its end. Expired commits are
/// dropped on the way, each with its replay protection.
pub open spec fn commit_step(mesh: MeshView, drain: CommitDrainView, now: u128) -> CommitStep
    decreases
        MAX_PENDING_COMMITS_PER_GROUP - drain.passes,
        (if drain.phase == DrainPhase::Between {
            1int
        } else {
            0int
        }),
        drain.queue.len(),
    when drain.wf()
{
    match drain.phase {
        DrainPhase::Done => CommitStep { mesh, drain, effects: Seq::empty(), next: None },
        DrainPhase::Between => {
            if drain.passes < MAX_PENDING_COMMITS_PER_GROUP && queue_of(
                mesh.commits,
                drain.group,
            ).len() > 0 {
                commit_step(
                    MeshView {
                        commits: assoc::put(mesh.commits, drain.group, Seq::empty()),
                        ..mesh
                    },
                    CommitDrainView {
                        phase: DrainPhase::Pass,
                        queue: queue_of(mesh.commits, drain.group),
                        still: Seq::empty(),
                        any_succeeded: false,
                        ..drain
                    },
                    now,
                )
            } else {
                commit_drain_over(mesh, drain)
            }
        },
        DrainPhase::Pass => {
            if drain.queue.len() == 0 {
                let back = mesh.commits_returned(drain.group, drain.still);
                let after = CommitDrainView {
                    phase: DrainPhase::Between,
                    passes: drain.passes + 1,
                    still: Seq::empty(),
                    ..drain
                };
                if drain.any_succeeded {
                    commit_step(back, after, now)
                } else {
                    commit_drain_over(back, after)
                }
            } else {
                let entry = drain.queue[0];
                let rest = CommitDrainView { queue: drain.queue.remove(0), ..drain };
                if commit_expired(entry, now) {
                    let later = commit_step(
                        mesh.released(entry.message_id),
                        CommitDrainView {
                            retried_expired: drain.retried_expired || entry.retry_count > 0,
                            ..rest
                        },
                        now,
                    );
                    CommitStep {
                        effects: seq![EffectView::UnmarkSeen { message_id: entry.message_id }]
                            + later.effects,
                        ..later
                    }
                } else {
                    CommitStep { mesh, drain: rest, effects: Seq::empty(), next: Some(entry) }
                }
            }
        },
    }
}

/// The drain after the commit that it handed out was tried.
pub open spec fn commit_tried(
    drain: CommitDrainView,
    entry: PendingCommitView,
    outcome: CommitOutcomeView,
) -> CommitDrainView {
    match outcome {
        CommitOutcomeView::Success(_) => CommitDrainView { any_succeeded: true, ..drain },
        CommitOutcomeView::Retriable(_) => CommitDrainView {
            still: drain.still.push(
                PendingCommitView {
                    retry_count: if entry.retry_count < u32::MAX {
                        (entry.retry_count + 1) as u32
                    } else {
                        entry.retry_count
                    },
                    ..entry
                },
            ),
            ..drain
        },
        CommitOutcomeView::Rejected => drain,
    }
}

impl CommitDrain {
    /// A drain of a group's buffered commits, about to begin.
    pub fn new(group_id: &str) -> (r: Self)
        ensures
            r@ == (CommitDrainView {
                group: group_id@,
                phase: DrainPhase::Between,
                passes: 0,
                queue: Seq::empty(),
                still: Seq::empty(),
                any_succeeded: false,
                retried_expired: false,
            }),
            r@.wf(),
    {
        let r = CommitDrain {
            group_id: group_id.to_owned(),
            phase: DrainPhase::Between,
            passes: 0,
            queue: Vec::new(),
            still: Vec::new(),
            any_succeeded: false,
            retried_expired: false,
        };
        assert(r.queue.deep_view() =~= Seq::empty());
        assert(r.still.deep_view() =~= Seq::empty());
        r
    }

    /// Records what became of the commit that was handed out. One that failed
    /// again is kept for later with its retry counted; one that failed for good
    /// is gone.
    pub fn commit_retried(&mut self, entry: PendingCommit, outcome: &CommitOutcome)
        ensures
            final(self)@ == commit_tried(old(self)@, entry.deep_view(), outcome.deep_view()),
            old(self)@.wf() ==> final(self)@.wf(),
    {
        match outcome {
            CommitOutcome::Success(_) => {
                self.any_succeeded = true;
            },
            CommitOutcome::Retriable(_) => {
                let ghost e = entry.deep_view();
                let ghost before = self.still.deep_view();
                let mut entry = entry;
                if entry.retry_count < u32::MAX {
                    entry.retry_count = entry.retry_count + 1;
                }
                let ghost kept = entry.deep_view();
                self.still.push(entry);
                assert(self.still.deep_view() =~= before.push(kept));
            },
            CommitOutcome::Rejected => {},
        }
    }
}

impl GroupMeshState {
    /// Buffers a commit that failed for now. An oversized one is dropped.
    pub fn buffer_pending_commit(
        &mut self,
        group_id: &str,
        message_id: &str,
        sender: &str,
        data: &str,
        now: u128,
        effects: &mut Effects,
    )
        requires
            old(self)@.wf(),
        ensures
            final(self)@.wf(),
            final(self)@ == old(self)@.commit_buffered(
                group_id@,
                (PendingCommitView {
                    sender: sender@,
                    message_id: message_id@,
                    data: data@,
                    buffered_at: now,
                    retry_count: 0,
                }),
            ),
            final(effects)@ == old(effects)@ + old(self)@.buffering_commit(
                group_id@,
                (PendingCommitView {
                    sender: sender@,
                    message_id: message_id@,
                    data: data@,
                    buffered_at: now,
                    retry_count: 0,
                }),
            ),
    {
        let entry = PendingCommit {
            sender: sender.to_owned(),
            message_id: message_id.to_owned(),
            data: data.to_owned(),
            buffered_at: now,
            retry_count: 0,
        };
        match enqueue(
            &mut self.pending_commits,
            group_id,
            &pending_commit_caps(),
            MAX_PENDING_COMMITS_PER_GROUP,
            entry,
        ) {
            Some(gone) => {
                let mut ids: Vec<String> = Vec::new();
                let mut i: usize = 0;
                assert(ids.deep_view() =~= commit_ids(gone.deep_view().take(0)));
                while i < gone.len()
                    invariant
                        i <= gone@.len(),
                        ids.deep_view() == commit_ids(gone.deep_view().take(i as int)),
                    decreases gone@.len() - i,
                {
                    let ghost before = ids.deep_view();
                    ids.push(gone[i].message_id.clone());
                    proof {
                        assert(ids.deep_view() =~= before.push(gone[i as int].message_id@));
                        assert(ids.deep_view() =~= commit_ids(gone.deep_view().take(i + 1)));
                    }
                    i = i + 1;
                }
                assert(gone.deep_view().take(i as int) =~= gone.deep_view());
                self.release_all(&ids, effects);
            },
            None => {
                assert(effects@ =~= old(effects)@ + Seq::<EffectView>::empty());
            },
        }
    }

    /// Puts commits back at the end of their group's buffer.
    fn return_commits(&mut self, group_id: &str, still: Vec<PendingCommit>)
        requires
            old(self)@.wf(),
        ensures
            final(self)@.wf(),
            final(self)@ == old(self)@.commits_returned(group_id@, still.deep_view()),
    {
        assert(still.deep_view().len() == still@.len());
        if still.len() == 0 {
            return;
        }
        let ghost before = self.pending_commits@;
        let ghost more = still.deep_view();
        proof {
            assoc::lemma_put(before, group_id@, queue_of(before, group_id@) + more);
        }
        match self.pending_commits.find(group_id) {
            Some(i) => {
                let mut still = still;
                let queue = self.pending_commits.value_at_mut(i);
                let ghost whole = queue.deep_view();
                queue.append(&mut still);
                assert(queue.deep_view() =~= whole + more);
                assert(self.pending_commits@ =~= assoc::put(before, group_id@, whole + more));
            },
            None => {
                assert(Seq::<PendingCommitView>::empty() + more =~= more);
                let _ = self.pending_commits.insert(group_id.to_owned(), still);
            },
        }
    }

    /// Takes a group's buffered commits out; the buffer stays, empty.
    fn take_commits(&mut self, group_id: &str) -> (r: Vec<PendingCommit>)
        requires
            old(self)@.wf(),
        ensures
            final(self)@.wf(),
            r.deep_view() == queue_of(old(self)@.commits, group_id@),
            r@.len() == r.deep_view().len(),
            queue_of(old(self)@.commits, group_id@).len() > 0 ==> final(self)@ == (MeshView {
                commits: assoc::put(old(self)@.commits, group_id@, Seq::empty()),
                ..old(self)@
            }),
            queue_of(old(self)@.commits, group_id@).len() == 0 ==> final(self)@ == old(self)@,
    {
        let ghost before = self.pending_commits@;
        let mut taken: Vec<PendingCommit> = Vec::new();
        match self.pending_commits.find(group_id) {
            Some(i) => {
                proof {
                    assoc::lemma_put(before, group_id@, Seq::<PendingCommitView>::empty());
                }
                let queue = self.pending_commits.value_at_mut(i);
                std::mem::swap(&mut taken, queue);
                assert(queue.deep_view() =~= Seq::empty());
                assert(self.pending_commits@ =~= assoc::put(before, group_id@, Seq::empty()));
                if taken.len() == 0 {
                    assert(taken.deep_view() =~= Seq::empty());
                    assert(self.pending_commits@ =~= before);
                }
            },
            None => {
                assert(taken.deep_view() =~= Seq::empty());
            },
        }
        assert(taken.deep_view().len() == taken@.len());
        taken
    }

    /// Removes a group's empty buffer.
    fn tidy_commits(&mut self, group_id: &str)
        requires
            old(self)@.wf(),
        ensures
            final(self)@.wf(),
            final(self)@ == old(self)@.commits_tidied(group_id@),
    {
        let empty: bool = match self.pending_commits.get(group_id) {
            Some(queue) => {
                assert(queue.deep_view().len() == queue@.len());
                queue.len() == 0
            },
            None => true,
        };
        if empty {
            let _ = self.pending_commits.remove(group_id);
        }
    }

    /// Runs a drain of buffered commits up to the next commit to try, which is
    /// handed out, or to its end.
    pub fn drain_pending_commits(
        &mut self,
        drain: &mut CommitDrain,
        now: u128,
        effects: &mut Effects,
    ) -> (r: Option<PendingCommit>)
        requires
            old(self)@.wf(),
            old(drain)@.wf(),
        ensures
            final(self)@.wf(),
            final(drain)@.wf(),
            ({
                let step = commit_step(old(self)@, old(drain)@, now);
                &&& final(self)@ == step.mesh
                &&& final(drain)@ == step.drain
                &&& final(effects)@ == old(effects)@ + step.effects
                &&& r.deep_view() == step.next
            }),
    {
        let ghost goal = commit_step(self@, drain@, now);
        assert(effects@ + goal.effects =~= old(effects)@ + goal.effects);
        loop
            invariant
                self@.wf(),
                drain@.wf(),
                goal.mesh == commit_step(self@, drain@, now).mesh,
                goal.drain == commit_step(self@, drain@, now).drain,
                goal.next == commit_step(self@, drain@, now).next,
                old(effects)@ + goal.effects == effects@ + commit_step(
                    self@,
                    drain@,
                    now,
                ).effects,
                goal == commit_step(old(self)@, old(drain)@, now),
            decreases
                MAX_PENDING_COMMITS_PER_GROUP - drain.passes,
                (if drain.phase == DrainPhase::Between {
                    1int
                } else {
                    0int
                }),
                drain.queue@.len(),
        {
            match drain.phase {
                DrainPhase::Done => {
                    assert(effects@ + Seq::<EffectView>::empty() =~= effects@);
                    return None;
                },
                DrainPhase::Between => {
                    let ghost m = self@;
                    let taken = if drain.passes < MAX_PENDING_COMMITS_PER_GROUP {
                        self.take_commits(drain.group_id.as_str())
                    } else {
                        Vec::new()
                    };
                    if taken.len() > 0 {
                        drain.phase = DrainPhase::Pass;
                        drain.queue = taken;
                        drain.still = Vec::new();
                        drain.any_succeeded = false;
                        assert(drain.still.deep_view() =~= Seq::empty());
                    } else {
                        self.tidy_commits(drain.group_id.as_str());
                        if drain.retried_expired {
                            effects.push(
                                Effect::InspectFork { group_id: drain.group_id.clone() },
                            );
                        }
                        drain.phase = DrainPhase::Done;
                        assert(old(effects)@ + goal.effects =~= effects@);
                        return None;
                    }
                },
                DrainPhase::Pass => {
                    assert(drain.queue.deep_view().len() == drain.queue@.len());
                    if drain.queue.len() == 0 {
                        let mut still: Vec<PendingCommit> = Vec::new();
                        std::mem::swap(&mut still, &mut drain.still);
                        assert(drain.still.deep_view() =~= Seq::empty());
                        self.return_commits(drain.group_id.as_str(), still);
                        drain.passes = drain.passes + 1;
                        if drain.any_succeeded {
                            drain.phase = DrainPhase::Between;
                        } else {
                            self.tidy_commits(drain.group_id.as_str());
                            if drain.retried_expired {
                                effects.push(
                                    Effect::InspectFork { group_id: drain.group_id.clone() },
                                );
                            }
                            drain.phase = DrainPhase::Done;
                            assert(old(effects)@ + goal.effects =~= effects@);
                            return None;
                        }
                    } else {
                        let ghost out = effects@;
                        let ghost q = drain.queue.deep_view();
                        let entry = drain.queue.remove(0);
                        assert(entry.deep_view() == q[0]);
                        assert(drain.queue.deep_view() =~= q.remove(0));
                        if age_of(now, entry.buffered_at) > nanos_of(PENDING_COMMIT_TTL_SECS) {
                            if entry.retry_count > 0 {
                                drain.retried_expired = true;
                            }
                            self.release_replay_protection(entry.message_id.as_str(), effects);
                            proof {
                                let later = commit_step(self@, drain@, now);
                                assert(out + (seq![
                                    EffectView::UnmarkSeen { message_id: q[0].message_id },
                                ] + later.effects) =~= effects@ + later.effects);
                            }
                        } else {
                            assert(effects@ + Seq::<EffectView>::empty() =~= effects@);
                            return Some(entry);
                        }
                    }
                },
            }
        }
    }
}

} // verus!

//! Decisions that one member takes for all: resolving an epoch fork, and
//! removing a member who left. Every node computes the same order of members, so
//! all agree on who acts.

use vstd::prelude::*;

use crate::assoc;
use crate::base64_codec::{base64_encode, encodable};
use crate::error::{told, Error, ErrorView};
use crate::group_mesh::commits::{carries, elections_without};
use crate::group_mesh::dated::{age, age_of, keep_if, keep_younger, younger};
use crate::group_mesh::effect::{Effect, EffectView, Effects, Notice, NoticeView};
use crate::group_mesh::forks::held;
use crate::group_mesh::limits::{
    nanos, nanos_of, EPOCH_FORK_RESOLUTION_DELAY_SECS, EPOCH_FORK_STALE_SECS,
    LEAVE_ELECTION_ATTEMPT_COOLDOWN_SECS, LEAVE_ELECTION_MAX_LIFETIME_SECS,
    LEAVE_ELECTION_TIMEOUT_SECS,
};
use crate::group_mesh::membership::{commit_frame, failed_recipients, unsent};
use crate::group_mesh::state::{MeshView, OfflineProtocol};
use crate::group_mesh::types::{
    EpochForkState, EpochForkStateView, GroupCommitType, GroupInfo, GroupInfoView,
    GroupMlsCommitPayload, PendingLeaveElection, PendingLeaveElectionView,
};
use crate::rosters::{in_order, lemma_sorted_exists, lists, others, without};
use crate::text;
use crate::text::str_eq;

verus! {

/// The first of the members in text order.
pub open spec fn leads(me: Seq<char>, members: Seq<Seq<char>>) -> bool {
    members.len() > 0 && text::sorted(members)[0] == me
}

/// A fork is ready to be resolved: nobody tried, and the delay has passed.
pub open spec fn fork_ready(fork: EpochForkStateView, now: u128) -> bool {
    !fork.resolution_attempted && age(now, fork.detected_at) > nanos(
        EPOCH_FORK_RESOLUTION_DELAY_SECS,
    )
}

/// The forks to look at.
pub open spec fn ready_forks(forks: Seq<(Seq<char>, EpochForkStateView)>, now: u128) -> Seq<
    EffectView,
>
    decreases forks.len(),
{
    if forks.len() == 0 {
        Seq::empty()
    } else {
        let rest = ready_forks(forks.drop_last(), now);
        if fork_ready(forks.last().1, now) {
            rest.push(
                EffectView::ResolveFork {
                    group_id: forks.last().0,
                    local_epoch: forks.last().1.local_epoch,
                },
            )
        } else {
            rest
        }
    }
}

/// The group has moved on since the fork was suspected: a delayed commit, not a
/// fork.
pub open spec fn moved_on(
    local_epoch: Option<u64>,
    info: Result<Option<GroupInfoView>, ErrorView>,
) -> bool {
    match (local_epoch, held(info)) {
        (Some(then), Some(i)) => i.epoch > then,
        _ => false,
    }
}

impl MeshView {
    /// The state with a fork's attempt noted, where the fork is tracked.
    pub open spec fn fork_attempted(self, group: Seq<char>, attempted: bool) -> MeshView {
        match assoc::lookup(self.forks, group) {
            Some(fork) => MeshView {
                forks: assoc::put(
                    self.forks,
                    group,
                    EpochForkStateView { resolution_attempted: attempted, ..fork },
                ),
                ..self
            },
            None => self,
        }
    }

    /// The state after a ready fork was looked at.
    pub open spec fn fork_reviewed(
        self,
        group: Seq<char>,
        local_epoch: Option<u64>,
        info: Result<Option<GroupInfoView>, ErrorView>,
    ) -> MeshView {
        if moved_on(local_epoch, info) {
            MeshView { forks: assoc::del(self.forks, group), ..self }
        } else {
            self.refreshed(group, info).fork_attempted(group, true)
        }
    }
}

/// What goes out to resolve a fork.
#[derive(Debug, PartialEq, Eq)]
pub struct ForkCommit {
    pub commit: GroupMlsCommitPayload,
    /// Who gets it: every other member.
    pub recipients: Vec<String>,
}

impl OfflineProtocol {
    /// Picks the forks to resolve, and forgets those that are too old. A fork that
    /// is picked is resolved even where it is forgotten.
    pub fn check_epoch_forks(&mut self, now: u128, effects: &mut Effects)
        requires
            old(self).group_mesh@.wf(),
        ensures
            final(self).group_mesh@.wf(),
            final(self).same_node(old(self)),
            final(self).group_mesh@ == (MeshView {
                forks: younger::<EpochForkState>(
                    old(self).group_mesh@.forks,
                    now,
                    nanos(EPOCH_FORK_STALE_SECS),
                ),
                ..old(self).group_mesh@
            }),
            final(effects)@ == old(effects)@ + ready_forks(old(self).group_mesh@.forks, now),
    {
        let ghost all = self.group_mesh@.forks;
        let mut i: usize = 0;
        assert(all.take(0) =~= Seq::empty());
        assert(effects@ =~= old(effects)@ + ready_forks(all.take(0), now));
        while i < self.group_mesh.epoch_forks.len()
            invariant
                i <= all.len(),
                all == self.group_mesh@.forks,
                effects@ == old(effects)@ + ready_forks(all.take(i as int), now),
            decreases all.len() - i,
        {
            proof {
                assert(all.take(i + 1).drop_last() =~= all.take(i as int));
                assert(all.take(i + 1).last() == all[i as int]);
            }
            let fork = self.group_mesh.epoch_forks.value_at(i);
            if !fork.resolution_attempted && age_of(now, fork.detected_at) > nanos_of(
                EPOCH_FORK_RESOLUTION_DELAY_SECS,
            ) {
                effects.push(
                    Effect::ResolveFork {
                        group_id: self.group_mesh.epoch_forks.key_at(i).clone(),
                        local_epoch: fork.local_epoch,
                    },
                );
                assert(effects@ =~= old(effects)@ + ready_forks(all.take(i + 1), now));
            }
            i = i + 1;
        }
        assert(all.take(i as int) =~= all);
        keep_younger(&mut self.group_mesh.epoch_forks, now, nanos_of(EPOCH_FORK_STALE_SECS));
    }

    /// Looks at a ready fork, and hands out the members where this node is to
    /// issue a key update. One that has moved on is cancelled. All members mark
    /// the fork as attempted; only the first in text order acts.
    pub fn resolve_fork(
        &mut self,
        group_id: &str,
        local_epoch: Option<u64>,
        info: &Result<Option<GroupInfo>, Error>,
    ) -> (r: Option<Vec<String>>)
        requires
            old(self).group_mesh@.wf(),
        ensures
            final(self).group_mesh@.wf(),
            final(self).same_node(old(self)),
            final(self).group_mesh@ == old(self).group_mesh@.fork_reviewed(
                group_id@,
                local_epoch,
                told(*info),
            ),
            r.deep_view() == ({
                let members = old(self).group_mesh@.known_members(group_id@, told(*info));
                if !moved_on(local_epoch, told(*info)) && leads(old(self).local_id@, members) {
                    Some(members)
                } else {
                    None
                }
            }),
    {
        if let (Some(then), Ok(Some(i))) = (local_epoch, info) {
            if i.epoch > then {
                let _ = self.group_mesh.epoch_forks.remove(group_id);
                return None;
            }
        }
        let members = match self.group_mesh.current_members(group_id, info) {
            Some(members) => members,
            None => Vec::new(),
        };
        assert(members.deep_view() =~= old(self).group_mesh@.known_members(
            group_id@,
            told(*info),
        ));
        self.mark_fork(group_id, true);
        let sorted = in_order(&members);
        proof {
            lemma_sorted_exists(members.deep_view());
            assert(members.deep_view().len() == members@.len());
            assert(sorted.deep_view().len() == sorted@.len());
        }
        if sorted.len() > 0 {
            assert(sorted.deep_view()[0] == sorted@[0]@);
            if str_eq(sorted[0].as_str(), self.local_id.as_str()) {
                return Some(members);
            }
        }
        None
    }

    /// Notes whether a fork was attempted, where it is tracked.
    fn mark_fork(&mut self, group_id: &str, attempted: bool)
        requires
            old(self).group_mesh@.wf(),
        ensures
            final(self).group_mesh@.wf(),
            final(self).same_node(old(self)),
            final(self).group_mesh@ == old(self).group_mesh@.fork_attempted(group_id@, attempted),
    {
        let found: Option<EpochForkState> = match self.group_mesh.epoch_forks.get(group_id) {
            Some(fork) => Some(
                EpochForkState {
                    local_epoch: fork.local_epoch,
                    detected_at: fork.detected_at,
                    resolution_attempted: attempted,
                },
            ),
            None => None,
        };
        if let Some(fork) = found {
            let _ = self.group_mesh.epoch_forks.insert(group_id.to_owned(), fork);
        }
    }

    /// Puts a fork back where MLS could not be asked for the key update.
    pub fn fork_resolution_postponed(&mut self, group_id: &str)
        requires
            old(self).group_mesh@.wf(),
        ensures
            final(self).group_mesh@.wf(),
            final(self).same_node(old(self)),
            final(self).group_mesh@ == old(self).group_mesh@.fork_attempted(group_id@, false),
    {
        self.mark_fork(group_id, false);
    }

    /// The key update that resolves a fork, and who gets it.
    pub fn fork_commit(
        &self,
        group_id: &str,
        members: &Vec<String>,
        ciphertext: &Vec<u8>,
        epoch: u64,
    ) -> (r: ForkCommit)
        requires
            encodable(ciphertext@),
        ensures
            r.commit.deep_view() == commit_frame(
                group_id@,
                GroupCommitType::KeyUpdate,
                ciphertext@,
                epoch,
                None,
                None,
                None,
            ),
            carries(r.commit.ciphertext@, ciphertext@),
            r.recipients.deep_view() == without(members.deep_view(), self.local_id@),
    {
        ForkCommit {
            commit: GroupMlsCommitPayload {
                group_id: group_id.to_owned(),
                commit_type: GroupCommitType::KeyUpdate,
                ciphertext: base64_encode(ciphertext.as_slice()),
                epoch,
                affected_member: None,
                role: None,
                affected_member_rich: None,
            },
            recipients: others(members, self.local_id.as_str()),
        }
    }

    /// Ends the resolution of a fork whose key update is out.
    pub fn fork_resolved(
        &mut self,
        group_id: &str,
        epoch: u64,
        recipients: &Vec<String>,
        sent: &Vec<bool>,
        effects: &mut Effects,
    )
        requires
            old(self).group_mesh@.wf(),
        ensures
            final(self).group_mesh@.wf(),
            final(self).same_node(old(self)),
            final(self).group_mesh@ == (MeshView {
                forks: assoc::del(old(self).group_mesh@.forks, group_id@),
                ..old(self).group_mesh@
            }),
            final(effects)@ == old(effects)@.push(
                EffectView::Notify(
                    NoticeView::EpochForkResolved {
                        group_id: group_id@,
                        resolved_epoch: epoch,
                        failed_members: unsent(recipients.deep_view(), sent@),
                    },
                ),
            ),
    {
        effects.notify(
            Notice::EpochForkResolved {
                group_id: group_id.to_owned(),
                resolved_epoch: epoch,
                failed_members: failed_recipients(recipients, sent),
            },
        );
        let _ = self.group_mesh.epoch_forks.remove(group_id);
    }
}

/// An election has outlived its time.
pub open spec fn election_abandoned(election: PendingLeaveElectionView, now: u128) -> bool {
    age(now, election.received_at) > nanos(LEAVE_ELECTION_MAX_LIFETIME_SECS)
}

/// An election has timed out, and is not yet to be abandoned.
pub open spec fn election_due(election: PendingLeaveElectionView, now: u128) -> bool {
    age(now, election.received_at) > nanos(LEAVE_ELECTION_TIMEOUT_SECS) && !election_abandoned(
        election,
        now,
    )
}

/// The elections to look at.
pub open spec fn due_elections(elections: Seq<PendingLeaveElectionView>, now: u128) -> Seq<
    EffectView,
>
    decreases elections.len(),
{
    if elections.len() == 0 {
        Seq::empty()
    } else {
        let rest = due_elections(elections.drop_last(), now);
        if election_due(elections.last(), now) {
            rest.push(
                EffectView::ReviewElection {
                    group_id: elections.last().group_id,
                    user_id: elections.last().leaving_member,
                },
            )
        } else {
            rest
        }
    }
}

/// The election over a member's leave.
pub open spec fn election_over(
    elections: Seq<PendingLeaveElectionView>,
    group: Seq<char>,
    leaver: Seq<char>,
) -> Option<PendingLeaveElectionView>
    decreases elections.len(),
{
    if elections.len() == 0 {
        None
    } else if elections[0].group_id == group && elections[0].leaving_member == leaver {
        Some(elections[0])
    } else {
        election_over(elections.drop_first(), group, leaver)
    }
}

/// Whose turn it is to remove a leaving member: with every timeout the next of
/// the remaining members, in text order, up to the last.
pub open spec fn candidate(
    members: Seq<Seq<char>>,
    leaver: Seq<char>,
    received_at: u128,
    now: u128,
) -> Option<Seq<char>> {
    let remaining = text::sorted(without(members, leaver));
    let turn = age(now, received_at) / (nanos(LEAVE_ELECTION_TIMEOUT_SECS) as int);
    if remaining.len() == 0 {
        None
    } else if turn < remaining.len() {
        Some(remaining[turn])
    } else {
        Some(remaining.last())
    }
}

/// This node tried too recently to try again.
pub open spec fn cooling(election: PendingLeaveElectionView, now: u128) -> bool {
    match election.last_attempt_at {
        Some(last) => age(now, last) < nanos(LEAVE_ELECTION_ATTEMPT_COOLDOWN_SECS),
        None => false,
    }
}

/// This node is to remove the leaving member now.
pub open spec fn takes_over(
    me: Seq<char>,
    members: Seq<Seq<char>>,
    election: PendingLeaveElectionView,
    now: u128,
) -> bool {
    members.contains(election.leaving_member) && candidate(
        members,
        election.leaving_member,
        election.received_at,
        now,
    ) == Some(me) && !cooling(election, now)
}

/// The elections with an attempt noted.
pub open spec fn attempt_noted(
    elections: Seq<PendingLeaveElectionView>,
    group: Seq<char>,
    leaver: Seq<char>,
    now: u128,
) -> Seq<PendingLeaveElectionView> {
    elections.map_values(
        |e: PendingLeaveElectionView|
            if e.group_id == group && e.leaving_member == leaver {
                PendingLeaveElectionView { last_attempt_at: Some(now), ..e }
            } else {
                e
            },
    )
}

impl MeshView {
    /// The state after an election was looked at.
    pub open spec fn election_reviewed(
        self,
        me: Seq<char>,
        group: Seq<char>,
        leaver: Seq<char>,
        info: Result<Option<GroupInfoView>, ErrorView>,
        now: u128,
    ) -> MeshView {
        match election_over(self.elections, group, leaver) {
            None => self,
            Some(election) => {
                let fresh = self.refreshed(group, info);
                let members = self.known_members(group, info);
                if !members.contains(leaver) {
                    MeshView {
                        elections: elections_without(fresh.elections, group, leaver),
                        ..fresh
                    }
                } else if takes_over(me, members, election, now) {
                    MeshView {
                        elections: attempt_noted(fresh.elections, group, leaver, now),
                        ..fresh
                    }
                } else {
                    fresh
                }
            },
        }
    }
}

impl OfflineProtocol {
    /// Picks the elections that have timed out, and abandons those that have
    /// outlived their time.
    pub fn check_leave_election_timeouts(&mut self, now: u128, effects: &mut Effects)
        requires
            old(self).group_mesh@.wf(),
        ensures
            final(self).group_mesh@.wf(),
            final(self).same_node(old(self)),
            final(self).group_mesh@ == (MeshView {
                elections: old(self).group_mesh@.elections.filter(
                    |e: PendingLeaveElectionView| !election_abandoned(e, now),
                ),
                ..old(self).group_mesh@
            }),
            final(effects)@ == old(effects)@ + due_elections(
                old(self).group_mesh@.elections,
                now,
            ),
    {
        let ghost all = self.group_mesh@.elections;
        let mut i: usize = 0;
        assert(all.take(0) =~= Seq::empty());
        assert(effects@ =~= old(effects)@ + due_elections(all.take(0), now));
        while i < self.group_mesh.pending_leave_elections.len()
            invariant
                i <= all.len(),
                all == self.group_mesh.pending_leave_elections.deep_view(),
                effects@ == old(effects)@ + due_elections(all.take(i as int), now),
            decreases all.len() - i,
        {
            let election = &self.group_mesh.pending_leave_elections[i];
            proof {
                assert(all.take(i + 1).drop_last() =~= all.take(i as int));
                assert(all.take(i + 1).last() == election.deep_view());
            }
            let old_by = age_of(now, election.received_at);
            if old_by > nanos_of(LEAVE_ELECTION_TIMEOUT_SECS) && !(old_by > nanos_of(
                LEAVE_ELECTION_MAX_LIFETIME_SECS,
            )) {
                effects.push(
                    Effect::ReviewElection {
                        group_id: election.group_id.clone(),
                        user_id: election.leaving_member.clone(),
                    },
                );
                assert(effects@ =~= old(effects)@ + due_elections(all.take(i + 1), now));
            }
            i = i + 1;
        }
        assert(all.take(i as int) =~= all);
        let test = |e: &PendingLeaveElection| -> (keep: bool)
            ensures
                keep == !election_abandoned(e.deep_view(), now),
            {
                !(age_of(now, e.received_at) > nanos_of(LEAVE_ELECTION_MAX_LIFETIME_SECS))
            };
        keep_if(
            &mut self.group_mesh.pending_leave_elections,
            test,
            Ghost(|e: PendingLeaveElectionView| !election_abandoned(e, now)),
        );
    }

    /// The time of an election and of its last attempt.
    fn find_election(&self, group_id: &str, member: &str) -> (r: Option<(u128, Option<u128>)>)
        ensures
            match (r, election_over(self.group_mesh@.elections, group_id@, member@)) {
                (Some(times), Some(e)) => times == (e.received_at, e.last_attempt_at)
                    && e.group_id == group_id@ && e.leaving_member == member@,
                (None, None) => true,
                _ => false,
            },
    {
        let ghost all = self.group_mesh@.elections;
        let mut i: usize = 0;
        assert(all.skip(0) =~= all);
        while i < self.group_mesh.pending_leave_elections.len()
            invariant
                i <= all.len(),
                all == self.group_mesh.pending_leave_elections.deep_view(),
                election_over(all, group_id@, member@) == election_over(
                    all.skip(i as int),
                    group_id@,
                    member@,
                ),
            decreases all.len() - i,
        {
            let election = &self.group_mesh.pending_leave_elections[i];
            assert(all.skip(i as int)[0] == election.deep_view());
            if str_eq(election.group_id.as_str(), group_id) && str_eq(
                election.leaving_member.as_str(),
                member,
            ) {
                return Some((election.received_at, election.last_attempt_at));
            }
            assert(all.skip(i as int).drop_first() =~= all.skip(i + 1));
            i = i + 1;
        }
        None
    }

    /// Notes an attempt at an election.
    fn note_attempt(&mut self, group_id: &str, member: &str, now: u128)
        requires
            old(self).group_mesh@.wf(),
        ensures
            final(self).group_mesh@.wf(),
            final(self).same_node(old(self)),
            final(self).group_mesh@ == (MeshView {
                elections: attempt_noted(
                    old(self).group_mesh@.elections,
                    group_id@,
                    member@,
                    now,
                ),
                ..old(self).group_mesh@
            }),
    {
        let ghost all = self.group_mesh@.elections;
        let ghost noted = attempt_noted(all, group_id@, member@, now);
        let mut i: usize = 0;
        assert(noted.take(0) + all.skip(0) =~= all);
        while i < self.group_mesh.pending_leave_elections.len()
            invariant
                i <= all.len(),
                noted == attempt_noted(all, group_id@, member@, now),
                self.same_node(old(self)),
                self.group_mesh@ == (MeshView {
                    elections: self.group_mesh@.elections,
                    ..old(self).group_mesh@
                }),
                self.group_mesh.pending_leave_elections.deep_view() == noted.take(i as int)
                    + all.skip(i as int),
            decreases all.len() - i,
        {
            let ghost before = self.group_mesh.pending_leave_elections.deep_view();
            assert(before[i as int] == all[i as int]);
            let mine: bool = {
                let election = &self.group_mesh.pending_leave_elections[i];
                str_eq(election.group_id.as_str(), group_id) && str_eq(
                    election.leaving_member.as_str(),
                    member,
                )
            };
            if mine {
                let election = &mut self.group_mesh.pending_leave_elections[i];
                election.last_attempt_at = Some(now);
                assert(self.group_mesh.pending_leave_elections.deep_view() =~= before.update(
                    i as int,
                    noted[i as int],
                ));
            }
            assert(self.group_mesh.pending_leave_elections.deep_view() =~= noted.take(i + 1)
                + all.skip(i + 1));
            i = i + 1;
        }
        assert(self.group_mesh.pending_leave_elections.deep_view() =~= noted);
    }

    /// Looks at an election that has timed out, and says whether this node is to
    /// remove the leaving member now. The attempt is noted first, so that the
    /// cooldown holds even where the removal fails.
    pub fn review_election(
        &mut self,
        group_id: &str,
        leaving_member: &str,
        info: &Result<Option<GroupInfo>, Error>,
        now: u128,
    ) -> (remove: bool)
        requires
            old(self).group_mesh@.wf(),
        ensures
            final(self).group_mesh@.wf(),
            final(self).same_node(old(self)),
            final(self).group_mesh@ == old(self).group_mesh@.election_reviewed(
                old(self).local_id@,
                group_id@,
                leaving_member@,
                told(*info),
                now,
            ),
            remove == (election_over(
                old(self).group_mesh@.elections,
                group_id@,
                leaving_member@,
            ) matches Some(election) && takes_over(
                old(self).local_id@,
                old(self).group_mesh@.known_members(group_id@, told(*info)),
                election,
                now,
            )),
    {
        let (received_at, last_attempt_at) = match self.find_election(group_id, leaving_member) {
            Some(times) => times,
            None => return false,
        };
        let ghost election = election_over(
            self.group_mesh@.elections,
            group_id@,
            leaving_member@,
        )->0;
        let members = match self.group_mesh.current_members(group_id, info) {
            Some(members) => members,
            None => Vec::new(),
        };
        assert(members.deep_view() =~= old(self).group_mesh@.known_members(
            group_id@,
            told(*info),
        ));
        if !lists(&members, leaving_member) {
            self.group_mesh.drop_election(group_id, leaving_member);
            return false;
        }
        let remaining = in_order(&others(&members, leaving_member));
        assert(remaining.deep_view().len() == remaining@.len());
        if remaining.len() == 0 {
            return false;
        }
        let turn: u128 = age_of(now, received_at) / nanos_of(LEAVE_ELECTION_TIMEOUT_SECS);
        let last: usize = remaining.len() - 1;
        let index: usize = if turn < last as u128 {
            turn as usize
        } else {
            last
        };
        assert(remaining.deep_view()[index as int] == remaining@[index as int]@);
        assert(candidate(members.deep_view(), leaving_member@, received_at, now) == Some(
            remaining@[index as int]@,
        ));
        if !str_eq(remaining[index].as_str(), self.local_id.as_str()) {
            return false;
        }
        if let Some(at) = last_attempt_at {
            if age_of(now, at) < nanos_of(LEAVE_ELECTION_ATTEMPT_COOLDOWN_SECS) {
                return false;
            }
        }
        self.note_attempt(group_id, leaving_member, now);
        true
    }

    /// Settles an election whose member this node has removed.
    pub fn election_settled(&mut self, group_id: &str, leaving_member: &str)
        requires
            old(self).group_mesh@.wf(),
        ensures
            final(self).group_mesh@.wf(),
            final(self).same_node(old(self)),
            final(self).group_mesh@ == (MeshView {
                elections: elections_without(
                    old(self).group_mesh@.elections,
                    group_id@,
                    leaving_member@,
                ),
                ..old(self).group_mesh@
            }),
    {
        self.group_mesh.drop_election(group_id, leaving_member);
    }
}

} // verus!

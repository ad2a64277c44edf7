//! Commits: judging what they change, and applying or refusing them.

use vstd::prelude::*;

use crate::assoc;
use crate::base64_codec::{base64_bytes, standard_decode};
use crate::error::{told, Error, ErrorView, MlsError};
use crate::events::copy_texts;
use crate::group_mesh::dated::keep_if;
use crate::group_mesh::effect::{
    ChangeReason, Effect, EffectView, Effects, Notice, NoticeView, SyncReason,
};
use crate::group_mesh::forks::held;
use crate::group_mesh::limits::MAX_BASE64_PAYLOAD_SIZE;
use crate::group_mesh::state::{GroupMeshState, MeshView, OfflineProtocol};
use crate::group_mesh::types::{
    GroupCommitType, GroupInfo, GroupInfoView, GroupMlsCommitPayload, GroupMlsCommitPayloadView,
    PendingLeaveElection, PendingLeaveElectionView,
};
use crate::rosters::{difference, differing, lists};
use crate::text::str_eq;

verus! {

/// The bytes of an incoming base64 payload; none where it is over the size cap
/// or is not base64.
pub open spec fn payload_bytes(text: Seq<char>) -> Option<Seq<u8>> {
    if vstd::utf8::encode_utf8(text).len() > MAX_BASE64_PAYLOAD_SIZE {
        None
    } else {
        base64_bytes(text)
    }
}

/// Whoever receives `text` reads `bytes` out of it, unless they are more than a
/// receiver takes.
pub open spec fn carries(text: Seq<char>, bytes: Seq<u8>) -> bool {
    payload_bytes(text) == if (bytes.len() + 2) / 3 * 4 <= MAX_BASE64_PAYLOAD_SIZE {
        Some(bytes)
    } else {
        None
    }
}

/// Decodes an incoming base64 payload.
pub fn base64_decode(text: &str) -> (r: Option<Vec<u8>>)
    ensures
        match r {
            Some(bytes) => payload_bytes(text@) == Some(bytes@),
            None => payload_bytes(text@) is None,
        },
{
    if text.as_bytes().len() > MAX_BASE64_PAYLOAD_SIZE {
        return None;
    }
    standard_decode(text)
}

/// A copy of a list of bytes.
pub fn copy_bytes(bytes: &Vec<u8>) -> (r: Vec<u8>)
    ensures
        r@ == bytes@,
        r.deep_view() == bytes.deep_view(),
{
    let mut r: Vec<u8> = Vec::new();
    let mut i: usize = 0;
    while i < bytes.len()
        invariant
            i <= bytes@.len(),
            r@ == bytes@.take(i as int),
        decreases bytes@.len() - i,
    {
        r.push(bytes[i]);
        assert(r@ =~= bytes@.take(i + 1));
        i = i + 1;
    }
    assert(r@ =~= bytes@);
    assert(r.deep_view() =~= bytes.deep_view());
    r
}

/// What became of a commit.
#[derive(Debug, PartialEq, Eq)]
pub enum CommitOutcome {
    /// Processed, for this group.
    Success(String),
    /// Failed for now: it may succeed after an earlier commit advances the group.
    Retriable(String),
    /// Failed for good.
    Rejected,
}

/// What a [`CommitOutcome`] says.
pub enum CommitOutcomeView {
    Success(Seq<char>),
    Retriable(Seq<char>),
    Rejected,
}

impl DeepView for CommitOutcome {
    type V = CommitOutcomeView;

    open spec fn deep_view(&self) -> CommitOutcomeView {
        match self {
            CommitOutcome::Success(g) => CommitOutcomeView::Success(g@),
            CommitOutcome::Retriable(g) => CommitOutcomeView::Retriable(g@),
            CommitOutcome::Rejected => CommitOutcomeView::Rejected,
        }
    }
}

/// A commit can be handed to MLS: it parsed, and its ciphertext is non-empty
/// base64 within the size cap.
pub open spec fn commit_bytes(payload: Option<GroupMlsCommitPayloadView>) -> Option<Seq<u8>> {
    match payload {
        Some(p) => if p.ciphertext.len() == 0 {
            None
        } else {
            payload_bytes(p.ciphertext)
        },
        None => None,
    }
}

/// The ciphertext of a commit for MLS to process; `None` where the commit is to
/// be rejected.
pub fn open_commit(payload: &Option<GroupMlsCommitPayload>) -> (r: Option<Vec<u8>>)
    ensures
        match r {
            Some(bytes) => commit_bytes(payload.deep_view()) == Some(bytes@),
            None => commit_bytes(payload.deep_view()) is None,
        },
{
    match payload {
        Some(p) => {
            if p.ciphertext.as_str().as_bytes().len() == 0 {
                proof {
                    vstd::utf8::encode_utf8_decode_utf8(p.ciphertext@);
                    vstd::utf8::encode_utf8_decode_utf8(Seq::<char>::empty());
                    assert(vstd::utf8::encode_utf8(Seq::<char>::empty()) =~= Seq::empty());
                    assert(vstd::utf8::encode_utf8(p.ciphertext@) =~= Seq::empty());
                }
                None
            } else {
                proof {
                    if p.ciphertext@.len() == 0 {
                        assert(p.ciphertext@ =~= Seq::empty());
                        assert(vstd::utf8::encode_utf8(Seq::<char>::empty()) =~= Seq::empty());
                    }
                }
                base64_decode(p.ciphertext.as_str())
            }
        },
        None => None,
    }
}

/// The commit claims to remove this node.
pub open spec fn removes(payload: GroupMlsCommitPayloadView, me: Seq<char>) -> bool {
    payload.commit_type == GroupCommitType::Remove && payload.affected_member == Some(me)
}

/// An MLS failure that no later commit can mend. A leaf whose key does not prove
/// its identity never starts to.
pub open spec fn is_permanent(error: MlsError) -> bool {
    error is Deserialization || error is InvalidMessage || error is Storage
        || error is SenderIdentityMismatch || error is LeafAddressMismatch
}

/// Lists of names as their texts.
pub open spec fn names(list: Vec<String>) -> Seq<Seq<char>> {
    list.deep_view()
}

impl MeshView {
    /// The state after everything about a group that this node is no longer in
    /// was dropped: its members, its relay registration and its buffers.
    pub open spec fn departed(self, group: Seq<char>) -> MeshView {
        MeshView {
            members: assoc::del(self.members, group),
            synced: assoc::del(self.synced, group),
            registering: assoc::del(self.registering, group),
            messages: assoc::del(self.messages, group),
            commits: assoc::del(self.commits, group),
            ..self
        }
    }

    /// The application is told that a group left the relay, where it was
    /// registered or about to be.
    pub open spec fn unsyncing(self, group: Seq<char>, reason: SyncReason) -> Seq<EffectView> {
        if assoc::known(self.synced, group) || assoc::known(self.registering, group) {
            seq![EffectView::Notify(NoticeView::RelayUnsynced { group_id: group, reason })]
        } else {
            Seq::empty()
        }
    }

    /// The state after MLS refused a commit.
    pub open spec fn commit_refused(
        self,
        me: Seq<char>,
        payload: GroupMlsCommitPayloadView,
        error: MlsError,
        sender_is_admin: bool,
        now: u128,
    ) -> MeshView {
        if removes(payload, me) && sender_is_admin {
            self.departed(payload.group_id)
        } else {
            match error {
                MlsError::CommitNotAuthorized { committer, .. } => self.reported(
                    payload.group_id,
                    committer@,
                    true,
                    now,
                ),
                _ => self,
            }
        }
    }

    /// What a refused commit asks for.
    pub open spec fn refusing_commit(
        self,
        me: Seq<char>,
        payload: GroupMlsCommitPayloadView,
        sender: Seq<char>,
        error: MlsError,
        sender_is_admin: bool,
        now: u128,
    ) -> Seq<EffectView> {
        if removes(payload, me) && sender_is_admin {
            seq![EffectView::LeaveMlsGroup { group_id: payload.group_id }] + self.unsyncing(
                payload.group_id,
                SyncReason::Removed,
            ).push(
                EffectView::Notify(
                    NoticeView::MemberRemoved {
                        group_id: payload.group_id,
                        user_id: me,
                        removed_by: sender,
                        authorized: Some(true),
                    },
                ),
            )
        } else {
            match error {
                MlsError::CommitNotAuthorized { committer, added, removed } => self.reporting(
                    payload.group_id,
                    committer@,
                    names(added),
                    names(removed),
                    ChangeReason::SenderNotAdmin,
                    true,
                    now,
                ),
                MlsError::LeafAddressMismatch(_) => seq![
                    EffectView::Notify(NoticeView::LeafUnproven { peer_id: sender }),
                ],
                _ => Seq::empty(),
            }
        }
    }
}

/// What becomes of a commit that MLS refused.
pub open spec fn refused_outcome(
    me: Seq<char>,
    payload: GroupMlsCommitPayloadView,
    error: MlsError,
    sender_is_admin: bool,
) -> CommitOutcomeView {
    if (removes(payload, me) && sender_is_admin) || error is CommitNotAuthorized || is_permanent(
        error,
    ) {
        CommitOutcomeView::Rejected
    } else {
        CommitOutcomeView::Retriable(payload.group_id)
    }
}

impl GroupMeshState {
    /// Drops everything about a group that this node is no longer in.
    pub fn depart(&mut self, group_id: &str, reason: SyncReason, effects: &mut Effects)
        requires
            old(self)@.wf(),
        ensures
            final(self)@.wf(),
            final(self)@ == old(self)@.departed(group_id@),
            final(effects)@ == old(effects)@ + old(self)@.unsyncing(group_id@, reason),
    {
        let _ = self.members.remove(group_id);
        let was_synced = self.relay_synced.remove(group_id).is_some();
        let was_pending = self.relay_register_pending.remove(group_id).is_some();
        if was_synced || was_pending {
            effects.notify(Notice::RelayUnsynced { group_id: group_id.to_owned(), reason });
        }
        let _ = self.pending_group_messages.remove(group_id);
        let _ = self.pending_commits.remove(group_id);
        assert(effects@ =~= old(effects)@ + old(self)@.unsyncing(group_id@, reason));
    }
}

impl OfflineProtocol {
    /// Settles a commit that MLS refused. A commit that removes this node cannot
    /// be decrypted by it: where an admin sent it, the departure is taken from
    /// the payload. A commit that policy refused is reported. Any other failure
    /// is permanent or may be tried again.
    pub fn commit_failed(
        &mut self,
        payload: &GroupMlsCommitPayload,
        sender: &str,
        error: &MlsError,
        sender_is_admin: bool,
        now: u128,
        effects: &mut Effects,
    ) -> (r: CommitOutcome)
        requires
            old(self).group_mesh@.wf(),
        ensures
            final(self).group_mesh@.wf(),
            final(self).same_node(old(self)),
            final(self).group_mesh@ == old(self).group_mesh@.commit_refused(
                old(self).local_id@,
                payload.deep_view(),
                *error,
                sender_is_admin,
                now,
            ),
            final(effects)@ == old(effects)@ + old(self).group_mesh@.refusing_commit(
                old(self).local_id@,
                payload.deep_view(),
                sender@,
                *error,
                sender_is_admin,
                now,
            ),
            r.deep_view() == refused_outcome(
                old(self).local_id@,
                payload.deep_view(),
                *error,
                sender_is_admin,
            ),
    {
        let names_me: bool = match &payload.affected_member {
            Some(member) => str_eq(member.as_str(), self.local_id.as_str()),
            None => false,
        };
        if payload.commit_type == GroupCommitType::Remove && names_me && sender_is_admin {
            effects.push(Effect::LeaveMlsGroup { group_id: payload.group_id.clone() });
            self.group_mesh.depart(payload.group_id.as_str(), SyncReason::Removed, effects);
            effects.notify(
                Notice::MemberRemoved {
                    group_id: payload.group_id.clone(),
                    user_id: self.local_id.clone(),
                    removed_by: sender.to_owned(),
                    authorized: Some(true),
                },
            );
            assert(effects@ =~= old(effects)@ + old(self).group_mesh@.refusing_commit(
                old(self).local_id@,
                payload.deep_view(),
                sender@,
                *error,
                sender_is_admin,
                now,
            ));
            return CommitOutcome::Rejected;
        }
        match error {
            MlsError::CommitNotAuthorized { committer, added, removed } => {
                self.group_mesh.report_unauthorized_membership_change(
                    payload.group_id.as_str(),
                    committer.as_str(),
                    added,
                    removed,
                    ChangeReason::SenderNotAdmin,
                    true,
                    now,
                    effects,
                );
                CommitOutcome::Rejected
            },
            MlsError::LeafAddressMismatch(_) => {
                effects.notify(Notice::LeafUnproven { peer_id: sender.to_owned() });
                assert(effects@ =~= old(effects)@ + seq![
                    EffectView::Notify(NoticeView::LeafUnproven { peer_id: sender@ }),
                ]);
                CommitOutcome::Rejected
            },
            MlsError::Deserialization(_)
            | MlsError::InvalidMessage(_)
            | MlsError::Storage(_)
            | MlsError::SenderIdentityMismatch { .. } => {
                assert(effects@ =~= old(effects)@ + Seq::<EffectView>::empty());
                CommitOutcome::Rejected
            },
            _ => {
                assert(effects@ =~= old(effects)@ + Seq::<EffectView>::empty());
                CommitOutcome::Retriable(payload.group_id.clone())
            },
        }
    }
}

/// The members before a commit: a group that MLS does not hold yet has none, and
/// a failed read leaves them unknown.
pub open spec fn members_before(info: Result<Option<GroupInfoView>, ErrorView>) -> Option<
    Seq<Seq<char>>,
> {
    match info {
        Ok(Some(i)) => Some(i.members),
        Ok(None) => Some(Seq::empty()),
        Err(_) => None,
    }
}

/// What the commit claims agrees with what it changed.
pub open spec fn claim_fits(
    payload: GroupMlsCommitPayloadView,
    added: Seq<Seq<char>>,
    removed: Seq<Seq<char>>,
) -> bool {
    match payload.affected_member {
        Some(claimed) => match payload.commit_type {
            GroupCommitType::Add => added.contains(claimed) || (added.len() == 0 && removed.len()
                == 0),
            GroupCommitType::Remove => removed.contains(claimed) || (added.len() == 0
                && removed.len() == 0),
            GroupCommitType::KeyUpdate => true,
        },
        None => true,
    }
}

/// What the arrival of one member asks for. What the payload says of the member
/// counts only for the one it names, and only from an admin.
pub open spec fn arrival(
    payload: GroupMlsCommitPayloadView,
    sender: Seq<char>,
    trusted: bool,
    authorized: bool,
    member: Seq<char>,
) -> Seq<EffectView> {
    let vouched = trusted && payload.affected_member == Some(member);
    let role: Seq<EffectView> = if vouched && payload.role is Some {
        seq![
            EffectView::SetMemberRole {
                group_id: payload.group_id,
                user_id: member,
                role: payload.role->0,
            },
        ]
    } else {
        Seq::empty()
    };
    let rich: Seq<EffectView> = if vouched && payload.affected_member_rich is Some {
        seq![
            EffectView::RecordAttestedRich {
                user_id: member,
                versions: payload.affected_member_rich->0,
            },
        ]
    } else {
        Seq::empty()
    };
    (role + rich).push(
        EffectView::Notify(
            NoticeView::MemberAdded {
                group_id: payload.group_id,
                user_id: member,
                added_by: sender,
                group_name: None,
                authorized: Some(authorized),
            },
        ),
    )
}

/// What the arrival of each member asks for, in order.
pub open spec fn arrivals(
    payload: GroupMlsCommitPayloadView,
    sender: Seq<char>,
    trusted: bool,
    authorized: bool,
    added: Seq<Seq<char>>,
) -> Seq<EffectView>
    decreases added.len(),
{
    if added.len() == 0 {
        Seq::empty()
    } else {
        arrivals(payload, sender, trusted, authorized, added.drop_last()) + arrival(
            payload,
            sender,
            trusted,
            authorized,
            added.last(),
        )
    }
}

/// What the departure of each member asks for, in order.
pub open spec fn departures(
    group: Seq<char>,
    sender: Seq<char>,
    authorized: bool,
    removed: Seq<Seq<char>>,
) -> Seq<EffectView>
    decreases removed.len(),
{
    if removed.len() == 0 {
        Seq::empty()
    } else {
        departures(group, sender, authorized, removed.drop_last()).push(
            EffectView::RemoveMemberRole { group_id: group, user_id: removed.last() },
        ).push(
            EffectView::Notify(
                NoticeView::MemberRemoved {
                    group_id: group,
                    user_id: removed.last(),
                    removed_by: sender,
                    authorized: Some(authorized),
                },
            ),
        )
    }
}

/// The elections without the one over this member's leave.
pub open spec fn elections_without(
    elections: Seq<PendingLeaveElectionView>,
    group: Seq<char>,
    member: Seq<char>,
) -> Seq<PendingLeaveElectionView> {
    elections.filter(
        |e: PendingLeaveElectionView| !(e.group_id == group && e.leaving_member == member),
    )
}

/// The elections without those over any of these members' leaves.
pub open spec fn elections_settled(
    elections: Seq<PendingLeaveElectionView>,
    group: Seq<char>,
    removed: Seq<Seq<char>>,
) -> Seq<PendingLeaveElectionView>
    decreases removed.len(),
{
    if removed.len() == 0 {
        elections
    } else {
        elections_without(
            elections_settled(elections, group, removed.drop_last()),
            group,
            removed.last(),
        )
    }
}

/// What a commit changed, where both rosters are known.
pub struct MembershipDelta {
    pub added: Seq<Seq<char>>,
    pub removed: Seq<Seq<char>>,
}

/// The membership change between two reads of a group: who is in the later one
/// and not in the earlier, and the other way round, in text order. Unknown where
/// a read failed.
pub open spec fn delta(
    before: Result<Option<GroupInfoView>, ErrorView>,
    after: Result<Option<GroupInfoView>, ErrorView>,
) -> Option<MembershipDelta> {
    match (members_before(before), held(after)) {
        (Some(b), Some(a)) => Some(
            MembershipDelta {
                added: difference(a.members, b),
                removed: difference(b, a.members),
            },
        ),
        _ => None,
    }
}

/// Why a change is not authorized, given whether its sender is an admin.
pub open spec fn change_reason(sender_is_admin: bool) -> ChangeReason {
    if sender_is_admin {
        ChangeReason::AffectedMemberMismatch
    } else {
        ChangeReason::SenderNotAdmin
    }
}

impl MeshView {
    /// The fork entry goes when a key update got through: those are the
    /// resolution commits.
    pub open spec fn fork_settled(self, payload: GroupMlsCommitPayloadView) -> MeshView {
        if payload.commit_type == GroupCommitType::KeyUpdate {
            MeshView { forks: assoc::del(self.forks, payload.group_id), ..self }
        } else {
            self
        }
    }

    /// The state after a membership change was judged.
    pub open spec fn judged(
        self,
        group: Seq<char>,
        sender: Seq<char>,
        authorized: bool,
        now: u128,
    ) -> MeshView {
        if authorized {
            self
        } else {
            self.reported(group, sender, false, now)
        }
    }

    /// What judging a membership change asks for.
    pub open spec fn judging(
        self,
        group: Seq<char>,
        sender: Seq<char>,
        change: MembershipDelta,
        sender_is_admin: bool,
        authorized: bool,
        now: u128,
    ) -> Seq<EffectView> {
        if authorized {
            Seq::empty()
        } else {
            self.reporting(
                group,
                sender,
                change.added,
                change.removed,
                change_reason(sender_is_admin),
                false,
                now,
            )
        }
    }

    /// The state after MLS merged a commit.
    pub open spec fn commit_merged(
        self,
        payload: GroupMlsCommitPayloadView,
        sender: Seq<char>,
        before: Result<Option<GroupInfoView>, ErrorView>,
        after: Result<Option<GroupInfoView>, ErrorView>,
        sender_is_admin: bool,
        now: u128,
    ) -> MeshView {
        let group = payload.group_id;
        let fresh = self.refreshed(group, after);
        match delta(before, after) {
            Some(d) => {
                let authorized = (d.added.len() == 0 && d.removed.len() == 0) || (sender_is_admin
                    && claim_fits(payload, d.added, d.removed));
                let told = fresh.judged(group, sender, authorized, now);
                MeshView {
                    elections: elections_settled(told.elections, group, d.removed),
                    ..told
                }.fork_settled(payload)
            },
            None => fresh.fork_settled(payload),
        }
    }

    /// What a merged commit asks for: a report where the change is not
    /// authorized, then each arrival and each departure, and a promotion where
    /// somebody left.
    pub open spec fn merging_commit(
        self,
        payload: GroupMlsCommitPayloadView,
        sender: Seq<char>,
        before: Result<Option<GroupInfoView>, ErrorView>,
        after: Result<Option<GroupInfoView>, ErrorView>,
        sender_is_admin: bool,
        now: u128,
    ) -> Seq<EffectView> {
        let group = payload.group_id;
        match delta(before, after) {
            Some(d) => {
                let authorized = (d.added.len() == 0 && d.removed.len() == 0) || (sender_is_admin
                    && claim_fits(payload, d.added, d.removed));
                let promotion: Seq<EffectView> = if d.removed.len() > 0 {
                    seq![
                        EffectView::AutoPromote {
                            group_id: group,
                            members: held(after)->0.members,
                        },
                    ]
                } else {
                    Seq::empty()
                };
                self.judging(group, sender, d, sender_is_admin, authorized, now) + arrivals(
                    payload,
                    sender,
                    sender_is_admin,
                    authorized,
                    d.added,
                ) + departures(group, sender, authorized, d.removed) + promotion
            },
            None => Seq::empty(),
        }
    }
}

impl GroupMeshState {
    /// Judges an applied membership change: it is authorized where an admin
    /// committed it and the commit's own framing agrees with it. The change
    /// stands either way; an unauthorized one is reported.
    pub fn judge_membership_change(
        &mut self,
        group_id: &str,
        sender: &str,
        added: &Vec<String>,
        removed: &Vec<String>,
        sender_is_admin: bool,
        claim_matches_delta: bool,
        now: u128,
        effects: &mut Effects,
    ) -> (authorized: bool)
        requires
            old(self)@.wf(),
        ensures
            final(self)@.wf(),
            authorized == (sender_is_admin && claim_matches_delta),
            final(self)@ == old(self)@.judged(group_id@, sender@, authorized, now),
            final(effects)@ == old(effects)@ + old(self)@.judging(
                group_id@,
                sender@,
                (MembershipDelta { added: added.deep_view(), removed: removed.deep_view() }),
                sender_is_admin,
                authorized,
                now,
            ),
    {
        let authorized = sender_is_admin && claim_matches_delta;
        if !authorized {
            let reason = if sender_is_admin {
                ChangeReason::AffectedMemberMismatch
            } else {
                ChangeReason::SenderNotAdmin
            };
            self.report_unauthorized_membership_change(
                group_id,
                sender,
                added,
                removed,
                reason,
                false,
                now,
                effects,
            );
        } else {
            assert(effects@ =~= old(effects)@ + Seq::<EffectView>::empty());
        }
        authorized
    }

    /// Forgets the election over a member's leave.
    pub fn drop_election(&mut self, group_id: &str, member: &str)
        requires
            old(self)@.wf(),
        ensures
            final(self)@.wf(),
            final(self)@ == (MeshView {
                elections: elections_without(old(self)@.elections, group_id@, member@),
                ..old(self)@
            }),
    {
        let test = |e: &PendingLeaveElection| -> (keep: bool)
            ensures
                keep == !(e.group_id@ == group_id@ && e.leaving_member@ == member@),
            {
                !(str_eq(e.group_id.as_str(), group_id) && str_eq(
                    e.leaving_member.as_str(),
                    member,
                ))
            };
        keep_if(
            &mut self.pending_leave_elections,
            test,
            Ghost(
                |e: PendingLeaveElectionView|
                    !(e.group_id == group_id@ && e.leaving_member == member@),
            ),
        );
    }

    /// Announces the members that a commit added.
    fn announce_arrivals(
        payload: &GroupMlsCommitPayload,
        sender: &str,
        trusted: bool,
        authorized: bool,
        added: &Vec<String>,
        effects: &mut Effects,
    )
        ensures
            final(effects)@ == old(effects)@ + arrivals(
                payload.deep_view(),
                sender@,
                trusted,
                authorized,
                added.deep_view(),
            ),
    {
        let mut i: usize = 0;
        let ghost all = added.deep_view();
        assert(all.take(0) =~= Seq::empty());
        assert(effects@ =~= old(effects)@ + Seq::<EffectView>::empty());
        while i < added.len()
            invariant
                i <= added@.len(),
                all == added.deep_view(),
                effects@ == old(effects)@ + arrivals(
                    payload.deep_view(),
                    sender@,
                    trusted,
                    authorized,
                    all.take(i as int),
                ),
            decreases added@.len() - i,
        {
            let ghost out = effects@;
            let member = &added[i];
            let named: bool = match &payload.affected_member {
                Some(claimed) => str_eq(claimed.as_str(), member.as_str()),
                None => false,
            };
            if named && trusted {
                if let Some(role) = payload.role {
                    effects.push(
                        Effect::SetMemberRole {
                            group_id: payload.group_id.clone(),
                            user_id: member.clone(),
                            role,
                        },
                    );
                }
                if let Some(versions) = &payload.affected_member_rich {
                    effects.push(
                        Effect::RecordAttestedRich {
                            user_id: member.clone(),
                            versions: copy_bytes(versions),
                        },
                    );
                }
            }
            effects.notify(
                Notice::MemberAdded {
                    group_id: payload.group_id.clone(),
                    user_id: member.clone(),
                    added_by: sender.to_owned(),
                    group_name: None,
                    authorized: Some(authorized),
                },
            );
            proof {
                let next = all.take(i + 1);
                assert(next.drop_last() =~= all.take(i as int));
                assert(next.last() == member@);
                assert(effects@ =~= out + arrival(
                    payload.deep_view(),
                    sender@,
                    trusted,
                    authorized,
                    member@,
                ));
                assert(effects@ =~= old(effects)@ + arrivals(
                    payload.deep_view(),
                    sender@,
                    trusted,
                    authorized,
                    next,
                ));
            }
            i = i + 1;
        }
        assert(all.take(i as int) =~= all);
    }

    /// Announces the members that a commit removed, and settles their leaves.
    fn announce_departures(
        &mut self,
        group_id: &str,
        sender: &str,
        authorized: bool,
        removed: &Vec<String>,
        effects: &mut Effects,
    )
        requires
            old(self)@.wf(),
        ensures
            final(self)@.wf(),
            final(self)@ == (MeshView {
                elections: elections_settled(
                    old(self)@.elections,
                    group_id@,
                    removed.deep_view(),
                ),
                ..old(self)@
            }),
            final(effects)@ == old(effects)@ + departures(
                group_id@,
                sender@,
                authorized,
                removed.deep_view(),
            ),
    {
        let mut i: usize = 0;
        let ghost all = removed.deep_view();
        assert(all.take(0) =~= Seq::empty());
        assert(effects@ =~= old(effects)@ + Seq::<EffectView>::empty());
        while i < removed.len()
            invariant
                i <= removed@.len(),
                all == removed.deep_view(),
                self@.wf(),
                self@ == (MeshView {
                    elections: elections_settled(
                        old(self)@.elections,
                        group_id@,
                        all.take(i as int),
                    ),
                    ..old(self)@
                }),
                effects@ == old(effects)@ + departures(
                    group_id@,
                    sender@,
                    authorized,
                    all.take(i as int),
                ),
            decreases removed@.len() - i,
        {
            let ghost out = effects@;
            let member = &removed[i];
            effects.push(
                Effect::RemoveMemberRole {
                    group_id: group_id.to_owned(),
                    user_id: member.clone(),
                },
            );
            effects.notify(
                Notice::MemberRemoved {
                    group_id: group_id.to_owned(),
                    user_id: member.clone(),
                    removed_by: sender.to_owned(),
                    authorized: Some(authorized),
                },
            );
            self.drop_election(group_id, member.as_str());
            proof {
                let next = all.take(i + 1);
                assert(next.drop_last() =~= all.take(i as int));
                assert(next.last() == member@);
                assert(effects@ =~= old(effects)@ + departures(
                    group_id@,
                    sender@,
                    authorized,
                    next,
                ));
            }
            i = i + 1;
        }
        assert(all.take(i as int) =~= all);
    }

    /// Whether the claimed member is among those that were actually added or
    /// removed.
    fn claim_matches(
        payload: &GroupMlsCommitPayload,
        added: &Vec<String>,
        removed: &Vec<String>,
    ) -> (r: bool)
        ensures
            r == claim_fits(payload.deep_view(), added.deep_view(), removed.deep_view()),
    {
        assert(added.deep_view().len() == added@.len());
        assert(removed.deep_view().len() == removed@.len());
        let unchanged: bool = added.len() == 0 && removed.len() == 0;
        match &payload.affected_member {
            Some(claimed) => match payload.commit_type {
                GroupCommitType::Add => unchanged || lists(added, claimed.as_str()),
                GroupCommitType::Remove => unchanged || lists(removed, claimed.as_str()),
                GroupCommitType::KeyUpdate => true,
            },
            None => true,
        }
    }

    /// Settles a commit that MLS merged: the member cache is refreshed, the
    /// actual membership change is computed from what MLS held before and holds
    /// now, judged and announced. Where either read failed the change is
    /// unknowable, and everything derived from it is skipped.
    #[verifier::rlimit(40)]
    pub fn commit_applied(
        &mut self,
        payload: &GroupMlsCommitPayload,
        sender: &str,
        before: &Result<Option<GroupInfo>, Error>,
        after: &Result<Option<GroupInfo>, Error>,
        sender_is_admin: bool,
        now: u128,
        effects: &mut Effects,
    ) -> (r: CommitOutcome)
        requires
            old(self)@.wf(),
        ensures
            final(self)@.wf(),
            final(self)@ == old(self)@.commit_merged(
                payload.deep_view(),
                sender@,
                told(*before),
                told(*after),
                sender_is_admin,
                now,
            ),
            final(effects)@ == old(effects)@ + old(self)@.merging_commit(
                payload.deep_view(),
                sender@,
                told(*before),
                told(*after),
                sender_is_admin,
                now,
            ),
            r.deep_view() == CommitOutcomeView::Success(payload.group_id@),
    {
        let group_id = payload.group_id.as_str();
        let now_in = self.refresh_group_members(group_id, after);
        let then_in: Option<Vec<String>> = match before {
            Ok(Some(i)) => Some(copy_texts(&i.members)),
            Ok(None) => Some(Vec::new()),
            Err(_) => None,
        };
        assert(then_in.deep_view() =~= members_before(told(*before)));
        if let (Some(then_in), Some(now_in)) = (then_in, now_in) {
            let added = differing(&now_in, &then_in);
            let removed = differing(&then_in, &now_in);
            assert(added.deep_view().len() == added@.len());
            assert(removed.deep_view().len() == removed@.len());
            let changed: bool = added.len() > 0 || removed.len() > 0;
            let fits = Self::claim_matches(payload, &added, &removed);
            let authorized = if changed {
                self.judge_membership_change(
                    group_id,
                    sender,
                    &added,
                    &removed,
                    sender_is_admin,
                    fits,
                    now,
                    effects,
                )
            } else {
                assert(effects@ =~= old(effects)@ + Seq::<EffectView>::empty());
                true
            };
            Self::announce_arrivals(payload, sender, sender_is_admin, authorized, &added, effects);
            self.announce_departures(group_id, sender, authorized, &removed, effects);
            if removed.len() > 0 {
                effects.push(
                    Effect::AutoPromote {
                        group_id: payload.group_id.clone(),
                        members: now_in,
                    },
                );
            }
        }
        assert(effects@ =~= old(effects)@ + old(self)@.merging_commit(
            payload.deep_view(),
            sender@,
            told(*before),
            told(*after),
            sender_is_admin,
            now,
        ));
        if payload.commit_type == GroupCommitType::KeyUpdate {
            let _ = self.epoch_forks.remove(group_id);
        }
        CommitOutcome::Success(payload.group_id.clone())
    }
}

} // verus!

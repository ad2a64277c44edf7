//! Incoming group frames: commits, welcomes, leaves, role changes and renames.

use vstd::prelude::*;

use crate::assoc;
use crate::error::{told, Error, ErrorView, MlsError};
use crate::events::copy_text;
use crate::group_mesh::commits::{
    base64_decode, copy_bytes, elections_without, payload_bytes, CommitOutcome, CommitOutcomeView,
};
use crate::group_mesh::dated::{earliest, oldest_of, times_of};
use crate::group_mesh::effect::{Effect, EffectView, Effects, Notice, NoticeView};
use crate::group_mesh::limits::MAX_PENDING_LEAVE_ELECTIONS;
use crate::group_mesh::messages::drains;
use crate::group_mesh::roles::{is_admin, known_admin, name_in, GroupReads, GroupReadsView};
use crate::group_mesh::state::{GroupMeshState, MeshView, OfflineProtocol};
use crate::group_mesh::types::{
    GroupInfo, GroupInfoView, GroupMlsLeavePayload, GroupMlsLeavePayloadView,
    GroupMlsWelcomePayload, GroupMlsWelcomePayloadView, GroupRenamePayload, GroupRenamePayloadView,
    GroupRole, GroupRoleChangePayload, GroupRoleChangePayloadView, PendingCommitView,
    PendingLeaveElection, PendingLeaveElectionView,
};
use crate::rosters::{in_order, lists, others, without};
use crate::text;
use crate::text::str_eq;

verus! {

/// The entry that buffers a commit.
pub open spec fn held_commit(
    message_id: Seq<char>,
    sender: Seq<char>,
    data: Seq<char>,
    now: u128,
) -> PendingCommitView {
    PendingCommitView { sender, message_id, data, buffered_at: now, retry_count: 0 }
}

/// What a welcome hands to MLS: the data of one that is new, for a group that this
/// node is not in.
pub open spec fn welcome_bytes(
    mesh: MeshView,
    message_id: Seq<char>,
    payload: Option<GroupMlsWelcomePayloadView>,
) -> Option<Seq<u8>> {
    match payload {
        Some(p) => if assoc::known(mesh.seen, message_id) || assoc::known(
            mesh.members,
            p.group_id,
        ) {
            None
        } else {
            payload_bytes(p.welcome_data)
        },
        None => None,
    }
}

impl GroupMeshState {
    /// Takes in a commit, and says whether it is to be processed: a duplicate is
    /// not, or its second copy would fail at MLS and be buffered for nothing.
    pub fn handle_group_mls_commit(
        &mut self,
        message_id: &str,
        now: u128,
        effects: &mut Effects,
    ) -> (process: bool)
        requires
            old(self)@.wf(),
        ensures
            final(self)@.wf(),
            process == !assoc::known(old(self)@.seen, message_id@),
            process ==> final(self)@ == old(self)@.let_in(message_id@, now) && final(effects)@
                == old(effects)@ + old(self)@.letting_in(message_id@, now),
            !process ==> final(self)@ == old(self)@ && final(effects)@ == old(effects)@,
    {
        self.take_in(message_id, now, effects)
    }

    /// Settles a commit that was processed: a success lets buffered commits and
    /// messages be tried again, and one that failed for now is buffered.
    pub fn commit_processed(
        &mut self,
        message_id: &str,
        sender: &str,
        data: &str,
        outcome: &CommitOutcome,
        now: u128,
        effects: &mut Effects,
    )
        requires
            old(self)@.wf(),
        ensures
            final(self)@.wf(),
            match outcome.deep_view() {
                CommitOutcomeView::Success(group) => final(self)@ == old(self)@ && final(effects)@
                    == old(effects)@ + drains(group),
                CommitOutcomeView::Retriable(group) => final(self)@ == old(self)@.commit_buffered(
                    group,
                    held_commit(message_id@, sender@, data@, now),
                ) && final(effects)@ == old(effects)@ + old(self)@.buffering_commit(
                    group,
                    held_commit(message_id@, sender@, data@, now),
                ),
                CommitOutcomeView::Rejected => final(self)@ == old(self)@ && final(effects)@
                    == old(effects)@,
            },
    {
        match outcome {
            CommitOutcome::Success(group_id) => {
                effects.push(Effect::DrainCommits { group_id: group_id.clone() });
                effects.push(Effect::DrainMessages { group_id: group_id.clone() });
                assert(effects@ =~= old(effects)@ + drains(group_id@));
            },
            CommitOutcome::Retriable(group_id) => {
                self.buffer_pending_commit(
                    group_id.as_str(),
                    message_id,
                    sender,
                    data,
                    now,
                    effects,
                );
            },
            CommitOutcome::Rejected => {},
        }
    }

    /// Takes in a welcome, and hands out its bytes where the group is to be
    /// joined: an unparsable or duplicate frame is dropped, and so is a welcome
    /// to a group that this node is in already.
    pub fn handle_group_mls_welcome(
        &mut self,
        message_id: &str,
        payload: &Option<GroupMlsWelcomePayload>,
        now: u128,
        effects: &mut Effects,
    ) -> (r: Option<Vec<u8>>)
        requires
            old(self)@.wf(),
        ensures
            final(self)@.wf(),
            match payload.deep_view() {
                None => r is None && final(self)@ == old(self)@ && final(effects)@
                    == old(effects)@,
                Some(p) => if assoc::known(old(self)@.seen, message_id@) {
                    r is None && final(self)@ == old(self)@ && final(effects)@ == old(effects)@
                } else {
                    &&& final(self)@ == old(self)@.let_in(message_id@, now)
                    &&& final(effects)@ == old(effects)@ + old(self)@.letting_in(
                        message_id@,
                        now,
                    )
                    &&& match r {
                        Some(bytes) => !assoc::known(old(self)@.members, p.group_id)
                            && payload_bytes(p.welcome_data) == Some(bytes@),
                        None => assoc::known(old(self)@.members, p.group_id) || payload_bytes(
                            p.welcome_data,
                        ) is None,
                    }
                },
            },
            match (r, welcome_bytes(old(self)@, message_id@, payload.deep_view())) {
                (Some(bytes), Some(data)) => bytes@ == data,
                (None, None) => true,
                _ => false,
            },
    {
        let p = match payload {
            Some(p) => p,
            None => return None,
        };
        if !self.take_in(message_id, now, effects) {
            return None;
        }
        if self.members.contains_key(p.group_id.as_str()) {
            return None;
        }
        base64_decode(p.welcome_data.as_str())
    }
}

/// The attestations in a welcome that count: those for members of the group that
/// was joined.
pub open spec fn attestations(
    rich: Seq<(Seq<char>, Seq<u8>)>,
    members: Seq<Seq<char>>,
) -> Seq<EffectView>
    decreases rich.len(),
{
    if rich.len() == 0 {
        Seq::empty()
    } else {
        let rest = attestations(rich.drop_last(), members);
        if members.contains(rich.last().0) {
            rest.push(
                EffectView::RecordAttestedRich {
                    user_id: rich.last().0,
                    versions: rich.last().1,
                },
            )
        } else {
            rest
        }
    }
}

/// The role assignments in a welcome.
pub open spec fn assignments(group: Seq<char>, roles: Seq<(Seq<char>, GroupRole)>) -> Seq<
    EffectView,
> {
    roles.map_values(
        |r: (Seq<char>, GroupRole)|
            EffectView::SetMemberRole { group_id: group, user_id: r.0, role: r.1 },
    )
}

/// What a joined group asks for.
pub open spec fn joining(
    me: Seq<char>,
    sender: Seq<char>,
    payload: GroupMlsWelcomePayloadView,
    members: Seq<Seq<char>>,
) -> Seq<EffectView> {
    let creator: Seq<EffectView> = match payload.created_by {
        Some(creator) => seq![
            EffectView::SetGroupCreator { group_id: payload.group_id, creator },
        ],
        None => Seq::empty(),
    };
    attestations(payload.member_rich, members) + assignments(payload.group_id, payload.member_roles)
        + creator + seq![
        EffectView::SendKeyPackage { user_id: sender },
        EffectView::Notify(
            NoticeView::MemberAdded {
                group_id: payload.group_id,
                user_id: me,
                added_by: sender,
                group_name: payload.group_name,
                authorized: None,
            },
        ),
    ] + drains(payload.group_id)
}

/// Somebody who asks to leave may do so: they say so themselves, and they are a
/// member.
pub open spec fn leave_counts(
    payload: GroupMlsLeavePayloadView,
    sender: Seq<char>,
    members: Seq<Seq<char>>,
) -> bool {
    payload.leaving_member == sender && members.contains(sender)
}

/// Whether this node is the one to remove a leaving member: the first of those
/// who remain, in text order.
pub open spec fn elected(me: Seq<char>, members: Seq<Seq<char>>, leaver: Seq<char>) -> bool {
    let remaining = text::sorted(without(members, leaver));
    remaining.len() > 0 && remaining[0] == me
}

/// The elections with one more: at the cap the oldest makes way.
pub open spec fn with_election(
    elections: Seq<PendingLeaveElectionView>,
    group: Seq<char>,
    leaver: Seq<char>,
    now: u128,
) -> Seq<PendingLeaveElectionView> {
    let room = if elections.len() >= MAX_PENDING_LEAVE_ELECTIONS {
        elections.remove(earliest(times_of::<PendingLeaveElection>(elections)))
    } else {
        elections
    };
    elections_without(room, group, leaver).push(
        PendingLeaveElectionView {
            group_id: group,
            leaving_member: leaver,
            received_at: now,
            last_attempt_at: None,
        },
    )
}

impl MeshView {
    /// The members of a group, none where they are not known.
    pub open spec fn known_members(
        self,
        group: Seq<char>,
        info: Result<Option<GroupInfoView>, ErrorView>,
    ) -> Seq<Seq<char>> {
        match self.roster(group, info) {
            Some(members) => members,
            None => Seq::empty(),
        }
    }

    /// The state after a leave notification.
    pub open spec fn leave_noted(
        self,
        me: Seq<char>,
        message_id: Seq<char>,
        sender: Seq<char>,
        payload: Option<GroupMlsLeavePayloadView>,
        info: Result<Option<GroupInfoView>, ErrorView>,
        now: u128,
    ) -> MeshView {
        match payload {
            None => self,
            Some(p) => if assoc::known(self.seen, message_id) {
                self
            } else {
                let inside = self.let_in(message_id, now);
                if p.leaving_member != sender {
                    inside
                } else {
                    let fresh = inside.refreshed(p.group_id, info);
                    let members = inside.known_members(p.group_id, info);
                    if !members.contains(sender) {
                        fresh
                    } else if elected(me, members, sender) {
                        MeshView {
                            elections: elections_without(fresh.elections, p.group_id, sender),
                            ..fresh
                        }
                    } else {
                        MeshView {
                            elections: with_election(fresh.elections, p.group_id, sender, now),
                            ..fresh
                        }
                    }
                }
            },
        }
    }

    /// What a leave notification asks for: the elected member removes the one who
    /// leaves.
    pub open spec fn noting_leave(
        self,
        me: Seq<char>,
        message_id: Seq<char>,
        sender: Seq<char>,
        payload: Option<GroupMlsLeavePayloadView>,
        info: Result<Option<GroupInfoView>, ErrorView>,
        now: u128,
    ) -> Seq<EffectView> {
        match payload {
            None => Seq::empty(),
            Some(p) => if assoc::known(self.seen, message_id) {
                Seq::empty()
            } else {
                let first = self.letting_in(message_id, now);
                let members = self.let_in(message_id, now).known_members(p.group_id, info);
                if leave_counts(p, sender, members) && elected(me, members, sender) {
                    first.push(EffectView::RemoveMember { group_id: p.group_id, user_id: sender })
                } else {
                    first
                }
            },
        }
    }
}

/// What a welcome that MLS refused asks for: where its tree seats a leaf that
/// proves nothing, the inviter is named. The invite is declined either way.
pub open spec fn declining(sender: Seq<char>, error: MlsError) -> Seq<EffectView> {
    match error {
        MlsError::LeafAddressMismatch(_) => seq![
            EffectView::Notify(NoticeView::LeafUnproven { peer_id: sender }),
        ],
        _ => Seq::empty(),
    }
}

/// Settles a welcome that MLS refused.
pub fn welcome_refused(sender: &str, error: &MlsError, effects: &mut Effects)
    ensures
        final(effects)@ == old(effects)@ + declining(sender@, *error),
{
    match error {
        MlsError::LeafAddressMismatch(_) => {
            effects.notify(Notice::LeafUnproven { peer_id: sender.to_owned() });
            assert(effects@ =~= old(effects)@ + declining(sender@, *error));
        },
        _ => {
            assert(effects@ =~= old(effects)@ + Seq::<EffectView>::empty());
        },
    }
}

impl OfflineProtocol {
    /// Settles a welcome that MLS accepted: this node is now in the group.
    pub fn welcome_joined(
        &mut self,
        sender: &str,
        payload: &GroupMlsWelcomePayload,
        members: Vec<String>,
        effects: &mut Effects,
    )
        requires
            old(self).group_mesh@.wf(),
        ensures
            final(self).group_mesh@.wf(),
            final(self).same_node(old(self)),
            final(self).group_mesh@ == (MeshView {
                members: assoc::put(
                    old(self).group_mesh@.members,
                    payload.group_id@,
                    members.deep_view(),
                ),
                ..old(self).group_mesh@
            }),
            final(effects)@ == old(effects)@ + joining(
                old(self).local_id@,
                sender@,
                payload.deep_view(),
                members.deep_view(),
            ),
    {
        let ghost rich = payload.member_rich.deep_view();
        let ghost joined = members.deep_view();
        let mut i: usize = 0;
        assert(rich.take(0) =~= Seq::empty());
        assert(effects@ =~= old(effects)@ + attestations(rich.take(0), joined));
        while i < payload.member_rich.len()
            invariant
                i <= payload.member_rich@.len(),
                rich == payload.member_rich.deep_view(),
                joined == members.deep_view(),
                effects@ == old(effects)@ + attestations(rich.take(i as int), joined),
            decreases payload.member_rich@.len() - i,
        {
            let entry = &payload.member_rich[i];
            proof {
                assert(rich.take(i + 1).drop_last() =~= rich.take(i as int));
                assert(rich.take(i + 1).last() == entry.deep_view());
            }
            if lists(&members, entry.0.as_str()) {
                effects.push(
                    Effect::RecordAttestedRich {
                        user_id: entry.0.clone(),
                        versions: copy_bytes(&entry.1),
                    },
                );
                assert(effects@ =~= old(effects)@ + attestations(rich.take(i + 1), joined));
            }
            i = i + 1;
        }
        assert(rich.take(i as int) =~= rich);
        let _ = self.group_mesh.members.insert(payload.group_id.clone(), members);
        let ghost attested = effects@;
        let ghost roles = payload.member_roles.deep_view();
        let mut i: usize = 0;
        assert(effects@ =~= attested + assignments(payload.group_id@, roles.take(0)));
        while i < payload.member_roles.len()
            invariant
                i <= payload.member_roles@.len(),
                roles == payload.member_roles.deep_view(),
                effects@ == attested + assignments(payload.group_id@, roles.take(i as int)),
            decreases payload.member_roles@.len() - i,
        {
            let entry = &payload.member_roles[i];
            effects.push(
                Effect::SetMemberRole {
                    group_id: payload.group_id.clone(),
                    user_id: entry.0.clone(),
                    role: entry.1,
                },
            );
            assert(effects@ =~= attested + assignments(payload.group_id@, roles.take(i + 1)));
            i = i + 1;
        }
        assert(roles.take(i as int) =~= roles);
        if let Some(creator) = &payload.created_by {
            effects.push(
                Effect::SetGroupCreator {
                    group_id: payload.group_id.clone(),
                    creator: creator.clone(),
                },
            );
        }
        effects.push(Effect::SendKeyPackage { user_id: sender.to_owned() });
        effects.notify(
            Notice::MemberAdded {
                group_id: payload.group_id.clone(),
                user_id: self.local_id.clone(),
                added_by: sender.to_owned(),
                group_name: copy_text(&payload.group_name),
                authorized: None,
            },
        );
        effects.push(Effect::DrainCommits { group_id: payload.group_id.clone() });
        effects.push(Effect::DrainMessages { group_id: payload.group_id.clone() });
        assert(effects@ =~= old(effects)@ + joining(
            old(self).local_id@,
            sender@,
            payload.deep_view(),
            joined,
        ));
    }

    /// Handles a leave notification. The first of the remaining members, in text
    /// order, removes the leaver; every other member records the leave so as to
    /// take over should that one fail.
    pub fn handle_group_mls_leave(
        &mut self,
        message_id: &str,
        sender: &str,
        payload: &Option<GroupMlsLeavePayload>,
        info: &Result<Option<GroupInfo>, Error>,
        now: u128,
        effects: &mut Effects,
    )
        requires
            old(self).group_mesh@.wf(),
        ensures
            final(self).group_mesh@.wf(),
            final(self).same_node(old(self)),
            final(self).group_mesh@ == old(self).group_mesh@.leave_noted(
                old(self).local_id@,
                message_id@,
                sender@,
                payload.deep_view(),
                told(*info),
                now,
            ),
            final(effects)@ == old(effects)@ + old(self).group_mesh@.noting_leave(
                old(self).local_id@,
                message_id@,
                sender@,
                payload.deep_view(),
                told(*info),
                now,
            ),
    {
        let p = match payload {
            Some(p) => p,
            None => {
                assert(effects@ =~= old(effects)@ + Seq::<EffectView>::empty());
                return;
            },
        };
        if !self.group_mesh.take_in(message_id, now, effects) {
            assert(effects@ =~= old(effects)@ + Seq::<EffectView>::empty());
            return;
        }
        if !str_eq(p.leaving_member.as_str(), sender) {
            return;
        }
        let group_id = p.group_id.as_str();
        let members = match self.group_mesh.current_members(group_id, info) {
            Some(members) => members,
            None => Vec::new(),
        };
        assert(members.deep_view() =~= old(self).group_mesh@.let_in(
            message_id@,
            now,
        ).known_members(p.group_id@, told(*info)));
        if !lists(&members, sender) {
            return;
        }
        let remaining = in_order(&others(&members, sender));
        assert(remaining.deep_view().len() == remaining@.len());
        let first_is_me: bool = if remaining.len() > 0 {
            assert(remaining.deep_view()[0] == remaining@[0]@);
            str_eq(remaining[0].as_str(), self.local_id.as_str())
        } else {
            false
        };
        if first_is_me {
            effects.push(
                Effect::RemoveMember { group_id: p.group_id.clone(), user_id: sender.to_owned() },
            );
            self.group_mesh.drop_election(group_id, sender);
            assert(effects@ =~= old(effects)@ + old(self).group_mesh@.noting_leave(
                old(self).local_id@,
                message_id@,
                sender@,
                payload.deep_view(),
                told(*info),
                now,
            ));
        } else {
            let ghost before = self.group_mesh@.elections;
            assert(before.len() == self.group_mesh.pending_leave_elections@.len());
            if self.group_mesh.pending_leave_elections.len() >= MAX_PENDING_LEAVE_ELECTIONS {
                let oldest = oldest_of(&self.group_mesh.pending_leave_elections);
                let _ = self.group_mesh.pending_leave_elections.remove(oldest);
                assert(self.group_mesh@.elections =~= before.remove(oldest as int));
            }
            self.group_mesh.drop_election(group_id, sender);
            let ghost room = self.group_mesh@.elections;
            self.group_mesh.pending_leave_elections.push(
                PendingLeaveElection {
                    group_id: p.group_id.clone(),
                    leaving_member: sender.to_owned(),
                    received_at: now,
                    last_attempt_at: None,
                },
            );
            assert(self.group_mesh@.elections =~= room.push(
                PendingLeaveElectionView {
                    group_id: p.group_id@,
                    leaving_member: sender@,
                    received_at: now,
                    last_attempt_at: None,
                },
            ));
        }
    }
}

/// What a role change from somebody else asks for: it counts only from an admin,
/// and the sender is named as who made it.
pub open spec fn role_change_asked(
    sender: Seq<char>,
    payload: GroupRoleChangePayloadView,
    reads: GroupReadsView,
) -> Seq<EffectView> {
    if is_admin(reads, payload.group_id, sender) == Ok::<bool, ErrorView>(true) {
        seq![
            EffectView::SetMemberRole {
                group_id: payload.group_id,
                user_id: payload.target_user_id,
                role: payload.new_role,
            },
            EffectView::Notify(
                NoticeView::RoleChanged {
                    group_id: payload.group_id,
                    user_id: payload.target_user_id,
                    new_role: payload.new_role,
                    changed_by: sender,
                },
            ),
        ]
    } else {
        Seq::empty()
    }
}

/// What a rename from somebody else asks for: it counts only from an admin, and
/// the sender is named as who made it.
pub open spec fn rename_asked(
    sender: Seq<char>,
    payload: GroupRenamePayloadView,
    reads: GroupReadsView,
) -> Seq<EffectView> {
    if is_admin(reads, payload.group_id, sender) == Ok::<bool, ErrorView>(true) {
        seq![
            EffectView::SetGroupName { group_id: payload.group_id, name: payload.new_name },
            EffectView::Notify(
                NoticeView::Renamed {
                    group_id: payload.group_id,
                    new_name: payload.new_name,
                    old_name: name_in(reads),
                    renamed_by: sender,
                },
            ),
        ]
    } else {
        Seq::empty()
    }
}

impl GroupMeshState {
    /// Handles a role change notification.
    pub fn handle_group_role_change(
        &mut self,
        message_id: &str,
        sender: &str,
        payload: &Option<GroupRoleChangePayload>,
        reads: &GroupReads,
        now: u128,
        effects: &mut Effects,
    )
        requires
            old(self)@.wf(),
        ensures
            final(self)@.wf(),
            match payload.deep_view() {
                None => final(self)@ == old(self)@ && final(effects)@ == old(effects)@,
                Some(p) => if assoc::known(old(self)@.seen, message_id@) {
                    final(self)@ == old(self)@ && final(effects)@ == old(effects)@
                } else {
                    final(self)@ == old(self)@.marked(message_id@, now) && final(effects)@ == old(
                        effects,
                    )@ + role_change_asked(sender@, p, reads.deep_view())
                },
            },
    {
        let p = match payload {
            Some(p) => p,
            None => return,
        };
        if self.was_seen(message_id) {
            return;
        }
        self.mark_seen(message_id, now);
        if known_admin(reads, p.group_id.as_str(), sender) {
            effects.push(
                Effect::SetMemberRole {
                    group_id: p.group_id.clone(),
                    user_id: p.target_user_id.clone(),
                    role: p.new_role,
                },
            );
            effects.notify(
                Notice::RoleChanged {
                    group_id: p.group_id.clone(),
                    user_id: p.target_user_id.clone(),
                    new_role: p.new_role,
                    changed_by: sender.to_owned(),
                },
            );
        }
        assert(effects@ =~= old(effects)@ + role_change_asked(
            sender@,
            p.deep_view(),
            reads.deep_view(),
        ));
    }

    /// Handles a rename notification.
    pub fn handle_group_rename(
        &mut self,
        message_id: &str,
        sender: &str,
        payload: &Option<GroupRenamePayload>,
        reads: &GroupReads,
        now: u128,
        effects: &mut Effects,
    )
        requires
            old(self)@.wf(),
        ensures
            final(self)@.wf(),
            match payload.deep_view() {
                None => final(self)@ == old(self)@ && final(effects)@ == old(effects)@,
                Some(p) => if assoc::known(old(self)@.seen, message_id@) {
                    final(self)@ == old(self)@ && final(effects)@ == old(effects)@
                } else {
                    final(self)@ == old(self)@.marked(message_id@, now) && final(effects)@ == old(
                        effects,
                    )@ + rename_asked(sender@, p, reads.deep_view())
                },
            },
    {
        let p = match payload {
            Some(p) => p,
            None => return,
        };
        if self.was_seen(message_id) {
            return;
        }
        self.mark_seen(message_id, now);
        if known_admin(reads, p.group_id.as_str(), sender) {
            let old_name: Option<String> = match &reads.metadata {
                Ok(Some(m)) => copy_text(&m.name),
                _ => None,
            };
            effects.push(
                Effect::SetGroupName { group_id: p.group_id.clone(), name: p.new_name.clone() },
            );
            effects.notify(
                Notice::Renamed {
                    group_id: p.group_id.clone(),
                    new_name: p.new_name.clone(),
                    old_name,
                    renamed_by: sender.to_owned(),
                },
            );
        }
        assert(effects@ =~= old(effects)@ + rename_asked(
            sender@,
            p.deep_view(),
            reads.deep_view(),
        ));
    }
}

} // verus!

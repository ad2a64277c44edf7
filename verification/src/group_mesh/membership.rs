//! Changing who is in a group: creating it, inviting, removing and leaving.
//!
//! Each operation that asks MLS or a transport in its midst is a chain of steps:
//! a step decides what is asked next, and the following one takes the answer.

use vstd::prelude::*;
use vstd::string::StringExecFns;

use crate::assoc;
use crate::base64_codec::{base64_encode, base64_text, encodable};
use crate::error::{told, Error, ErrorView, TransportError, TransportErrorView};
use crate::events::{copy_text, copy_texts};
use crate::group_mesh::commits::{carries, copy_bytes};
use crate::group_mesh::effect::{
    Effect, EffectView, Effects, GroupFrame, GroupFrameView, Notice, NoticeView, SyncReason,
};
use crate::group_mesh::forks::held;
use crate::group_mesh::roles::{
    check_is_admin, check_removal, group_metadata_or_not_found, is_admin, is_last_admin,
    last_admin, overlay, removal_fault, GroupReads, GroupReadsView, LEAVE_LAST_ADMIN,
};
use crate::group_mesh::state::{GroupMeshState, GroupSettings, MeshView, OfflineProtocol};
use crate::group_mesh::trusted::{blank, surrounded, trim, trims_to, white_space};
use crate::group_mesh::types::{
    GroupCommitType, GroupInfo, GroupInfoView, GroupMemberRemovedPayload,
    GroupMemberRemovedPayloadView, GroupMetadata, GroupMetadataView, GroupMlsCommitPayload,
    GroupMlsCommitPayloadView, GroupMlsLeavePayload, GroupMlsLeavePayloadView,
    GroupMlsWelcomePayload, GroupMlsWelcomePayloadView, GroupRole,
};
use crate::message::MessagePriority;
use crate::rosters::{others, without};
use crate::text::{decimal, push_decimal, str_eq};

verus! {

/// Refusal of a blank group name.
pub const BLANK_NAME: &'static str = "Group name cannot be empty";

/// Refusal of an invite by somebody who is no admin.
pub const INVITE_NOT_ADMIN: &'static str = "Only admins can invite members";

/// What a leave that could not be announced to anybody is answered.
pub const LEAVE_UNHEARD: &'static str = "All leave notifications failed — local state preserved for retry";

/// Rich-payload version that this node parses.
pub const RICH_PAYLOAD_V1: u8 = 1;

/// The refusal of a group name, where it is blank.
pub open spec fn name_fault(name: Seq<char>) -> Option<ErrorView> {
    if blank(name) {
        Some(ErrorView::InvalidArgument(BLANK_NAME@))
    } else {
        None
    }
}

/// Nothing is left of a text exactly where it is blank.
proof fn lemma_trimmed(text: Seq<char>, rest: Seq<char>)
    requires
        trims_to(text, rest),
    ensures
        rest.len() == 0 <==> blank(text),
{
    let (start, end) = choose|start: int, end: int| #[trigger]
        surrounded(text, start, end) && rest == text.subrange(start, end);
    if start == end {
        assert forall|i: int| 0 <= i < text.len() implies white_space(#[trigger] text[i]) by {
            if i < start {
                assert(text.take(start)[i] == text[i]);
            } else {
                assert(text.skip(end)[i - end] == text[i]);
            }
        }
    }
}

/// Checks that a group name is not blank.
pub fn check_group_name(name: &str) -> (r: Result<(), Error>)
    ensures
        match r {
            Ok(()) => name_fault(name@) is None,
            Err(e) => name_fault(name@) == Some(e.deep_view()),
        },
{
    let rest = trim(name);
    proof {
        lemma_trimmed(name@, rest@);
    }
    if rest.is_empty() {
        Err(Error::InvalidArgument(BLANK_NAME.to_owned()))
    } else {
        Ok(())
    }
}

/// The recipients whose send failed, in order.
pub open spec fn unsent(recipients: Seq<Seq<char>>, sent: Seq<bool>) -> Seq<Seq<char>>
    decreases recipients.len(),
{
    if recipients.len() == 0 {
        Seq::empty()
    } else {
        let rest = unsent(recipients.drop_last(), sent);
        let i = recipients.len() - 1;
        if i < sent.len() && sent[i] {
            rest
        } else {
            rest.push(recipients[i])
        }
    }
}

/// The recipients whose send failed: they are tried once more.
pub fn failed_recipients(recipients: &Vec<String>, sent: &Vec<bool>) -> (r: Vec<String>)
    ensures
        r.deep_view() == unsent(recipients.deep_view(), sent@),
{
    let mut r: Vec<String> = Vec::new();
    let mut i: usize = 0;
    let ghost all = recipients.deep_view();
    assert(all.take(0) =~= Seq::empty());
    assert(r.deep_view() =~= Seq::empty());
    while i < recipients.len()
        invariant
            i <= recipients@.len(),
            all == recipients.deep_view(),
            r.deep_view() == unsent(all.take(i as int), sent@),
        decreases recipients@.len() - i,
    {
        let ghost before = r.deep_view();
        proof {
            assert(all.take(i + 1).drop_last() =~= all.take(i as int));
            assert(all.take(i + 1)[i as int] == recipients[i as int]@);
        }
        if !(i < sent.len() && sent[i]) {
            r.push(recipients[i].clone());
            assert(r.deep_view() =~= before.push(recipients[i as int]@));
        }
        i = i + 1;
    }
    assert(all.take(i as int) =~= all);
    r
}

/// The refreshed members of a group, or why they cannot be told.
pub open spec fn refresh_result(
    group: Seq<char>,
    info: Result<Option<GroupInfoView>, ErrorView>,
) -> Result<Seq<Seq<char>>, ErrorView> {
    match info {
        Ok(Some(i)) => Ok(i.members),
        Ok(None) => Err(ErrorView::GroupNotFound(group)),
        Err(e) => Err(e),
    }
}

impl GroupMeshState {
    /// Refreshes the cached members of a group, and fails where MLS cannot tell
    /// them.
    pub fn refresh_or_fail(
        &mut self,
        group_id: &str,
        info: Result<Option<GroupInfo>, Error>,
    ) -> (r: Result<Vec<String>, Error>)
        requires
            old(self)@.wf(),
        ensures
            final(self)@.wf(),
            final(self)@ == old(self)@.refreshed(group_id@, told(info)),
            told(r) == refresh_result(group_id@, told(info)),
    {
        match self.refresh_group_members(group_id, &info) {
            Some(members) => Ok(members),
            None => match info {
                Err(e) => Err(e),
                Ok(_) => Err(Error::GroupNotFound(group_id.to_owned())),
            },
        }
    }

    /// The cached members of a group, or else those that MLS reports, or none.
    /// MLS is heard only where the group is not cached, and then the cache is
    /// filled.
    pub fn cached_or_refreshed(
        &mut self,
        group_id: &str,
        info: &Result<Option<GroupInfo>, Error>,
    ) -> (r: Vec<String>)
        requires
            old(self)@.wf(),
        ensures
            final(self)@.wf(),
            final(self)@ == old(self)@.filled(group_id@, told(*info)),
            r.deep_view() == old(self)@.cached_first(group_id@, told(*info)),
    {
        match self.cached_members(group_id) {
            Some(members) => members,
            None => match self.refresh_group_members(group_id, info) {
                Some(members) => members,
                None => {
                    let none: Vec<String> = Vec::new();
                    assert(none.deep_view() =~= Seq::empty());
                    none
                },
            },
        }
    }
}

impl MeshView {
    /// The state after a group's members were looked up, cache first.
    pub open spec fn filled(
        self,
        group: Seq<char>,
        info: Result<Option<GroupInfoView>, ErrorView>,
    ) -> MeshView {
        if assoc::known(self.members, group) {
            self
        } else {
            self.refreshed(group, info)
        }
    }

    /// The members of a group, cache first.
    pub open spec fn cached_first(
        self,
        group: Seq<char>,
        info: Result<Option<GroupInfoView>, ErrorView>,
    ) -> Seq<Seq<char>> {
        match assoc::lookup(self.members, group) {
            Some(members) => members,
            None => match held(info) {
                Some(i) => i.members,
                None => Seq::empty(),
            },
        }
    }
}

/// What a created group asks for.
pub open spec fn creating(info: GroupInfoView, name: Seq<char>) -> Seq<EffectView> {
    seq![
        EffectView::Notify(NoticeView::Created { group_id: info.group_id, name }),
        EffectView::RegisterWithRelay {
            group_id: info.group_id,
            group_name: Some(name),
            members: info.members,
        },
    ]
}

impl OfflineProtocol {
    /// Creates a group. `created` is what MLS answered; it is asked only for a
    /// name that [`check_group_name`] accepts.
    pub fn create_group(
        &mut self,
        group_name: &str,
        created: Result<GroupInfo, Error>,
        effects: &mut Effects,
    ) -> (r: Result<GroupInfo, Error>)
        requires
            old(self).group_mesh@.wf(),
        ensures
            final(self).group_mesh@.wf(),
            final(self).same_node(old(self)),
            match name_fault(group_name@) {
                Some(fault) => told(r) == Err::<GroupInfoView, ErrorView>(fault),
                None => r == created,
            },
            match r {
                Ok(info) => {
                    &&& final(self).group_mesh@ == (MeshView {
                        members: assoc::put(
                            old(self).group_mesh@.members,
                            info.group_id@,
                            info.members.deep_view(),
                        ),
                        ..old(self).group_mesh@
                    })
                    &&& final(effects)@ == old(effects)@ + creating(info.deep_view(), group_name@)
                },
                Err(_) => final(self).group_mesh@ == old(self).group_mesh@ && final(effects)@
                    == old(effects)@,
            },
    {
        if let Err(e) = check_group_name(group_name) {
            return Err(e);
        }
        match created {
            Err(e) => Err(e),
            Ok(info) => {
                let _ = self.group_mesh.members.insert(
                    info.group_id.clone(),
                    copy_texts(&info.members),
                );
                effects.notify(
                    Notice::Created {
                        group_id: info.group_id.clone(),
                        name: group_name.to_owned(),
                    },
                );
                effects.push(
                    Effect::RegisterWithRelay {
                        group_id: info.group_id.clone(),
                        group_name: Some(group_name.to_owned()),
                        members: copy_texts(&info.members),
                    },
                );
                assert(effects@ =~= old(effects)@ + creating(info.deep_view(), group_name@));
                Ok(info)
            },
        }
    }
}

/// How many members a group has, cache first; none where nobody can tell.
pub open spec fn head_count(
    mesh: MeshView,
    group: Seq<char>,
    info: Result<Option<GroupInfoView>, ErrorView>,
) -> nat {
    mesh.cached_first(group, info).len()
}

/// The refusal of an invite into a full group.
pub open spec fn full_text(count: nat, max: nat) -> Seq<char> {
    "Group has "@ + decimal(count) + " members, cannot exceed "@ + decimal(max) + " limit"@
}

/// The refusal of an invite for want of a live key package.
pub open spec fn stale_package_text(invitee: Seq<char>) -> Seq<char> {
    "Key package for "@ + invitee + " has expired"@
}

/// Why an invite is refused, if it is: the invitee's id, the inviter's standing,
/// the size of the group and the invitee's key package are looked at in this
/// order.
pub open spec fn invite_fault(
    mesh: MeshView,
    settings: GroupSettings,
    me: Seq<char>,
    group: Seq<char>,
    invitee: Seq<char>,
    recipient: Option<ErrorView>,
    reads: GroupReadsView,
    package_expires_at_ms: Option<u64>,
    now_ms: u64,
) -> Option<ErrorView> {
    match recipient {
        Some(e) => Some(e),
        None => match is_admin(reads, group, me) {
            Err(e) => Some(e),
            Ok(false) => Some(ErrorView::PermissionDenied(INVITE_NOT_ADMIN@)),
            Ok(true) => if head_count(mesh, group, reads.info) >= settings.max_group_members {
                Some(
                    ErrorView::InvalidState(
                        full_text(
                            head_count(mesh, group, reads.info),
                            settings.max_group_members as nat,
                        ),
                    ),
                )
            } else {
                match package_expires_at_ms {
                    None => Some(ErrorView::NoKeyPackage(invitee)),
                    Some(expiry) => if now_ms >= expiry {
                        Some(ErrorView::InvalidState(stale_package_text(invitee)))
                    } else {
                        None
                    },
                }
            },
        },
    }
}

/// The frames of an invite.
#[derive(Debug, PartialEq, Eq)]
pub struct InviteFrames {
    /// For the invitee.
    pub welcome: GroupMlsWelcomePayload,
    /// For every other member.
    pub commit: GroupMlsCommitPayload,
    /// Who gets the commit.
    pub recipients: Vec<String>,
}

/// The attestations that a welcome carries: what is known of each member but the
/// invitee, this node speaking for itself.
pub open spec fn vouchers(
    settings: GroupSettings,
    me: Seq<char>,
    invitee: Seq<char>,
    members: Seq<Seq<char>>,
    known: Seq<Option<Seq<u8>>>,
) -> Seq<(Seq<char>, Seq<u8>)>
    decreases members.len(),
{
    if members.len() == 0 {
        Seq::empty()
    } else {
        let rest = vouchers(settings, me, invitee, members.drop_last(), known);
        let i = members.len() - 1;
        let member = members[i];
        if member == invitee {
            rest
        } else if member == me {
            if settings.rich_payload_enabled {
                rest.push((member, seq![RICH_PAYLOAD_V1]))
            } else {
                rest
            }
        } else if i < known.len() && known[i] is Some {
            rest.push((member, known[i]->0))
        } else {
            rest
        }
    }
}

/// The welcome of an invite.
pub open spec fn welcome_frame(
    group: Seq<char>,
    group_name: Option<Seq<char>>,
    welcome_data: Seq<u8>,
    members: Seq<Seq<char>>,
    metadata: Option<GroupMetadataView>,
    rich: Seq<(Seq<char>, Seq<u8>)>,
) -> GroupMlsWelcomePayloadView {
    GroupMlsWelcomePayloadView {
        group_id: group,
        group_name,
        welcome_data: base64_text(welcome_data),
        member_list: members,
        member_roles: match metadata {
            Some(m) => m.roles,
            None => Seq::empty(),
        },
        member_rich: rich,
        created_by: match metadata {
            Some(m) => m.created_by,
            None => None,
        },
    }
}

/// The commit that announces a change.
pub open spec fn commit_frame(
    group: Seq<char>,
    commit_type: GroupCommitType,
    ciphertext: Seq<u8>,
    epoch: u64,
    affected: Option<Seq<char>>,
    role: Option<GroupRole>,
    rich: Option<Seq<u8>>,
) -> GroupMlsCommitPayloadView {
    GroupMlsCommitPayloadView {
        group_id: group,
        commit_type,
        ciphertext: base64_text(ciphertext),
        epoch,
        affected_member: affected,
        role,
        affected_member_rich: rich,
    }
}

/// What it takes to admit an invitee whom MLS has added: their key package is
/// spent, they get one of this node, and once the group is read they are a member
/// on record.
pub open spec fn admitting(group: Seq<char>, invitee: Seq<char>, read: bool) -> Seq<EffectView> {
    seq![
        EffectView::ConsumeKeyPackage { user_id: invitee },
        EffectView::SendKeyPackage { user_id: invitee },
    ] + (if read {
        seq![
            EffectView::SetMemberRole {
                group_id: group,
                user_id: invitee,
                role: GroupRole::Member,
            },
        ]
    } else {
        Seq::<EffectView>::empty()
    })
}

/// What an invitation asks for whose frames are out.
pub open spec fn admitted(
    me: Seq<char>,
    group: Seq<char>,
    invitee: Seq<char>,
    members: Seq<Seq<char>>,
) -> Seq<EffectView> {
    seq![
        EffectView::Notify(
            NoticeView::MemberAdded {
                group_id: group,
                user_id: invitee,
                added_by: me,
                group_name: None,
                authorized: Some(true),
            },
        ),
        EffectView::RegisterWithRelay { group_id: group, group_name: None, members },
    ]
}

/// What the removal of a member asks for that MLS has made.
pub open spec fn expelling(
    group: Seq<char>,
    member: Seq<char>,
    members: Seq<Seq<char>>,
) -> Seq<EffectView> {
    seq![
        EffectView::RemoveMemberRole { group_id: group, user_id: member },
        EffectView::AutoPromote { group_id: group, members },
    ]
}

/// What a removal asks for whose commit is out.
pub open spec fn expelled(
    me: Seq<char>,
    group: Seq<char>,
    member: Seq<char>,
    members: Seq<Seq<char>>,
) -> Seq<EffectView> {
    seq![
        EffectView::Send {
            recipients: seq![member],
            frame: GroupFrameView::MemberRemoved(
                GroupMemberRemovedPayloadView {
                    group_id: group,
                    user_id: member,
                    removed_by: me,
                },
            ),
            priority: MessagePriority::High,
        },
        EffectView::Notify(
            NoticeView::MemberRemoved {
                group_id: group,
                user_id: member,
                removed_by: me,
                authorized: Some(true),
            },
        ),
        EffectView::RegisterWithRelay { group_id: group, group_name: None, members },
    ]
}

/// A copy of the roles on record.
fn copy_roles(roles: &Vec<(String, GroupRole)>) -> (r: Vec<(String, GroupRole)>)
    ensures
        r.deep_view() == roles.deep_view(),
{
    let mut r: Vec<(String, GroupRole)> = Vec::new();
    let mut i: usize = 0;
    assert(r.deep_view() =~= roles.deep_view().take(0));
    while i < roles.len()
        invariant
            i <= roles@.len(),
            r.deep_view() == roles.deep_view().take(i as int),
        decreases roles@.len() - i,
    {
        let ghost before = r.deep_view();
        r.push((roles[i].0.clone(), roles[i].1));
        assert(roles.deep_view()[i as int] == (roles@[i as int].0@, roles@[i as int].1));
        assert(r.deep_view() =~= before.push((roles@[i as int].0@, roles@[i as int].1)));
        assert(r.deep_view() =~= roles.deep_view().take(i + 1));
        i = i + 1;
    }
    assert(r.deep_view() =~= roles.deep_view());
    r
}

impl OfflineProtocol {
    /// Decides whether an invite goes ahead. `recipient` is the verdict on the
    /// invitee's id, `reads` what MLS answers about the group, and
    /// `package_expires_at_ms` the expiry of the invitee's key package, where
    /// there is one. An expired package is forgotten.
    pub fn invite_to_group(
        &self,
        group_id: &str,
        invitee_user_id: &str,
        recipient: Result<(), Error>,
        reads: GroupReads,
        package_expires_at_ms: Option<u64>,
        now_ms: u64,
        effects: &mut Effects,
    ) -> (r: Result<(), Error>)
        requires
            self.group_mesh@.wf(),
        ensures
            ({
                let fault = invite_fault(
                    self.group_mesh@,
                    self.settings,
                    self.local_id@,
                    group_id@,
                    invitee_user_id@,
                    match recipient {
                        Ok(()) => None,
                        Err(e) => Some(e.deep_view()),
                    },
                    reads.deep_view(),
                    package_expires_at_ms,
                    now_ms,
                );
                &&& match r {
                    Ok(()) => fault is None,
                    Err(e) => fault == Some(e.deep_view()),
                }
                &&& final(effects)@ == (if recipient is Ok && is_admin(
                    reads.deep_view(),
                    group_id@,
                    self.local_id@,
                ) == Ok::<bool, ErrorView>(true) && head_count(
                    self.group_mesh@,
                    group_id@,
                    reads.deep_view().info,
                ) < self.settings.max_group_members && (package_expires_at_ms matches Some(expiry)
                    && now_ms >= expiry) {
                    old(effects)@.push(
                        EffectView::ForgetKeyPackage { user_id: invitee_user_id@ },
                    )
                } else {
                    old(effects)@
                })
            }),
    {
        if let Err(e) = recipient {
            return Err(e);
        }
        let current_count: usize = match self.group_mesh.members.get(group_id) {
            Some(members) => {
                assert(members.deep_view().len() == members@.len());
                members.len()
            },
            None => match &reads.info {
                Ok(Some(info)) => {
                    assert(info.members.deep_view().len() == info.members@.len());
                    info.members.len()
                },
                _ => 0,
            },
        };
        let ghost asked = reads.deep_view();
        assert(current_count == head_count(self.group_mesh@, group_id@, asked.info));
        match check_is_admin(reads, group_id, self.local_id.as_str()) {
            Err(e) => {
                return Err(e);
            },
            Ok(admin) => {
                if !admin {
                    return Err(Error::PermissionDenied(INVITE_NOT_ADMIN.to_owned()));
                }
            },
        }
        let max_members = self.settings.max_group_members;
        if current_count >= max_members {
            let mut text = String::new();
            text.append("Group has ");
            push_decimal(&mut text, current_count as u64);
            text.append(" members, cannot exceed ");
            push_decimal(&mut text, max_members as u64);
            text.append(" limit");
            assert(text@ =~= full_text(current_count as nat, max_members as nat));
            return Err(Error::InvalidState(text));
        }
        match package_expires_at_ms {
            None => Err(Error::NoKeyPackage(invitee_user_id.to_owned())),
            Some(expiry) => {
                if now_ms >= expiry {
                    effects.push(
                        Effect::ForgetKeyPackage { user_id: invitee_user_id.to_owned() },
                    );
                    let mut text = String::new();
                    text.append("Key package for ");
                    text.append(invitee_user_id);
                    text.append(" has expired");
                    assert(text@ =~= stale_package_text(invitee_user_id@));
                    Err(Error::InvalidState(text))
                } else {
                    Ok(())
                }
            },
        }
    }

    /// Goes on once MLS has added the invitee: their key package is spent, a
    /// fresh one of ours goes to them, the roster is refreshed from `info` and
    /// the invitee's role is stored.
    pub fn invitee_added(
        &mut self,
        group_id: &str,
        invitee_user_id: &str,
        info: Result<Option<GroupInfo>, Error>,
        effects: &mut Effects,
    ) -> (r: Result<Vec<String>, Error>)
        requires
            old(self).group_mesh@.wf(),
        ensures
            final(self).group_mesh@.wf(),
            final(self).same_node(old(self)),
            final(self).group_mesh@ == old(self).group_mesh@.refreshed(group_id@, told(info)),
            told(r) == refresh_result(group_id@, told(info)),
            final(effects)@ == old(effects)@ + admitting(
                group_id@,
                invitee_user_id@,
                r is Ok,
            ),
    {
        effects.push(Effect::ConsumeKeyPackage { user_id: invitee_user_id.to_owned() });
        effects.push(Effect::SendKeyPackage { user_id: invitee_user_id.to_owned() });
        let r = self.group_mesh.refresh_or_fail(group_id, info);
        if r.is_ok() {
            effects.push(
                Effect::SetMemberRole {
                    group_id: group_id.to_owned(),
                    user_id: invitee_user_id.to_owned(),
                    role: GroupRole::Member,
                },
            );
        }
        assert(effects@ =~= old(effects)@ + admitting(
            group_id@,
            invitee_user_id@,
            r is Ok,
        ));
        r
    }

    /// The attestations that a welcome carries. `known` holds what this node can
    /// attest of each member, in the order of `members`.
    fn vouch(
        &self,
        invitee_user_id: &str,
        members: &Vec<String>,
        known: &Vec<Option<Vec<u8>>>,
    ) -> (r: Vec<(String, Vec<u8>)>)
        ensures
            r.deep_view() == vouchers(
                self.settings,
                self.local_id@,
                invitee_user_id@,
                members.deep_view(),
                known.deep_view(),
            ),
    {
        let mut r: Vec<(String, Vec<u8>)> = Vec::new();
        let mut i: usize = 0;
        let ghost all = members.deep_view();
        assert(all.take(0) =~= Seq::empty());
        assert(r.deep_view() =~= Seq::empty());
        while i < members.len()
            invariant
                i <= members@.len(),
                all == members.deep_view(),
                r.deep_view() == vouchers(
                    self.settings,
                    self.local_id@,
                    invitee_user_id@,
                    all.take(i as int),
                    known.deep_view(),
                ),
            decreases members@.len() - i,
        {
            let ghost before = r.deep_view();
            let member = &members[i];
            proof {
                assert(all.take(i + 1).drop_last() =~= all.take(i as int));
                assert(all.take(i + 1)[i as int] == member@);
                assert(known.deep_view().len() == known@.len());
            }
            if !str_eq(member.as_str(), invitee_user_id) {
                if str_eq(member.as_str(), self.local_id.as_str()) {
                    if self.settings.rich_payload_enabled {
                        let mut versions: Vec<u8> = Vec::new();
                        versions.push(RICH_PAYLOAD_V1);
                        assert(versions.deep_view() =~= seq![RICH_PAYLOAD_V1]);
                        r.push((member.clone(), versions));
                        assert(r.deep_view() =~= before.push((member@, seq![RICH_PAYLOAD_V1])));
                    }
                } else if i < known.len() {
                    assert(known.deep_view()[i as int] == known@[i as int].deep_view());
                    if let Some(versions) = &known[i] {
                        let copy = copy_bytes(versions);
                        r.push((member.clone(), copy));
                        assert(r.deep_view() =~= before.push((member@, versions.deep_view())));
                    }
                }
            }
            i = i + 1;
        }
        assert(all.take(i as int) =~= all);
        r
    }

    /// The frames of an invite: a welcome for the invitee, with the roles and the
    /// creator on record and what is known of each member's rich capability, and
    /// a commit for everybody else.
    pub fn invite_frames(
        &self,
        group_id: &str,
        invitee_user_id: &str,
        members: &Vec<String>,
        metadata: &Option<GroupMetadata>,
        group_name: &Option<String>,
        welcome_data: &Vec<u8>,
        commit_ciphertext: &Vec<u8>,
        commit_epoch: u64,
        invitee_rich: Option<Vec<u8>>,
        member_rich: &Vec<Option<Vec<u8>>>,
    ) -> (r: InviteFrames)
        requires
            encodable(welcome_data@),
            encodable(commit_ciphertext@),
        ensures
            r.welcome.deep_view() == welcome_frame(
                group_id@,
                group_name.deep_view(),
                welcome_data@,
                members.deep_view(),
                metadata.deep_view(),
                vouchers(
                    self.settings,
                    self.local_id@,
                    invitee_user_id@,
                    members.deep_view(),
                    member_rich.deep_view(),
                ),
            ),
            r.commit.deep_view() == commit_frame(
                group_id@,
                GroupCommitType::Add,
                commit_ciphertext@,
                commit_epoch,
                Some(invitee_user_id@),
                Some(GroupRole::Member),
                invitee_rich.deep_view(),
            ),
            r.recipients.deep_view() == without(
                without(members.deep_view(), self.local_id@),
                invitee_user_id@,
            ),
            carries(r.welcome.welcome_data@, welcome_data@),
            carries(r.commit.ciphertext@, commit_ciphertext@),
    {
        let member_roles: Vec<(String, GroupRole)> = match metadata {
            Some(m) => copy_roles(&m.roles),
            None => Vec::new(),
        };
        assert(metadata is None ==> member_roles.deep_view() =~= Seq::empty());
        let created_by: Option<String> = match metadata {
            Some(m) => copy_text(&m.created_by),
            None => None,
        };
        let welcome = GroupMlsWelcomePayload {
            group_id: group_id.to_owned(),
            group_name: copy_text(group_name),
            welcome_data: base64_encode(welcome_data.as_slice()),
            member_list: copy_texts(members),
            member_roles,
            member_rich: self.vouch(invitee_user_id, members, member_rich),
            created_by,
        };
        let commit = GroupMlsCommitPayload {
            group_id: group_id.to_owned(),
            commit_type: GroupCommitType::Add,
            ciphertext: base64_encode(commit_ciphertext.as_slice()),
            epoch: commit_epoch,
            affected_member: Some(invitee_user_id.to_owned()),
            role: Some(GroupRole::Member),
            affected_member_rich: invitee_rich,
        };
        let rest = others(members, self.local_id.as_str());
        let recipients = others(&rest, invitee_user_id);
        InviteFrames { welcome, commit, recipients }
    }

    /// Ends an invite whose frames are out.
    pub fn invite_finished(
        &self,
        group_id: &str,
        invitee_user_id: &str,
        members: &Vec<String>,
        effects: &mut Effects,
    )
        ensures
            final(effects)@ == old(effects)@ + admitted(
                self.local_id@,
                group_id@,
                invitee_user_id@,
                members.deep_view(),
            ),
    {
        effects.notify(
            Notice::MemberAdded {
                group_id: group_id.to_owned(),
                user_id: invitee_user_id.to_owned(),
                added_by: self.local_id.clone(),
                group_name: None,
                authorized: Some(true),
            },
        );
        effects.push(
            Effect::RegisterWithRelay {
                group_id: group_id.to_owned(),
                group_name: None,
                members: copy_texts(members),
            },
        );
        assert(effects@ =~= old(effects)@ + admitted(
            self.local_id@,
            group_id@,
            invitee_user_id@,
            members.deep_view(),
        ));
    }
}

/// What goes out after a member was removed.
#[derive(Debug, PartialEq, Eq)]
pub struct RemovalFrames {
    /// The members that remain.
    pub members: Vec<String>,
    /// The commit for them.
    pub commit: GroupMlsCommitPayload,
    /// Who gets it.
    pub recipients: Vec<String>,
}

impl OfflineProtocol {
    /// Decides whether a member may be removed by this node. The member's id is
    /// deliberately not validated: whoever is on the roster must be removable.
    pub fn remove_from_group(
        &self,
        group_id: &str,
        member_id: &str,
        reads: GroupReads,
    ) -> (r: Result<(), Error>)
        requires
            self.group_mesh@.wf(),
        ensures
            match overlay(reads.deep_view(), group_id@) {
                Err(fault) => r matches Err(e) && e.deep_view() == fault,
                Ok(metadata) => match r {
                    Ok(()) => removal_fault(
                        metadata,
                        self.group_mesh@.cached(group_id@).len(),
                        self.local_id@,
                        member_id@,
                    ) is None,
                    Err(e) => removal_fault(
                        metadata,
                        self.group_mesh@.cached(group_id@).len(),
                        self.local_id@,
                        member_id@,
                    ) == Some(e.deep_view()),
                },
            },
    {
        match group_metadata_or_not_found(reads, group_id) {
            Err(e) => Err(e),
            Ok(metadata) => {
                let member_count: usize = match self.group_mesh.members.get(group_id) {
                    Some(members) => {
                        assert(members.deep_view().len() == members@.len());
                        members.len()
                    },
                    None => 0,
                };
                check_removal(&metadata, member_count, self.local_id.as_str(), member_id)
            },
        }
    }

    /// Goes on once MLS has removed the member: the roster is refreshed from
    /// `info`, the member's role is forgotten, a member is promoted where no
    /// admin is left, and the commit goes to everybody else who remains.
    pub fn member_removed(
        &mut self,
        group_id: &str,
        member_id: &str,
        info: Result<Option<GroupInfo>, Error>,
        commit_ciphertext: &Vec<u8>,
        commit_epoch: u64,
        effects: &mut Effects,
    ) -> (r: Result<RemovalFrames, Error>)
        requires
            old(self).group_mesh@.wf(),
            encodable(commit_ciphertext@),
        ensures
            final(self).group_mesh@.wf(),
            final(self).same_node(old(self)),
            final(self).group_mesh@ == old(self).group_mesh@.refreshed(group_id@, told(info)),
            match (r, refresh_result(group_id@, told(info))) {
                (Ok(frames), Ok(members)) => {
                    &&& frames.members.deep_view() == members
                    &&& frames.commit.deep_view() == commit_frame(
                        group_id@,
                        GroupCommitType::Remove,
                        commit_ciphertext@,
                        commit_epoch,
                        Some(member_id@),
                        None,
                        None,
                    )
                    &&& carries(frames.commit.ciphertext@, commit_ciphertext@)
                    &&& frames.recipients.deep_view() == without(members, old(self).local_id@)
                    &&& final(effects)@ == old(effects)@ + expelling(
                        group_id@,
                        member_id@,
                        members,
                    )
                },
                (Err(e), Err(fault)) => e.deep_view() == fault && final(effects)@ == old(effects)@,
                _ => false,
            },
    {
        match self.group_mesh.refresh_or_fail(group_id, info) {
            Err(e) => Err(e),
            Ok(members) => {
                effects.push(
                    Effect::RemoveMemberRole {
                        group_id: group_id.to_owned(),
                        user_id: member_id.to_owned(),
                    },
                );
                effects.push(
                    Effect::AutoPromote {
                        group_id: group_id.to_owned(),
                        members: copy_texts(&members),
                    },
                );
                assert(effects@ =~= old(effects)@ + expelling(
                    group_id@,
                    member_id@,
                    members.deep_view(),
                ));
                let commit = GroupMlsCommitPayload {
                    group_id: group_id.to_owned(),
                    commit_type: GroupCommitType::Remove,
                    ciphertext: base64_encode(commit_ciphertext.as_slice()),
                    epoch: commit_epoch,
                    affected_member: Some(member_id.to_owned()),
                    role: None,
                    affected_member_rich: None,
                };
                let recipients = others(&members, self.local_id.as_str());
                Ok(RemovalFrames { members, commit, recipients })
            },
        }
    }

    /// Ends a removal whose commit is out: the removed member, who cannot decrypt
    /// it, is told directly.
    pub fn removal_finished(
        &self,
        group_id: &str,
        member_id: &str,
        members: &Vec<String>,
        effects: &mut Effects,
    )
        ensures
            final(effects)@ == old(effects)@ + expelled(
                self.local_id@,
                group_id@,
                member_id@,
                members.deep_view(),
            ),
    {
        let mut told_to: Vec<String> = Vec::new();
        told_to.push(member_id.to_owned());
        assert(told_to.deep_view() =~= seq![member_id@]);
        effects.push(
            Effect::Send {
                recipients: told_to,
                frame: GroupFrame::MemberRemoved(
                    GroupMemberRemovedPayload {
                        group_id: group_id.to_owned(),
                        user_id: member_id.to_owned(),
                        removed_by: self.local_id.clone(),
                    },
                ),
                priority: MessagePriority::High,
            },
        );
        effects.notify(
            Notice::MemberRemoved {
                group_id: group_id.to_owned(),
                user_id: member_id.to_owned(),
                removed_by: self.local_id.clone(),
                authorized: Some(true),
            },
        );
        effects.push(
            Effect::RegisterWithRelay {
                group_id: group_id.to_owned(),
                group_name: None,
                members: copy_texts(members),
            },
        );
        assert(effects@ =~= old(effects)@ + expelled(
            self.local_id@,
            group_id@,
            member_id@,
            members.deep_view(),
        ));
    }
}

/// Why this node may not leave, if it may not: it is the last admin and others
/// remain. A group of one asks nobody.
pub open spec fn leave_fault(
    me: Seq<char>,
    members: Seq<Seq<char>>,
    metadata: Result<Option<GroupMetadataView>, ErrorView>,
) -> Option<ErrorView> {
    if without(members, me).len() == 0 {
        None
    } else {
        match metadata {
            Err(e) => Some(e),
            Ok(m) => if last_admin(m, me) {
                Some(ErrorView::InvalidState(LEAVE_LAST_ADMIN@))
            } else {
                None
            },
        }
    }
}

/// The announcement of a leave.
#[derive(Debug, PartialEq, Eq)]
pub struct LeaveFrames {
    pub leave: GroupMlsLeavePayload,
    /// Who gets it: every other member.
    pub recipients: Vec<String>,
}

impl OfflineProtocol {
    /// Decides whether this node may leave a group, and whom to tell. Leave
    /// notifications go out before any local state goes, so that a leave that
    /// nobody heard can be tried again.
    pub fn leave_group(
        &mut self,
        group_id: &str,
        reads: GroupReads,
    ) -> (r: Result<LeaveFrames, Error>)
        requires
            old(self).group_mesh@.wf(),
        ensures
            final(self).group_mesh@.wf(),
            final(self).same_node(old(self)),
            final(self).group_mesh@ == old(self).group_mesh@.filled(
                group_id@,
                reads.deep_view().info,
            ),
            ({
                let members = old(self).group_mesh@.cached_first(
                    group_id@,
                    reads.deep_view().info,
                );
                match r {
                    Ok(frames) => {
                        &&& leave_fault(
                            old(self).local_id@,
                            members,
                            reads.deep_view().metadata,
                        ) is None
                        &&& frames.leave.deep_view() == (GroupMlsLeavePayloadView {
                            group_id: group_id@,
                            leaving_member: old(self).local_id@,
                        })
                        &&& frames.recipients.deep_view() == without(members, old(self).local_id@)
                    },
                    Err(e) => leave_fault(
                        old(self).local_id@,
                        members,
                        reads.deep_view().metadata,
                    ) == Some(e.deep_view()),
                }
            }),
    {
        let members = self.group_mesh.cached_or_refreshed(group_id, &reads.info);
        let recipients = others(&members, self.local_id.as_str());
        assert(recipients.deep_view().len() == recipients@.len());
        if recipients.len() > 0 {
            match reads.metadata {
                Err(e) => {
                    return Err(e);
                },
                Ok(metadata) => {
                    if is_last_admin(&metadata, self.local_id.as_str()) {
                        return Err(Error::InvalidState(LEAVE_LAST_ADMIN.to_owned()));
                    }
                },
            }
        }
        Ok(
            LeaveFrames {
                leave: GroupMlsLeavePayload {
                    group_id: group_id.to_owned(),
                    leaving_member: self.local_id.clone(),
                },
                recipients,
            },
        )
    }

    /// Whether a leave that was announced may go on: somebody heard it, or there
    /// was nobody to tell.
    pub fn leave_announced(recipients: &Vec<String>, sent: &Vec<bool>) -> (r: Result<(), Error>)
        ensures
            match r {
                Ok(()) => recipients@.len() == 0 || sent@.contains(true),
                Err(e) => recipients@.len() > 0 && !sent@.contains(true) && e.deep_view()
                    == ErrorView::Transport(TransportErrorView::SendFailed(LEAVE_UNHEARD@)),
            },
    {
        let mut any_sent: bool = false;
        let mut i: usize = 0;
        while i < sent.len()
            invariant
                i <= sent@.len(),
                any_sent == sent@.take(i as int).contains(true),
            decreases sent@.len() - i,
        {
            proof {
                let next = sent@.take(i + 1);
                let earlier = sent@.take(i as int);
                if earlier.contains(true) {
                    let j = choose|j: int| 0 <= j < earlier.len() && earlier[j] == true;
                    assert(next[j] == true);
                }
                if next.contains(true) && !sent[i as int] {
                    let j = choose|j: int| 0 <= j < next.len() && next[j] == true;
                    assert(earlier[j] == true);
                }
                if sent[i as int] {
                    assert(next[i as int] == true);
                }
            }
            if sent[i] {
                any_sent = true;
            }
            i = i + 1;
        }
        assert(sent@.take(i as int) =~= sent@);
        if recipients.len() > 0 && !any_sent {
            return Err(Error::Transport(TransportError::SendFailed(LEAVE_UNHEARD.to_owned())));
        }
        Ok(())
    }

    /// Drops what is kept of a group that MLS has left.
    pub fn group_left(&mut self, group_id: &str, effects: &mut Effects)
        requires
            old(self).group_mesh@.wf(),
        ensures
            final(self).group_mesh@.wf(),
            final(self).same_node(old(self)),
            final(self).group_mesh@ == old(self).group_mesh@.departed(group_id@),
            final(effects)@ == old(effects)@ + old(self).group_mesh@.unsyncing(
                group_id@,
                SyncReason::Left,
            ),
    {
        self.group_mesh.depart(group_id, SyncReason::Left, effects);
    }
}

} // verus!

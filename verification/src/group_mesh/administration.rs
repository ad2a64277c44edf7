//! Administering a group: roles, names, and what can be asked about it.

use vstd::prelude::*;
use vstd::string::StringExecFns;

use crate::error::{told, Error, ErrorView};
use crate::events::copy_text;
use crate::group_mesh::effect::{
    Effect, EffectView, Effects, GroupFrame, GroupFrameView, Notice, NoticeView,
};
use crate::group_mesh::membership::{check_group_name, name_fault};
use crate::group_mesh::roles::{
    check_is_admin, group_metadata_or_not_found, is_admin, is_last_admin, known_admin, last_admin, name_in,
    overlay, role_of, GroupReads, GroupReadsView, DEMOTE_LAST_ADMIN,
};
use crate::group_mesh::state::OfflineProtocol;
use crate::group_mesh::types::{
    GroupInfo, GroupRenamePayload, GroupRenamePayloadView, GroupRole, GroupRoleChangePayload,
    GroupRoleChangePayloadView,
};
use crate::message::MessagePriority;
use crate::rosters::{lists, others, without};

verus! {

/// Refusal of a role change by somebody who is no admin.
pub const ROLE_NOT_ADMIN: &'static str = "Only admins can change roles";

/// Refusal of a rename by somebody who is no admin.
pub const RENAME_NOT_ADMIN: &'static str = "Only admins can rename groups";

/// The refusal of a role for somebody who is no member.
pub open spec fn no_member_text(user: Seq<char>, group: Seq<char>) -> Seq<char> {
    "User "@ + user + " is not a member of group "@ + group
}

/// Why a role change is refused, if it is: the standing of who asks, the
/// membership of the target and the last admin are looked at in this order.
pub open spec fn role_fault(
    me: Seq<char>,
    group: Seq<char>,
    target: Seq<char>,
    role: GroupRole,
    members: Seq<Seq<char>>,
    reads: GroupReadsView,
) -> Option<ErrorView> {
    match is_admin(reads, group, me) {
        Err(e) => Some(e),
        Ok(false) => Some(ErrorView::PermissionDenied(ROLE_NOT_ADMIN@)),
        Ok(true) => if !members.contains(target) {
            Some(ErrorView::InvalidState(no_member_text(target, group)))
        } else if role == GroupRole::Member && (reads.metadata matches Ok(m) && last_admin(
            m,
            target,
        )) {
            Some(ErrorView::InvalidState(DEMOTE_LAST_ADMIN@))
        } else {
            None
        },
    }
}

/// What a stored role change asks for.
pub open spec fn role_stored(
    me: Seq<char>,
    group: Seq<char>,
    target: Seq<char>,
    role: GroupRole,
    members: Seq<Seq<char>>,
) -> Seq<EffectView> {
    seq![
        EffectView::Send {
            recipients: without(members, me),
            frame: GroupFrameView::RoleChange(
                GroupRoleChangePayloadView {
                    group_id: group,
                    target_user_id: target,
                    new_role: role,
                    changed_by: me,
                },
            ),
            priority: MessagePriority::High,
        },
        EffectView::Notify(
            NoticeView::RoleChanged {
                group_id: group,
                user_id: target,
                new_role: role,
                changed_by: me,
            },
        ),
    ]
}

/// Why a rename is refused, if it is.
pub open spec fn rename_fault(
    me: Seq<char>,
    group: Seq<char>,
    name: Seq<char>,
    reads: GroupReadsView,
) -> Option<ErrorView> {
    match name_fault(name) {
        Some(e) => Some(e),
        None => match is_admin(reads, group, me) {
            Err(e) => Some(e),
            Ok(false) => Some(ErrorView::PermissionDenied(RENAME_NOT_ADMIN@)),
            Ok(true) => None,
        },
    }
}

/// What a stored rename asks for.
pub open spec fn rename_stored(
    me: Seq<char>,
    group: Seq<char>,
    name: Seq<char>,
    old_name: Option<Seq<char>>,
    members: Seq<Seq<char>>,
) -> Seq<EffectView> {
    seq![
        EffectView::Send {
            recipients: without(members, me),
            frame: GroupFrameView::Rename(
                GroupRenamePayloadView { group_id: group, new_name: name, renamed_by: me },
            ),
            priority: MessagePriority::High,
        },
        EffectView::Notify(
            NoticeView::Renamed { group_id: group, new_name: name, old_name, renamed_by: me },
        ),
        EffectView::RegisterWithRelay { group_id: group, group_name: Some(name), members },
    ]
}

impl OfflineProtocol {
    /// Decides whether a member's role may be changed by this node, and hands
    /// back the members to tell. The target's id is deliberately not validated.
    pub fn set_member_role(
        &mut self,
        group_id: &str,
        target_user_id: &str,
        role: GroupRole,
        reads: GroupReads,
    ) -> (r: Result<Vec<String>, Error>)
        requires
            old(self).group_mesh@.wf(),
        ensures
            final(self).group_mesh@.wf(),
            final(self).same_node(old(self)),
            final(self).group_mesh@ == (if is_admin(
                reads.deep_view(),
                group_id@,
                old(self).local_id@,
            ) == Ok::<bool, ErrorView>(true) {
                old(self).group_mesh@.filled(group_id@, reads.deep_view().info)
            } else {
                old(self).group_mesh@
            }),
            ({
                let members = old(self).group_mesh@.cached_first(
                    group_id@,
                    reads.deep_view().info,
                );
                let fault = role_fault(
                    old(self).local_id@,
                    group_id@,
                    target_user_id@,
                    role,
                    members,
                    reads.deep_view(),
                );
                match r {
                    Ok(told_to) => fault is None && told_to.deep_view() == members,
                    Err(e) => fault == Some(e.deep_view()),
                }
            }),
    {
        if !known_admin(&reads, group_id, self.local_id.as_str()) {
            return match check_is_admin(reads, group_id, self.local_id.as_str()) {
                Err(e) => Err(e),
                Ok(_) => Err(Error::PermissionDenied(ROLE_NOT_ADMIN.to_owned())),
            };
        }
        let members = self.group_mesh.cached_or_refreshed(group_id, &reads.info);
        if !lists(&members, target_user_id) {
            let mut text = String::new();
            text.append("User ");
            text.append(target_user_id);
            text.append(" is not a member of group ");
            text.append(group_id);
            assert(text@ =~= no_member_text(target_user_id@, group_id@));
            return Err(Error::InvalidState(text));
        }
        if role == GroupRole::Member {
            if let Ok(metadata) = &reads.metadata {
                if is_last_admin(metadata, target_user_id) {
                    return Err(Error::InvalidState(DEMOTE_LAST_ADMIN.to_owned()));
                }
            }
        }
        Ok(members)
    }

    /// Goes on once MLS has stored the role: every other member is told.
    pub fn member_role_set(
        &self,
        group_id: &str,
        target_user_id: &str,
        role: GroupRole,
        members: &Vec<String>,
        effects: &mut Effects,
    )
        ensures
            final(effects)@ == old(effects)@ + role_stored(
                self.local_id@,
                group_id@,
                target_user_id@,
                role,
                members.deep_view(),
            ),
    {
        effects.push(
            Effect::Send {
                recipients: others(members, self.local_id.as_str()),
                frame: GroupFrame::RoleChange(
                    GroupRoleChangePayload {
                        group_id: group_id.to_owned(),
                        target_user_id: target_user_id.to_owned(),
                        new_role: role,
                        changed_by: self.local_id.clone(),
                    },
                ),
                priority: MessagePriority::High,
            },
        );
        effects.notify(
            Notice::RoleChanged {
                group_id: group_id.to_owned(),
                user_id: target_user_id.to_owned(),
                new_role: role,
                changed_by: self.local_id.clone(),
            },
        );
        assert(effects@ =~= old(effects)@ + role_stored(
            self.local_id@,
            group_id@,
            target_user_id@,
            role,
            members.deep_view(),
        ));
    }

    /// Gets a member's role. A group without role metadata reports the role of
    /// whoever has none on record.
    pub fn get_member_role(
        &self,
        group_id: &str,
        user_id: &str,
        reads: GroupReads,
    ) -> (r: Result<GroupRole, Error>)
        ensures
            told(r) == (match overlay(reads.deep_view(), group_id@) {
                Err(e) => Err::<GroupRole, ErrorView>(e),
                Ok(Some(m)) => Ok(role_of(m.roles, user_id@)),
                Ok(None) => Ok(GroupRole::Member),
            }),
    {
        match group_metadata_or_not_found(reads, group_id) {
            Err(e) => Err(e),
            Ok(Some(m)) => Ok(m.get_role(user_id)),
            Ok(None) => Ok(GroupRole::Member),
        }
    }

    /// Gets all roles on record. A group without role metadata reports none.
    pub fn get_group_roles(
        &self,
        group_id: &str,
        reads: GroupReads,
    ) -> (r: Result<Vec<(String, GroupRole)>, Error>)
        ensures
            told(r) == (match overlay(reads.deep_view(), group_id@) {
                Err(e) => Err::<Seq<(Seq<char>, GroupRole)>, ErrorView>(e),
                Ok(Some(m)) => Ok(m.roles),
                Ok(None) => Ok(Seq::empty()),
            }),
    {
        match group_metadata_or_not_found(reads, group_id) {
            Err(e) => Err(e),
            Ok(Some(m)) => Ok(m.roles),
            Ok(None) => {
                let none: Vec<(String, GroupRole)> = Vec::new();
                assert(none.deep_view() =~= Seq::empty());
                Ok(none)
            },
        }
    }

    /// Lists all groups: what MLS answers.
    pub fn list_groups(&self, groups: Result<Vec<String>, Error>) -> (r: Result<
        Vec<String>,
        Error,
    >)
        ensures
            r == groups,
    {
        groups
    }

    /// Gets information about a group: what MLS answers.
    pub fn get_group_info(
        &self,
        info: Result<Option<GroupInfo>, Error>,
    ) -> (r: Result<Option<GroupInfo>, Error>)
        ensures
            r == info,
    {
        info
    }

    /// Decides whether the group may be renamed by this node, and hands back the
    /// name it has.
    pub fn rename_group(
        &self,
        group_id: &str,
        new_name: &str,
        reads: GroupReads,
    ) -> (r: Result<Option<String>, Error>)
        ensures
            match r {
                Ok(old_name) => rename_fault(
                    self.local_id@,
                    group_id@,
                    new_name@,
                    reads.deep_view(),
                ) is None && old_name.deep_view() == name_in(reads.deep_view()),
                Err(e) => rename_fault(self.local_id@, group_id@, new_name@, reads.deep_view())
                    == Some(e.deep_view()),
            },
    {
        if let Err(e) = check_group_name(new_name) {
            return Err(e);
        }
        let old_name: Option<String> = match &reads.metadata {
            Ok(Some(m)) => copy_text(&m.name),
            _ => None,
        };
        match check_is_admin(reads, group_id, self.local_id.as_str()) {
            Err(e) => Err(e),
            Ok(admin) => {
                if admin {
                    Ok(old_name)
                } else {
                    Err(Error::PermissionDenied(RENAME_NOT_ADMIN.to_owned()))
                }
            },
        }
    }

    /// Goes on once MLS has stored the name: every other member and the relay are
    /// told.
    pub fn group_name_set(
        &mut self,
        group_id: &str,
        new_name: &str,
        old_name: Option<String>,
        info: &Result<Option<GroupInfo>, Error>,
        effects: &mut Effects,
    )
        requires
            old(self).group_mesh@.wf(),
        ensures
            final(self).group_mesh@.wf(),
            final(self).same_node(old(self)),
            final(self).group_mesh@ == old(self).group_mesh@.filled(group_id@, told(*info)),
            final(effects)@ == old(effects)@ + rename_stored(
                old(self).local_id@,
                group_id@,
                new_name@,
                old_name.deep_view(),
                old(self).group_mesh@.cached_first(group_id@, told(*info)),
            ),
    {
        let members = self.group_mesh.cached_or_refreshed(group_id, info);
        effects.push(
            Effect::Send {
                recipients: others(&members, self.local_id.as_str()),
                frame: GroupFrame::Rename(
                    GroupRenamePayload {
                        group_id: group_id.to_owned(),
                        new_name: new_name.to_owned(),
                        renamed_by: self.local_id.clone(),
                    },
                ),
                priority: MessagePriority::High,
            },
        );
        effects.notify(
            Notice::Renamed {
                group_id: group_id.to_owned(),
                new_name: new_name.to_owned(),
                old_name,
                renamed_by: self.local_id.clone(),
            },
        );
        effects.push(
            Effect::RegisterWithRelay {
                group_id: group_id.to_owned(),
                group_name: Some(new_name.to_owned()),
                members,
            },
        );
        assert(effects@ =~= old(effects)@ + rename_stored(
            old(self).local_id@,
            group_id@,
            new_name@,
            old_name.deep_view(),
            old(self).group_mesh@.cached_first(group_id@, told(*info)),
        ));
    }
}

} // verus!
